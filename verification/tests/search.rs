use dvd_categorize::entities::extract_entities;
use dvd_categorize::models::{Actor, Director, FullMovie};
use dvd_categorize::search::{
    keyword_search, movies_for_answer, score_movie_by_keywords, scored_movies, SearchCriteria,
};

fn movie(id: i32, name: &str, director: &str, actors: &[&str], genres: &[&str]) -> FullMovie {
    FullMovie {
        id,
        name: name.to_string(),
        description: None,
        actors: actors.iter().map(|a| Actor { id: 0, name: a.to_string() }).collect(),
        director: Some(Director { id: 0, name: director.to_string() }),
        genres: genres.iter().map(|g| g.to_string()).collect(),
        added_on: None,
        location: None,
        release_year: 1999,
    }
}

fn catalogue() -> Vec<FullMovie> {
    vec![
        movie(1, "The Matrix", "Lana Wachowski", &["Keanu Reeves", "Carrie-Anne Moss"], &["Action", "Sci-Fi"]),
        movie(2, "The Matrix Reloaded", "Lana Wachowski", &["Keanu Reeves"], &["Action"]),
        movie(3, "Speed", "Jan de Bont", &["Keanu Reeves", "Sandra Bullock"], &["Action", "Thriller"]),
        movie(4, "Heat", "Michael Mann", &["Al Pacino"], &["Crime"]),
    ]
}

fn criteria(titles: &[&str], actors: &[&str], genres: &[&str]) -> SearchCriteria {
    let v = |x: &[&str]| x.iter().map(|s| s.to_string()).collect::<Vec<String>>();
    SearchCriteria { titles: v(titles), actors: v(actors), genres: v(genres) }
}

#[test]
fn title_points() {
    let movies = catalogue();
    let c = criteria(&["The Matrix"], &[], &[]);
    assert_eq!(score_movie_by_keywords(&movies[0], &c), 100);
    assert_eq!(score_movie_by_keywords(&movies[1], &c), 50);
    assert_eq!(score_movie_by_keywords(&movies[2], &c), 0);
    let longer = criteria(&["the matrix trilogy"], &[], &[]);
    assert_eq!(score_movie_by_keywords(&movies[0], &longer), 30);
    assert_eq!(score_movie_by_keywords(&movies[1], &longer), 0);
}

#[test]
fn cast_director_and_genre_points() {
    let movies = catalogue();
    let c = criteria(&[], &["keanu reeves"], &["action"]);
    assert_eq!(score_movie_by_keywords(&movies[0], &c), 35);
    assert_eq!(score_movie_by_keywords(&movies[3], &c), 0);
    let d = criteria(&[], &["Michael Mann"], &["crime"]);
    assert_eq!(score_movie_by_keywords(&movies[3], &d), 40);
}

#[test]
fn ranking_is_by_score_then_catalogue_order() {
    let movies = catalogue();
    assert_eq!(keyword_search(&movies, &criteria(&["the matrix"], &[], &[]), 10), vec![(1, 100), (2, 50)]);
    assert_eq!(
        keyword_search(&movies, &criteria(&[], &["keanu reeves"], &["action"]), 2),
        vec![(1, 35), (2, 35)]
    );
    assert_eq!(keyword_search(&movies, &criteria(&["zzz"], &[], &[]), 5), vec![]);
}

#[test]
fn ranked_ids_get_their_movies() {
    let movies = catalogue();
    let results: Vec<(i32, f32)> = vec![(3, 0.5), (99, 0.4), (1, 0.25)];
    let attached = scored_movies(&movies, &results);
    assert_eq!(attached.len(), 2);
    assert_eq!(attached[0].0.name, "Speed");
    assert_eq!(attached[0].1, 0.5);
    assert_eq!(attached[1].0.name, "The Matrix");
    assert_eq!(attached[1].1, 0.25);
}

#[test]
fn entities_of_a_query() {
    let movies = catalogue();
    let (titles, people, genres) = extract_entities("Keanu Reeves action movies", &movies);
    assert!(titles.is_empty());
    assert_eq!(people, vec!["keanu reeves".to_string()]);
    assert_eq!(genres, vec!["action".to_string()]);
    let (titles, people, genres) = extract_entities("The Matrix", &movies);
    assert_eq!(titles, vec!["the matrix".to_string()]);
    assert!(people.is_empty());
    assert!(genres.is_empty());
}

#[test]
fn answers_use_found_movies_or_all() {
    let movies = catalogue();
    let found: Vec<(i32, f32)> = vec![(4, 0.9), (7, 0.5), (2, 0.1)];
    let names: Vec<String> = movies_for_answer(&movies, &found).into_iter().map(|m| m.name).collect();
    assert_eq!(names, vec!["Heat".to_string(), "The Matrix Reloaded".to_string()]);
    let none: Vec<(i32, f32)> = vec![];
    assert_eq!(movies_for_answer(&movies, &none).len(), 4);
}
