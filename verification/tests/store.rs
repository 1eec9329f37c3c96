use dvd_categorize::models::{Actor, Director, FullMovie, StructuredQuery};
use dvd_categorize::store::{DatabaseError, MockMovieRepository};

fn movie(id: i32, name: &str, director: &str, actors: &[&str], genres: &[&str]) -> FullMovie {
    FullMovie {
        id,
        name: name.to_string(),
        description: None,
        actors: actors.iter().map(|a| Actor { id: 0, name: a.to_string() }).collect(),
        director: Some(Director { id: 0, name: director.to_string() }),
        genres: genres.iter().map(|g| g.to_string()).collect(),
        added_on: None,
        location: None,
        release_year: 2000,
    }
}

fn query(actors: &[&str], directors: &[&str], genres: &[&str], titles: &[&str]) -> StructuredQuery {
    let v = |x: &[&str]| x.iter().map(|s| s.to_string()).collect::<Vec<String>>();
    StructuredQuery {
        actors: v(actors),
        directors: v(directors),
        genres: v(genres),
        title_keywords: v(titles),
        description_keywords: vec![],
    }
}

#[test]
fn test_mock_movie_repository() {
    let mut repo = MockMovieRepository::new();
    let m = movie(0, "Test Movie", "Someone", &[], &[]);
    let inserted = repo.insert(m).unwrap();
    assert_eq!(inserted.id, 1);
    assert_eq!(inserted.name, "Test Movie");
    let fetched = repo.get_by_id(1).unwrap();
    assert_eq!(fetched.name, "Test Movie");
    let all = repo.get_all();
    assert_eq!(all.len(), 1);
}

#[test]
fn ids_follow_loaded_movies() {
    let mut repo = MockMovieRepository::with_movies(vec![
        movie(5, "Heat", "Michael Mann", &["Al Pacino"], &["Crime"]),
        movie(2, "Ronin", "John Frankenheimer", &["Robert De Niro"], &["Action"]),
    ]);
    let m = repo.insert(movie(0, "Alien", "Ridley Scott", &[], &["Horror"])).unwrap();
    assert_eq!(m.id, 6);
    assert_eq!(repo.get_by_ids(&vec![2, 9, 6]).iter().map(|m| m.id).collect::<Vec<_>>(), vec![2, 6]);
    assert!(matches!(repo.get_by_id(9), Err(DatabaseError::NotFound)));
}

#[test]
fn locations_are_updated() {
    let mut repo = MockMovieRepository::with_movies(vec![movie(3, "Heat", "Mann", &[], &[])]);
    assert!(repo.update_location(3, "Shelf A".to_string()).is_ok());
    assert_eq!(repo.get_by_id(3).unwrap().location, Some("Shelf A".to_string()));
    assert!(matches!(repo.update_location(4, "x".to_string()), Err(DatabaseError::NotFound)));
    assert_eq!(DatabaseError::NotFound.message(), "Database query error: Record not found");
}

#[test]
fn structured_search_filters() {
    let repo = MockMovieRepository::with_movies(vec![
        movie(1, "Heat", "Michael Mann", &["Al Pacino", "Robert De Niro"], &["Crime"]),
        movie(2, "Ronin", "John Frankenheimer", &["Robert De Niro"], &["Action"]),
        movie(3, "Collateral", "Michael Mann", &["Tom Cruise"], &["Crime", "Thriller"]),
    ]);
    let ids = |q: StructuredQuery| {
        let mut v = repo.search_structured(&q).iter().map(|m| m.id).collect::<Vec<_>>();
        v.sort();
        v
    };
    assert_eq!(ids(query(&["de niro"], &[], &[], &[])), vec![1, 2]);
    assert_eq!(ids(query(&[], &["MANN"], &[], &[])), vec![1, 3]);
    assert_eq!(ids(query(&["de niro"], &["mann"], &[], &[])), vec![1]);
    assert_eq!(ids(query(&[], &[], &["thrill"], &[])), vec![3]);
    assert_eq!(ids(query(&[], &[], &[], &["col", "late"])), vec![3]);
    assert_eq!(ids(query(&[], &[], &[], &[])), vec![1, 2, 3]);
}

#[test]
fn batch_ids_are_consecutive() {
    let mut repo = MockMovieRepository::new();
    let ids = repo.insert_batch(&vec!["a".to_string(), "b".to_string()]);
    assert_eq!(ids, vec![(1, "a".to_string()), (2, "b".to_string())]);
    assert!(repo.get_all().is_empty());
}

#[test]
fn every_stored_movie_is_listed_once() {
    let repo = MockMovieRepository::with_movies(vec![
        movie(7, "Heat", "Michael Mann", &[], &[]),
        movie(3, "Ronin", "John Frankenheimer", &[], &[]),
        movie(7, "Heat (director's cut)", "Michael Mann", &[], &[]),
    ]);
    let mut all = repo.get_all().iter().map(|m| (m.id, m.name.clone())).collect::<Vec<_>>();
    all.sort();
    assert_eq!(all, vec![(3, "Ronin".to_string()), (7, "Heat (director's cut)".to_string())]);
}
