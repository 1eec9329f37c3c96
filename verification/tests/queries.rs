use dvd_categorize::models::{Actor, Director, FullMovie, StructuredQuery};
use dvd_categorize::queries::{
    extract_db_name, movie_actor_links, movie_genre_links, new_movie_rows, rank_text_matches,
    structured_query_to_filter, text_match_score, to_ilike_patterns, unique_actor_names,
    unique_director_names, unique_genres, vector_key, FilterClause, parse_knn_reply, KnnItem,
    KnnReply, MongoEmbeddedActor, MongoEmbeddedDirector, group_actors, group_genres,
    build_full_movie_from_row, MovieRow, structured_search_filters,
};

fn movie(id: i32, name: &str, director: Option<&str>, actors: &[&str], genres: &[&str]) -> FullMovie {
    FullMovie {
        id,
        name: name.to_string(),
        description: None,
        actors: actors.iter().map(|a| Actor { id: 0, name: a.to_string() }).collect(),
        director: director.map(|d| Director { id: 0, name: d.to_string() }),
        genres: genres.iter().map(|g| g.to_string()).collect(),
        added_on: None,
        location: None,
        release_year: 2000,
    }
}

#[test]
fn keys_and_names() {
    assert_eq!(vector_key(42), "movie:vec:42");
    assert_eq!(vector_key(-1), "movie:vec:-1");
    assert_eq!(extract_db_name("mongodb://host:27017/dvd?retryWrites=true"), Some("dvd".to_string()));
    assert_eq!(extract_db_name("mongodb+srv://host/catalog"), Some("catalog".to_string()));
    assert_eq!(extract_db_name("plain"), Some("plain".to_string()));
    assert_eq!(to_ilike_patterns(&vec!["Tom HANKS".to_string()]), vec!["%tom hanks%".to_string()]);
}

#[test]
fn filter_clauses_in_order() {
    let q = StructuredQuery {
        actors: vec!["pitt".to_string()],
        directors: vec![],
        genres: vec!["war".to_string(), "drama".to_string()],
        title_keywords: vec!["inglourious".to_string()],
        description_keywords: vec![],
    };
    let f = structured_query_to_filter(&q);
    assert_eq!(f.len(), 3);
    match &f[0] {
        FilterClause::All(c) => {
            assert_eq!(c[0].field, "name");
            assert_eq!(c[0].pattern, "inglourious");
        }
        _ => panic!("title keywords must all match"),
    }
    match &f[2] {
        FilterClause::Any(c) => {
            assert_eq!(c.len(), 2);
            assert_eq!(c[1].field, "genres");
        }
        _ => panic!("genres are alternatives"),
    }
}

#[test]
fn text_scores() {
    let m = movie(1, "The Matrix", Some("Lana Wachowski"), &["Keanu Reeves"], &["Sci-Fi"]);
    assert_eq!(text_match_score(&m, "MATRIX"), 100);
    assert_eq!(text_match_score(&m, "reeves"), 20);
    assert_eq!(text_match_score(&m, "wachowski"), 25);
    assert_eq!(text_match_score(&m, "sci"), 15);
    assert_eq!(text_match_score(&m, "zzz"), 0);
    let n = movie(2, "Keanu", None, &[], &[]);
    let r = rank_text_matches(&vec![m, n], "keanu", 5);
    assert_eq!(r, vec![(2, 100), (1, 20)]);
    assert!(rank_text_matches(&vec![], "", 5).is_empty());
}

#[test]
fn import_links() {
    let movies = vec![
        movie(0, "Heat", Some("Mann"), &["Pacino", "De Niro"], &["Crime"]),
        movie(0, "Ronin", None, &["De Niro", "Reno"], &["Action", "Thriller"]),
    ];
    assert_eq!(unique_actor_names(&movies), vec!["Pacino", "De Niro", "Reno"]);
    assert_eq!(unique_director_names(&movies), vec!["Mann"]);
    assert_eq!(unique_genres(&movies), vec!["Crime", "Action", "Thriller"]);
    let movie_ids = vec![(10, "Heat".to_string()), (11, "Ronin".to_string())];
    let actor_ids = vec![(1, "Pacino".to_string()), (2, "De Niro".to_string())];
    let links = movie_actor_links(&movies, &movie_ids, &actor_ids);
    let v: Vec<(i32, i32, i32)> = links.iter().map(|l| (l.movie_id, l.actor_id, l.actor_order)).collect();
    assert_eq!(v, vec![(10, 1, 1), (10, 2, 2), (11, 2, 1)]);
    let g: Vec<(i32, String)> = movie_genre_links(&movies, &movie_ids).into_iter().map(|l| (l.movie_id, l.genre)).collect();
    assert_eq!(g, vec![(10, "Crime".to_string()), (11, "Action".to_string()), (11, "Thriller".to_string())]);
    let rows = new_movie_rows(&movies, &vec![(7, "Mann".to_string())]);
    assert_eq!(rows[0].director_id, Some(7));
    assert_eq!(rows[1].director_id, None);
}

#[test]
fn knn_reply_keys_give_ids() {
    let bulk = |s: &str| KnnItem::BulkString(s.as_bytes().to_vec());
    let reply = KnnReply::Array(vec![
        KnnItem::Other,
        bulk("movie:vec:42"),
        KnnItem::Other,
        bulk("movie:vec:-7"),
        bulk("movie:vec:99"),
        bulk("movie:vec:abc"),
        KnnItem::Other,
        KnnItem::Other,
        KnnItem::Other,
        bulk("13"),
    ]);
    assert_eq!(parse_knn_reply(&reply), vec![42, -7, 13]);
    assert_eq!(parse_knn_reply(&KnnReply::Other), Vec::<i32>::new());
    let big = KnnReply::Array(vec![KnnItem::Other, bulk("movie:vec:2147483648")]);
    assert_eq!(parse_knn_reply(&big), Vec::<i32>::new());
}

#[test]
fn embedded_people_round_trip() {
    let a = Actor { id: 7, name: "Al Pacino".to_string() };
    let e = MongoEmbeddedActor::from_actor(&a);
    assert_eq!((e.id, e.name.as_str()), (7, "Al Pacino"));
    let back = e.to_actor();
    assert_eq!((back.id, back.name.as_str()), (7, "Al Pacino"));
    let d = Director { id: 3, name: "Michael Mann".to_string() };
    let back = MongoEmbeddedDirector::from_director(&d).to_director();
    assert_eq!((back.id, back.name.as_str()), (3, "Michael Mann"));
}

#[test]
fn loaded_rows_are_grouped_by_movie() {
    let ids = vec![10, 20, 30];
    let a = |id: i32, n: &str| Actor { id, name: n.to_string() };
    let rows = vec![(20, a(1, "B1")), (10, a(2, "A1")), (99, a(3, "X")), (20, a(4, "B2"))];
    let groups = group_actors(&ids, &rows);
    let names: Vec<Vec<&str>> = groups.iter().map(|g| g.iter().map(|x| x.name.as_str()).collect()).collect();
    assert_eq!(names, vec![vec!["A1"], vec!["B1", "B2"], vec![]]);
    let genre_rows = vec![(30, "Drama".to_string()), (30, "War".to_string()), (10, "Action".to_string())];
    assert_eq!(
        group_genres(&ids, &genre_rows),
        vec![vec!["Action".to_string()], vec![], vec!["Drama".to_string(), "War".to_string()]]
    );
    let dup = vec![5, 5];
    let g = group_genres(&dup, &vec![(5, "Crime".to_string())]);
    assert_eq!(g, vec![vec![], vec!["Crime".to_string()]]);
}

#[test]
fn full_movie_from_its_row() {
    let row = MovieRow {
        id: 4,
        name: "Heat".to_string(),
        description: None,
        release_year: 1995,
        added_on: "2024-01-01 00:00:00".to_string(),
        location: "Shelf A".to_string(),
    };
    let m = build_full_movie_from_row(row, Some(Director { id: 2, name: "Michael Mann".to_string() }), vec![], vec!["Crime".to_string()]);
    assert_eq!(m.id, 4);
    assert_eq!(m.added_on.as_deref(), Some("2024-01-01 00:00:00"));
    assert_eq!(m.location.as_deref(), Some("Shelf A"));
    assert_eq!(m.director.unwrap().name, "Michael Mann");
    assert_eq!(m.genres, vec!["Crime".to_string()]);
}

#[test]
fn relational_search_conditions() {
    let q = StructuredQuery {
        actors: vec!["Brad Pitt".to_string(), "Al Pacino".to_string()],
        directors: vec!["Quentin Tarantino".to_string()],
        genres: vec![],
        title_keywords: vec!["Basterds".to_string()],
        description_keywords: vec!["War".to_string()],
    };
    let f = structured_search_filters(&q);
    assert_eq!(f.len(), 4);
    match &f[0] {
        FilterClause::All(c) => {
            assert_eq!((c[0].field.as_str(), c[0].pattern.as_str()), ("director.name", "%quentin tarantino%"));
        }
        _ => panic!("every director must match"),
    }
    match &f[1] {
        FilterClause::All(c) => assert_eq!((c[0].field.as_str(), c[0].pattern.as_str()), ("movie.name", "%basterds%")),
        _ => panic!("every title keyword must match"),
    }
    match &f[2] {
        FilterClause::Any(c) => assert_eq!((c[0].field.as_str(), c[0].pattern.as_str()), ("movie.description", "%war%")),
        _ => panic!("one description keyword suffices"),
    }
    match &f[3] {
        FilterClause::Any(c) => {
            assert_eq!(c.len(), 2);
            assert_eq!((c[1].field.as_str(), c[1].pattern.as_str()), ("actor.name", "%al pacino%"));
        }
        _ => panic!("one actor suffices"),
    }
    let empty = StructuredQuery {
        actors: vec![],
        directors: vec![],
        genres: vec![],
        title_keywords: vec![],
        description_keywords: vec![],
    };
    assert!(structured_search_filters(&empty).is_empty());
}
