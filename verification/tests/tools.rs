use dvd_categorize::models::{FullMovie, StructuredQuery};
use dvd_categorize::tools::{
    api_base_url, def_limit, structured_search_url, truncate, FilterByActorParams,
    FilterByDirectorParams, FilterByGenreParams, GetMovieDetailsParams, TestParams, TestTool,
    ToolKind,
};

fn movie(id: i32, name: &str) -> FullMovie {
    FullMovie {
        id,
        name: name.to_string(),
        description: None,
        actors: vec![],
        director: None,
        genres: vec![],
        added_on: None,
        location: None,
        release_year: 2000,
    }
}

fn empty(q: &StructuredQuery) -> bool {
    q.description_keywords.is_empty()
}

#[test]
fn default_limit_is_twenty() {
    assert_eq!(def_limit(), 20);
}

#[test]
fn truncate_keeps_first_movies() {
    let movies = vec![movie(1, "a"), movie(2, "b"), movie(3, "c")];
    let cut = truncate(movies.clone(), 2);
    assert_eq!(cut.iter().map(|m| m.id).collect::<Vec<_>>(), vec![1, 2]);
    assert_eq!(truncate(movies, 5).len(), 3);
}

#[test]
fn tool_queries_hold_one_criterion() {
    let q = FilterByActorParams { actor_name: "Tom Hanks".to_string(), limit: 3 }.to_query();
    assert_eq!(q.actors, vec!["Tom Hanks".to_string()]);
    assert!(q.genres.is_empty() && q.directors.is_empty() && q.title_keywords.is_empty() && empty(&q));
    let q = FilterByGenreParams { genre: "Horror".to_string(), limit: 3 }.to_query();
    assert_eq!(q.genres, vec!["Horror".to_string()]);
    let q = FilterByDirectorParams { director_name: "Nolan".to_string(), limit: 3 }.to_query();
    assert_eq!(q.directors, vec!["Nolan".to_string()]);
    let p = GetMovieDetailsParams { title: "Alien".to_string() };
    assert_eq!(p.to_query().title_keywords, vec!["Alien".to_string()]);
    assert_eq!(p.result_limit(), 5);
    assert_eq!(FilterByActorParams { actor_name: String::new(), limit: 7 }.result_limit(), 7);
}

#[test]
fn tool_names_and_descriptions() {
    assert_eq!(ToolKind::FilterByActor.name(), "filter_by_actor");
    assert_eq!(ToolKind::GetMovieDetails.name(), "get_movie_details");
    assert_eq!(
        ToolKind::FilterByGenre.description(),
        "Returns movies matching the given genre as a JSON array."
    );
    assert_eq!(TestTool::name(), "test");
    assert_eq!(TestTool::description(), "test");
    let _ = TestParams { query: "x".to_string() };
}

#[test]
fn api_urls() {
    assert_eq!(api_base_url(None), "http://localhost:3000");
    assert_eq!(api_base_url(Some("http://api:1".to_string())), "http://api:1");
    assert_eq!(structured_search_url("http://api:1"), "http://api:1/dvd/structured-search");
}
