use dvd_categorize::models::{Actor, Director, FullMovie, StructuredQuery};
use dvd_categorize::rag::{
    answer_without_model, fill_answer_prompt, flow_query, format_movies_for_context,
    search_query_of, extracted_query, ExtractedQuery,
};

fn q(actors: &[&str], genres: &[&str]) -> StructuredQuery {
    StructuredQuery {
        actors: actors.iter().map(|s| s.to_string()).collect(),
        directors: vec![],
        genres: genres.iter().map(|s| s.to_string()).collect(),
        title_keywords: vec![],
        description_keywords: vec![],
    }
}

fn movie(name: &str, year: i32) -> FullMovie {
    FullMovie {
        id: 1,
        name: name.to_string(),
        description: None,
        actors: vec![
            Actor { id: 1, name: "A \"B\" C".to_string() },
            Actor { id: 2, name: "D".to_string() },
        ],
        director: Some(Director { id: 1, name: "Dir".to_string() }),
        genres: vec![],
        added_on: None,
        location: None,
        release_year: year,
    }
}

#[test]
fn test_format_movies_for_context_empty() {
    let movies: Vec<FullMovie> = vec![];
    let result = format_movies_for_context(&movies);
    assert!(result.contains("No movies found"));
}

#[test]
fn context_lists_movies_as_csv() {
    let mut m2 = movie("Plain", -5);
    m2.director = None;
    let out = format_movies_for_context(&vec![movie("Say \"Hi\"", 1999), m2]);
    assert!(out.starts_with("\n\n=== YOUR COMPLETE DVD LIBRARY (CSV FORMAT) ===\nTitle,Year,Director,Actors\n"));
    assert!(out.contains("\"Say \"\"Hi\"\"\",1999,\"Dir\",\"A \"\"B\"\" C; D\"\n"));
    assert!(out.contains("\"Plain\",-5,\"Unknown\",\"A \"\"B\"\" C; D\"\n\nCRITICAL INSTRUCTIONS:"));
}

#[test]
fn context_keeps_fifteen_movies() {
    let movies: Vec<FullMovie> = (0..20).map(|i| movie(&format!("M{}", i), 2000)).collect();
    let out = format_movies_for_context(&movies);
    assert!(out.contains("\"M14\""));
    assert!(!out.contains("\"M15\""));
}

#[test]
fn genres_dropped_when_other_criteria_exist() {
    let e = ExtractedQuery::from_structured(q(&["brad pitt"], &["action"]));
    assert!(e.is_movie_query);
    assert!(e.structured_query.genres.is_empty());
    let e = ExtractedQuery::from_structured(q(&[], &["action"]));
    assert!(e.is_movie_query);
    assert_eq!(e.structured_query.genres, vec!["action".to_string()]);
    let e = ExtractedQuery::from_structured(q(&[], &[]));
    assert!(!e.is_movie_query);
    assert!(search_query_of(&Some(e)).is_none());
}

#[test]
fn flow_errors() {
    assert_eq!(flow_query(None).unwrap_err(), "Failed to extract search query");
    let e = ExtractedQuery::from_structured(q(&[], &[]));
    assert_eq!(flow_query(Some(e)).unwrap_err(), "Not a movie query");
    let e = ExtractedQuery::from_structured(q(&["x"], &[]));
    assert_eq!(flow_query(Some(e)).unwrap().actors, vec!["x".to_string()]);
}

#[test]
fn answer_prompt_and_empty_answer() {
    assert_eq!(
        fill_answer_prompt("Q={USER_QUESTION} M={RETRIEVED_MOVIES}", "[]", "why?"),
        "Q=why? M=[]"
    );
    assert!(answer_without_model(&vec![]).unwrap().contains("couldn't find any movies"));
    assert!(answer_without_model(&vec![movie("x", 1)]).is_none());
}

#[test]
fn test_generate_rag_answer_empty_movies() {
    let result = answer_without_model(&vec![]);
    assert!(result.is_some());
    assert!(result.unwrap().contains("couldn't find any movies"));
}

#[test]
fn extraction_gives_none_for_non_movie_messages() {
    assert!(extracted_query(Err("model offline".to_string())).is_none());
    assert!(extracted_query(Ok(q(&[], &[]))).is_none());
    let e = extracted_query(Ok(q(&["brad pitt"], &["action"]))).unwrap();
    assert!(e.is_movie_query);
    assert_eq!(e.structured_query.actors, vec!["brad pitt".to_string()]);
    assert!(e.structured_query.genres.is_empty());
    let e = extracted_query(Ok(q(&[], &["action"]))).unwrap();
    assert_eq!(e.structured_query.genres, vec!["action".to_string()]);
}
