use dvd_categorize::catalog::{
    check_generation_request, default_count, default_limit, default_max_year, default_min_year,
    first_user_query, plan_generation, session_preview, strip_the_exec, validate_titles,
    GenerateMoviesRequest, GenerateStreamEvent, NeedsInputReason, StoredChatMessage,
};
use dvd_categorize::catalog::{generation_stream, AiMovieData, GenerationItem};
use dvd_categorize::models::{Actor, Director, FullMovie};

fn movie(name: &str) -> FullMovie {
    FullMovie {
        id: 1,
        name: name.to_string(),
        description: Some("desc".to_string()),
        actors: vec![Actor { id: 1, name: "Keanu Reeves".to_string() }],
        director: Some(Director { id: 1, name: "Lana Wachowski".to_string() }),
        genres: vec!["Sci-Fi".to_string()],
        added_on: None,
        location: None,
        release_year: 2003,
    }
}

fn s(v: &[&str]) -> Vec<String> {
    v.iter().map(|x| x.to_string()).collect()
}

#[test]
fn query_defaults() {
    assert_eq!(default_count(), 3);
    assert_eq!(default_min_year(), 2020);
    assert_eq!(default_max_year(), 2026);
    assert_eq!(default_limit(), 50);
}

#[test]
fn empty_generation_request_is_refused() {
    let r = GenerateMoviesRequest { titles: vec![], model: None, positions: vec![] };
    assert_eq!(check_generation_request(&r), Some("No movie titles provided".to_string()));
    let r = GenerateMoviesRequest { titles: s(&["Heat"]), model: None, positions: vec![] };
    assert_eq!(check_generation_request(&r), None);
}

#[test]
fn strip_the_only_at_start() {
    assert_eq!(strip_the_exec("the matrix"), "matrix");
    assert_eq!(strip_the_exec("matrix the"), "matrix the");
    assert_eq!(strip_the_exec("The matrix"), "The matrix");
}

#[test]
fn titles_are_checked_against_the_catalog() {
    let catalog = vec![movie("The Matrix Reloaded")];
    let titles = s(&["Matrix Reloaded", "Dark Kight", "Heat"]);
    let corrected = Some(s(&["The Matrix Reloaded", "The Dark Knight", "Heat"]));
    let r = validate_titles(&titles, corrected, &catalog);
    assert_eq!(r.len(), 3);
    assert!(r[0].already_in_catalog);
    assert_eq!(r[0].suggestion, None);
    assert!(!r[1].already_in_catalog);
    assert_eq!(r[1].suggestion, Some("The Dark Knight".to_string()));
    assert_eq!(r[2].suggestion, None);
    // A correction with the wrong count is ignored.
    let r = validate_titles(&titles, Some(s(&["x"])), &catalog);
    assert!(r[0].already_in_catalog);
    assert_eq!(r[1].suggestion, None);
}

#[test]
fn generation_plan_splits_titles() {
    let catalog = vec![movie("The Matrix Reloaded")];
    let titles = s(&["matrix reloaded", "Dark Kight", "Heat"]);
    let corrected = Some(s(&["matrix reloaded", "The Dark Knight", "Heat"]));
    let plan = plan_generation(&titles, corrected, &vec![7], &catalog);
    assert_eq!(plan.events.len(), 2);
    match &plan.events[0] {
        GenerateStreamEvent::Movie(d) => {
            assert_eq!(d.title, "The Matrix Reloaded");
            assert_eq!(d.year, 2003);
            assert_eq!(d.actors, s(&["Keanu Reeves"]));
            assert_eq!(d.director, "Lana Wachowski");
            assert!(d.already_in_catalog);
            assert_eq!(d.input_title, Some("matrix reloaded".to_string()));
            assert_eq!(d.position, 7);
        }
        other => panic!("unexpected {:?}", other),
    }
    match &plan.events[1] {
        GenerateStreamEvent::NeedsInput { original, reason: NeedsInputReason::Suggestion(sug), position } => {
            assert_eq!(original, "Dark Kight");
            assert_eq!(sug, "The Dark Knight");
            assert_eq!(*position, 1);
        }
        other => panic!("unexpected {:?}", other),
    }
    assert_eq!(plan.clean_titles, vec![("Heat".to_string(), 2)]);
}

#[test]
fn session_preview_takes_first_user_turn() {
    let history = vec![
        StoredChatMessage { role: "assistant".to_string(), content: "hello".to_string() },
        StoredChatMessage { role: "user".to_string(), content: "movies with Tom Hanks".to_string() },
        StoredChatMessage { role: "user".to_string(), content: "later".to_string() },
    ];
    assert_eq!(first_user_query(&history), Some("movies with Tom Hanks".to_string()));
    let p = session_preview(1, "s".to_string(), "c".to_string(), "u".to_string(), Some(history));
    assert_eq!(p.first_query, Some("movies with Tom Hanks".to_string()));
    let p = session_preview(2, "s".to_string(), "c".to_string(), "u".to_string(), None);
    assert_eq!(p.first_query, None);
    assert_eq!(first_user_query(&vec![]), None);
}

#[test]
fn generation_stream_sends_each_title_then_done() {
    let catalog = vec![movie("The Matrix Reloaded")];
    let titles = s(&["matrix reloaded", "Heat", "Up"]);
    let plan = plan_generation(&titles, None, &vec![], &catalog);
    assert_eq!(plan.events.len(), 1);
    assert_eq!(plan.clean_titles.len(), 2);
    let card = AiMovieData {
        title: "Heat".to_string(),
        year: 1995,
        description: "d".to_string(),
        actors: vec![],
        genres: vec![],
        director: "Michael Mann".to_string(),
        already_in_catalog: false,
        input_title: None,
        position: 0,
    };
    let items = generation_stream(plan, vec![Ok(card), Err("model timeout".to_string())]);
    assert_eq!(items.len(), 4);
    assert!(matches!(&items[0], GenerationItem::Event(GenerateStreamEvent::Movie(d)) if d.already_in_catalog));
    match &items[1] {
        GenerationItem::Event(GenerateStreamEvent::Movie(d)) => {
            assert_eq!(d.title, "Heat");
            assert_eq!(d.input_title, Some("Heat".to_string()));
            assert_eq!(d.position, 1);
        }
        other => panic!("unexpected {:?}", other),
    }
    assert!(matches!(&items[2], GenerationItem::Error(e) if e == "model timeout"));
    assert!(matches!(items[3], GenerationItem::Done));
}
