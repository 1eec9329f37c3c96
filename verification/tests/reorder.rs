use dvd_categorize::models::{Actor, FullMovie};
use dvd_categorize::reorder::{after_attempt, RetryStep};
use dvd_categorize::reorder::{
    apply_reordered, check_reordered, csv_row_of, extract_error_line, failed_movie_line,
    generate_failed_output_path, generate_output_path, needs_model_reset, parse_usize_exec,
    reorder_request_message, reorder_settings, reordered_from_reply, retries_exhausted,
    select_range, parse_i32_exec, csv_debug_message,
};

fn s(v: &[&str]) -> Vec<String> {
    v.iter().map(|x| x.to_string()).collect()
}

fn movie() -> FullMovie {
    FullMovie {
        id: 3,
        name: "Escape from New York".to_string(),
        description: Some("A prison, \"Manhattan\"".to_string()),
        actors: vec![
            Actor { id: 1, name: "Kurt Russell".to_string() },
            Actor { id: 2, name: "Lee Van Cleef".to_string() },
        ],
        director: None,
        genres: s(&["Action", "Sci-Fi"]),
        added_on: None,
        location: Some("Shelf A".to_string()),
        release_year: 1981,
    }
}

#[test]
fn output_paths() {
    assert_eq!(generate_output_path("in.csv", None), "in_reordered.csv");
    assert_eq!(generate_output_path("/data/movies.csv", None), "/data/movies_reordered.csv");
    assert_eq!(generate_output_path("in.csv", Some("out.csv".to_string())), "out.csv");
    assert_eq!(generate_failed_output_path("/data/movies.csv"), "/data/movies-failed.csv");
    assert_eq!(generate_failed_output_path("movies"), "movies-failed.");
}

#[test]
fn settings_and_progress() {
    assert_eq!(
        reorder_settings(None, None, None),
        ("http://localhost:11434".to_string(), "qwen2.5:14b".to_string())
    );
    assert!(!needs_model_reset(0));
    assert!(needs_model_reset(50));
    assert!(!needs_model_reset(51));
    assert_eq!(csv_row_of(10, 0), 12);
    assert_eq!(select_range(2, Some(5), 4), Ok((4, 2)));
    assert_eq!(select_range(0, None, 4), Ok((4, 4)));
    assert_eq!(
        select_range(4, None, 4),
        Err("Start index 4 is beyond the total number of movies (4)".to_string())
    );
}

#[test]
fn request_message() {
    assert_eq!(
        reorder_request_message(&movie()),
        "Movie Title: Escape from New York\nRelease Year: 1981 (IMPORTANT: Use this year to identify the correct version of the movie)\n\nActors to reorder (these actors ARE in the 1981 Escape from New York version): Kurt Russell, Lee Van Cleef"
    );
}

#[test]
fn replies_are_checked() {
    let originals = s(&["Kurt Russell", "Lee Van Cleef"]);
    assert_eq!(check_reordered(&originals, &s(&["Lee Van Cleef", "Kurt Russel"])), Ok(()));
    assert_eq!(
        check_reordered(&originals, &s(&["Renée", "Kurt Russell"])),
        Err("Actor name contains non-English characters: 'Renée'".to_string())
    );
    assert_eq!(
        check_reordered(&originals, &s(&["Kurt Russell"])),
        Err("AI returned 1 actors but expected exactly 2. Ignoring response.".to_string())
    );
    assert_eq!(
        check_reordered(&originals, &s(&["Kurt Russell", "Ernest Borgnine"])),
        Err("AI returned actor 'Ernest Borgnine' not matching any original actor (max edit distance 2). Ignoring response.".to_string())
    );
    assert_eq!(
        reordered_from_reply(&originals, "Sure: [\"Lee Van Cleef\", \"Kurt Russell\"] done"),
        Ok(s(&["Lee Van Cleef", "Kurt Russell"]))
    );
    assert!(reordered_from_reply(&originals, "no json").unwrap_err().starts_with("Failed to parse JSON response: "));
    assert_eq!(retries_exhausted("boom"), "Failed after 4 attempts. Last error: boom");
}

#[test]
fn reordered_cast_replaces_actors() {
    let mut m = movie();
    apply_reordered(&mut m, s(&["Lee Van Cleef", "Kurt Russell"]));
    assert_eq!(m.actors[0].name, "Lee Van Cleef");
    assert_eq!(m.actors[0].id, 0);
    assert_eq!(m.id, 3);
}

#[test]
fn failed_lines_are_escaped() {
    assert_eq!(
        failed_movie_line(&movie(), "bad, reply"),
        "Escape from New York,1981,\"A prison, \"\"Manhattan\"\"\",Kurt Russell; Lee Van Cleef,Action; Sci-Fi,,,Shelf A,\"bad, reply\""
    );
}

#[test]
fn csv_errors_are_located() {
    let content = "Title,Year\r\nHeat,1995\nRonin,1998\n";
    assert_eq!(
        extract_error_line("CSV error: record 2 (line: 2, byte: 12): found record", content),
        Some((2, "Heat,1995".to_string()))
    );
    assert_eq!(extract_error_line("line: 3", content), Some((3, "Ronin,1998".to_string())));
    assert_eq!(extract_error_line("line: 4", content), None);
    assert_eq!(extract_error_line("line: 0", content), None);
    assert_eq!(extract_error_line("no position", content), None);
    assert_eq!(extract_error_line("line: x", content), None);
    assert_eq!(extract_error_line("line: 1", "Title,Year\r\n"), Some((1, "Title,Year".to_string())));
}

#[test]
fn usize_parsing_follows_std() {
    assert_eq!(parse_usize_exec("42"), Some(42));
    assert_eq!(parse_usize_exec("+7"), Some(7));
    assert_eq!(parse_usize_exec("+"), None);
    assert_eq!(parse_usize_exec(""), None);
    assert_eq!(parse_usize_exec("-1"), None);
    assert_eq!(parse_usize_exec("18446744073709551615"), Some(usize::MAX));
    assert_eq!(parse_usize_exec("18446744073709551616"), None);
    assert_eq!(parse_usize_exec("1 "), None);
}

#[test]
fn unparsable_reply_reports_the_json_error() {
    let originals = vec!["Al Pacino".to_string()];
    let reason = serde_json::from_str::<Vec<String>>("no json here").unwrap_err().to_string();
    assert_eq!(
        reordered_from_reply(&originals, "  no json here "),
        Err(format!("Failed to parse JSON response: {}. Response was: no json here", reason))
    );
}

#[test]
fn i32_parsing_follows_str_parse() {
    for s in ["0", "42", "-7", "+15", "2147483647", "-2147483648", "2147483648", "-", "+", "", "12a", " 1", "--1"] {
        assert_eq!(parse_i32_exec(s), s.parse::<i32>().ok(), "input {:?}", s);
    }
}

#[test]
fn csv_debug_question() {
    assert_eq!(
        csv_debug_message("found record with 3 fields", 12, "a,b,c"),
        "CSV Parsing Error:\nfound record with 3 fields\n\nProblematic Line 12 Content:\na,b,c\n\nWhat's wrong with this line and how to fix it?"
    );
}

#[test]
fn retries_until_the_last_attempt() {
    assert!(matches!(after_attempt(1, Ok(vec!["A".to_string()])), RetryStep::Done(v) if v == vec!["A".to_string()]));
    assert!(matches!(after_attempt(1, Err("bad".to_string())), RetryStep::Retry { next: 2, error } if error == "bad"));
    assert!(matches!(after_attempt(3, Err("bad".to_string())), RetryStep::Retry { next: 4, .. }));
    match after_attempt(4, Err("boom".to_string())) {
        RetryStep::GiveUp(m) => assert_eq!(m, "Failed after 4 attempts. Last error: boom"),
        other => panic!("unexpected {:?}", other),
    }
}
