use dvd_categorize::web_context::{
    approved_sources, attempt_plan, classify_page, context_looks_like_film,
    extract_context_from_html, search_result_target, is_article_url,
    mark_remaining_skipped, result_url, FetchOutcome, FetchResult, LogLevel, MovieScrapedContext,
    ScrapeSession, SourceKind, VisitedUrl,
};

#[test]
fn test_approved_sources_not_empty() {
    let sources = approved_sources();
    assert!(!sources.is_empty());
    for s in &sources {
        assert!(!s.name.is_empty());
        assert!(!s.domain.is_empty());
    }
}

#[test]
fn test_visited_url_tracking() {
    let ctx = MovieScrapedContext {
        title: "Test Movie".to_string(),
        context: String::new(),
        source_url: String::new(),
        visited_urls: vec![
            VisitedUrl {
                url: "https://en.wikipedia.org/wiki/Test_Movie_(film)".to_string(),
                source_name: "Wikipedia (film page)",
                outcome: FetchOutcome::HttpError { status: 404 },
            },
            VisitedUrl {
                url: "https://en.wikipedia.org/wiki/Test_Movie".to_string(),
                source_name: "Wikipedia (film page)",
                outcome: FetchOutcome::NoContent,
            },
        ],
    };
    assert_eq!(ctx.visited_urls.len(), 2);
    assert!(ctx.context.is_empty());
}

#[test]
fn candidate_urls_of_film_source() {
    let sources = approved_sources();
    assert_eq!(sources[0].kind, SourceKind::WikipediaFilm);
    assert_eq!(
        sources[0].candidate_urls("The_Matrix"),
        vec![
            "https://en.wikipedia.org/wiki/The_Matrix_(film)".to_string(),
            "https://en.wikipedia.org/wiki/The_Matrix".to_string(),
        ]
    );
    assert_eq!(
        sources[1].candidate_urls("Chernobyl"),
        vec![
            "https://en.wikipedia.org/wiki/Chernobyl_(TV_series)".to_string(),
            "https://en.wikipedia.org/wiki/Chernobyl_(miniseries)".to_string(),
        ]
    );
    assert!(sources[2].candidate_urls("Alien").is_empty());
}

#[test]
fn search_urls_are_encoded() {
    let sources = approved_sources();
    assert_eq!(
        sources[0].search_url("The Matrix"),
        Some("https://en.wikipedia.org/w/index.php?search=The+Matrix+film&ns0=1".to_string())
    );
    assert_eq!(sources[1].search_url("The Matrix"), None);
    assert_eq!(
        sources[2].search_url("Alien"),
        Some("https://www.wikidata.org/w/index.php?search=Alien&ns0=1&ns120=1".to_string())
    );
}

#[test]
fn report_lines_follow_outcomes() {
    let ctx = MovieScrapedContext {
        title: "Alien".to_string(),
        context: "Alien is a 1979 science fiction horror film directed by Ridley Scott.".to_string(),
        source_url: "https://en.wikipedia.org/wiki/Alien_(film)".to_string(),
        visited_urls: vec![
            VisitedUrl {
                url: "https://en.wikipedia.org/wiki/Alien_(film)".to_string(),
                source_name: "Wikipedia (film page)",
                outcome: FetchOutcome::Success { chars_extracted: 68 },
            },
            VisitedUrl {
                url: "https://en.wikipedia.org/wiki/Alien".to_string(),
                source_name: "Wikipedia (film page)",
                outcome: FetchOutcome::Skipped,
            },
        ],
    };
    let lines = ctx.log_report();
    assert_eq!(lines.len(), 4);
    assert_eq!(lines[0].level, LogLevel::Info);
    assert_eq!(
        lines[0].text,
        "[RAG scrape] 'Alien' — FOUND (69 chars) | source: https://en.wikipedia.org/wiki/Alien_(film)"
    );
    assert_eq!(lines[1].text, "[RAG scrape] 'Alien' — visited 2 URL(s):");
    assert_eq!(
        lines[2].text,
        "[RAG scrape]   ✓ 68 chars  [Wikipedia (film page)]  https://en.wikipedia.org/wiki/Alien_(film)"
    );
    assert_eq!(lines[3].level, LogLevel::Debug);
    assert_eq!(
        lines[3].text,
        "[RAG scrape]   - skipped  [Wikipedia (film page)]  https://en.wikipedia.org/wiki/Alien"
    );
}

#[test]
fn report_of_missing_context() {
    let ctx = MovieScrapedContext {
        title: "Nothing".to_string(),
        context: String::new(),
        source_url: String::new(),
        visited_urls: vec![VisitedUrl {
            url: "https://x".to_string(),
            source_name: "Wikidata simple (film)",
            outcome: FetchOutcome::Error { reason: "timeout".to_string() },
        }],
    };
    let lines = ctx.log_report();
    assert_eq!(lines[0].text, "[RAG scrape] 'Nothing' — NOT FOUND (0 chars) | source: none");
    assert_eq!(lines[2].level, LogLevel::Warn);
    assert_eq!(lines[2].text, "[RAG scrape]   ✗ error: timeout  [Wikidata simple (film)]  https://x");
}

#[test]
fn remaining_candidates_are_skipped() {
    let candidates = vec!["a".to_string(), "b".to_string(), "c".to_string()];
    let mut visited = vec![VisitedUrl {
        url: "b".to_string(),
        source_name: "S",
        outcome: FetchOutcome::Success { chars_extracted: 10 },
    }];
    mark_remaining_skipped(&candidates, "b", "S", &mut visited);
    assert_eq!(visited.len(), 2);
    assert_eq!(visited[1].url, "c");
    assert!(matches!(visited[1].outcome, FetchOutcome::Skipped));
}

#[test]
fn candidates_before_the_success_are_not_skipped() {
    let candidates = vec!["a".to_string(), "b".to_string()];
    let mut visited = Vec::new();
    mark_remaining_skipped(&candidates, "b", "S", &mut visited);
    assert!(visited.is_empty());
    mark_remaining_skipped(&candidates, "a", "S", &mut visited);
    assert_eq!(visited.len(), 1);
    assert_eq!(visited[0].url, "b");
    mark_remaining_skipped(&candidates, "z", "S", &mut visited);
    assert_eq!(visited.len(), 1);
}

#[test]
fn film_signals_are_recognised() {
    assert!(context_looks_like_film("Alien is a 1979 film DIRECTED BY Ridley Scott"));
    assert!(context_looks_like_film("Chernobyl is a historical drama miniseries"));
    assert!(!context_looks_like_film("HMS Victory is a ship of the line"));
    assert!(!context_looks_like_film(""));
}

#[test]
fn test_extract_context_empty_html() {
    let sources = approved_sources();
    let result = extract_context_from_html("<html><body></body></html>", &sources[0]);
    assert!(result.is_empty());
}

#[test]
fn context_holds_infobox_and_long_paragraphs() {
    let html = "<html><body><div class=\"mw-parser-output\">\
        <table class=\"infobox\"><tr><th> Directed by </th><td>Lana   Wachowski\n Lilly Wachowski</td></tr>\
        <tr><th>Empty</th><td>  </td></tr></table>\
        <p>Short.</p>\
        <p>  The Matrix is a 1999 science fiction action film written and directed by the Wachowskis.  </p>\
        </div></body></html>";
    let sources = approved_sources();
    let result = extract_context_from_html(html, &sources[0]);
    assert_eq!(
        result,
        "=== Infobox ===\nDirected by: Lana Wachowski Lilly Wachowski\n\nThe Matrix is a 1999 science fiction action film written and directed by the Wachowskis."
    );
}

#[test]
fn context_keeps_three_paragraphs_and_cuts_long_text() {
    let long = "x".repeat(2000);
    let html = format!(
        "<div class=\"mw-parser-output\"><p>{}</p><p>{}</p><p>{}</p><p>{}</p></div>",
        long, long, long, long
    );
    let sources = approved_sources();
    let result = extract_context_from_html(&html, &sources[0]);
    assert_eq!(result.len(), 3000);
    assert_eq!(&result[..2000], long.as_str());
    assert_eq!(&result[2000..2002], "\n\n");
}

#[test]
fn first_search_result_href() {
    let html = "<ul class=\"mw-search-results\"><li><a href=\"/wiki/Alien_(film)\">Alien</a></li></ul>";
    assert_eq!(
        search_result_target(html, "en.wikipedia.org"),
        Some("https://en.wikipedia.org/wiki/Alien_(film)".to_string())
    );
    let absolute = "<div class=\"mw-search-result-heading\"><a href=\"https://www.wikidata.org/wiki/Q103569\">Alien</a></div>";
    assert_eq!(
        search_result_target(absolute, "www.wikidata.org"),
        Some("https://www.wikidata.org/wiki/Q103569".to_string())
    );
    assert_eq!(search_result_target("<p>no results</p>", "en.wikipedia.org"), None);
}

#[test]
fn plan_lists_candidates_then_searches() {
    let plan = attempt_plan("The Matrix");
    let urls: Vec<&str> = plan.iter().map(|a| a.url.as_str()).collect();
    assert_eq!(plan.len(), 6);
    assert_eq!(urls[0], "https://en.wikipedia.org/wiki/The_Matrix_(film)");
    assert_eq!(urls[1], "https://en.wikipedia.org/wiki/The_Matrix");
    assert!(plan[2].is_search);
    assert!(urls[2].starts_with("https://en.wikipedia.org/w/index.php?search=The+Matrix+film"));
    assert_eq!(urls[3], "https://en.wikipedia.org/wiki/The_Matrix_(TV_series)");
    assert_eq!(urls[4], "https://en.wikipedia.org/wiki/The_Matrix_(miniseries)");
    assert!(plan[5].is_search);
    assert_eq!(plan[5].source_name, "Wikidata simple (film)");
    assert_eq!(plan[0].siblings.len(), 2);
}

#[test]
fn article_urls_and_result_links() {
    assert!(is_article_url("https://en.wikipedia.org/wiki/Alien_(film)"));
    assert!(!is_article_url("https://en.wikipedia.org/wiki/Special:Search?search=x"));
    assert!(!is_article_url("https://en.wikipedia.org/w/index.php?search=x"));
    assert_eq!(result_url("/wiki/Alien", "en.wikipedia.org"), "https://en.wikipedia.org/wiki/Alien");
    assert_eq!(result_url("https://x.org/a", "en.wikipedia.org"), "https://x.org/a");
}

#[test]
fn pages_are_classified() {
    match classify_page(false, 404, String::new(), String::new()) {
        FetchResult::Failed(FetchOutcome::HttpError { status }) => assert_eq!(status, 404),
        _ => panic!("expected an HTTP error"),
    }
    match classify_page(true, 200, "u".to_string(), String::new()) {
        FetchResult::Failed(FetchOutcome::NoContent) => {}
        _ => panic!("expected no content"),
    }
    match classify_page(true, 200, "u".to_string(), "A ship of the line.".to_string()) {
        FetchResult::Failed(FetchOutcome::NoContent) => {}
        _ => panic!("expected no content"),
    }
    match classify_page(true, 200, "u".to_string(), "Directed by someone".to_string()) {
        FetchResult::Found { context, final_url } => {
            assert_eq!(context, "Directed by someone");
            assert_eq!(final_url, "u");
        }
        _ => panic!("expected found"),
    }
}

#[test]
fn session_records_success_and_skips_siblings() {
    let plan = attempt_plan("Alien");
    let mut session = ScrapeSession::new("Alien");
    session.record(&plan[0], FetchResult::Failed(FetchOutcome::HttpError { status: 404 }));
    assert!(!session.is_done());
    session.record(
        &plan[1],
        FetchResult::Found { context: "Directed by Ridley Scott".to_string(), final_url: "https://en.wikipedia.org/wiki/Alien".to_string() },
    );
    assert!(session.is_done());
    let report = session.finish();
    assert_eq!(report.title, "Alien");
    assert_eq!(report.context, "Directed by Ridley Scott");
    assert_eq!(report.source_url, "https://en.wikipedia.org/wiki/Alien");
    assert_eq!(report.visited_urls.len(), 2);
    assert!(matches!(report.visited_urls[0].outcome, FetchOutcome::HttpError { status: 404 }));
    assert!(matches!(report.visited_urls[1].outcome, FetchOutcome::Success { chars_extracted: 24 }));

    let mut session = ScrapeSession::new("Alien");
    session.record(
        &plan[0],
        FetchResult::Found { context: "Directed by Ridley Scott".to_string(), final_url: "u".to_string() },
    );
    let report = session.finish();
    assert_eq!(report.visited_urls.len(), 2);
    assert_eq!(report.visited_urls[1].url, "https://en.wikipedia.org/wiki/Alien");
    assert!(matches!(report.visited_urls[1].outcome, FetchOutcome::Skipped));
}

#[test]
fn failed_search_is_recorded_as_no_content() {
    let plan = attempt_plan("Alien");
    let mut session = ScrapeSession::new("Alien");
    session.record(&plan[2], FetchResult::Failed(FetchOutcome::HttpError { status: 500 }));
    let report = session.finish();
    assert!(report.context.is_empty());
    assert!(report.source_url.is_empty());
    assert!(matches!(report.visited_urls[0].outcome, FetchOutcome::NoContent));
}

#[test]
fn cut_inside_a_character_stops_before_it() {
    let text = format!("{}é{}", "a".repeat(2999), "b".repeat(100));
    let html = format!("<div class=\"mw-parser-output\"><p>{}</p></div>", text);
    let sources = approved_sources();
    assert_eq!(extract_context_from_html(&html, &sources[0]), "a".repeat(2999));
    let text = format!("{}é{}", "a".repeat(2998), "b".repeat(100));
    let html = format!("<div class=\"mw-parser-output\"><p>{}</p></div>", text);
    assert_eq!(extract_context_from_html(&html, &sources[0]), format!("{}é", "a".repeat(2998)));
}
