use dvd_categorize::prompts::{
    clean_enhanced_query, context_or_fallback, correction_json_exec, enhancement_user_message,
    movie_prompt_with_context, movie_request_message, needs_enhancement, parse_title_corrections,
    query_parse_message, title_correction_prompt,
};
use dvd_categorize::web_context::MovieScrapedContext;

#[test]
fn short_queries_are_enhanced() {
    assert!(needs_enhancement("robot"));
    assert!(needs_enhancement("  love   story "));
    assert!(!needs_enhancement("funny robot movies"));
    assert_eq!(enhancement_user_message("space"), "User: \"space\"\nYou:");
}

#[test]
fn enhancement_replies_are_cleaned() {
    assert_eq!(clean_enhanced_query("  movies about robots  \nNote: extra"), "movies about robots");
    assert_eq!(clean_enhanced_query("space films (with aliens)"), "space films");
    assert_eq!(clean_enhanced_query("Note: romantic movies"), "romantic movies");
    assert_eq!(clean_enhanced_query("This is a comedy film"), "a comedy film");
    assert_eq!(clean_enhanced_query(""), "");
    assert_eq!(clean_enhanced_query("Note: Because: crime films"), "crime films");
}

#[test]
fn correction_prompt_numbers_titles() {
    let p = title_correction_prompt(&vec!["Dark Kight".to_string(), "Heat".to_string()]);
    assert!(p.starts_with("You are a movie title normalizer."));
    assert!(p.contains("Input titles:\n1. Dark Kight\n2. Heat\n\nJSON array only, no explanation:"));
    assert!(p.contains("Rules:\n- Fix spelling errors\n"));
}

#[test]
fn correction_replies_are_read() {
    assert_eq!(correction_json_exec("  ```json\n[\"A\"]\n```  "), "[\"A\"]");
    assert_eq!(
        parse_title_corrections(2, "```json[\"The Dark Knight\", \"Heat\"]```"),
        Ok(vec!["The Dark Knight".to_string(), "Heat".to_string()])
    );
    assert_eq!(
        parse_title_corrections(3, "[\"a\"]"),
        Err("Response count mismatch: expected 3 titles, got 1".to_string())
    );
    let e = parse_title_corrections(1, "not json").unwrap_err();
    assert!(e.starts_with("Failed to parse title corrections: "));
    assert!(e.ends_with(". Content: not json"));
}

#[test]
fn generation_messages() {
    assert_eq!(movie_request_message("Heat"), "Generate movie data for: Heat");
    assert_eq!(query_parse_message("inception"), "User: \"inception\"\nResponse:");
    let p = movie_prompt_with_context("CTX");
    assert!(p.contains("=== WIKIPEDIA REFERENCE DATA ===\nCTX\n=== END REFERENCE DATA ==="));
    assert_eq!(context_or_fallback(vec![]), "No web context found. Use your best knowledge.");
    let ctx = MovieScrapedContext {
        title: "t".to_string(),
        context: "facts".to_string(),
        source_url: String::new(),
        visited_urls: vec![],
    };
    assert_eq!(context_or_fallback(vec![ctx]), "facts");
}

#[test]
fn unparsable_corrections_report_the_json_error() {
    let reason = serde_json::from_str::<Vec<String>>("[\"Alien\",]").unwrap_err().to_string();
    let r = parse_title_corrections(1, "[\"Alien\",]");
    assert_eq!(r, Err(format!("Failed to parse title corrections: {}. Content: [\"Alien\",]", reason)));
}
