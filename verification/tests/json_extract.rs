use dvd_categorize::json_extract::{extract_json_array, extract_json_from_response};

#[test]
fn test_extract_json_from_response() {
    let cases = vec![
        // Plain JSON
        (
            r#"{"actors":["brad pitt"],"directors":[],"genres":["action"],"title_keywords":[],"description_keywords":[]}"#,
            r#"{"actors":["brad pitt"],"directors":[],"genres":["action"],"title_keywords":[],"description_keywords":[]}"#,
        ),
        // JSON with prefix text
        (
            r#"Here is the result: {"actors":[],"directors":[],"genres":[],"title_keywords":[],"description_keywords":[]}"#,
            r#"{"actors":[],"directors":[],"genres":[],"title_keywords":[],"description_keywords":[]}"#,
        ),
        // JSON with suffix text
        (
            r#"{"actors":["tom hanks"],"directors":[],"genres":["comedy"],"title_keywords":[],"description_keywords":[]} - This is a comedy movie"#,
            r#"{"actors":["tom hanks"],"directors":[],"genres":["comedy"],"title_keywords":[],"description_keywords":[]}"#,
        ),
        // Markdown code block with json tag
        (
            r#"```json
{"actors":["brad pitt"],"directors":[],"genres":[],"title_keywords":[],"description_keywords":["nazis"]}
```"#,
            r#"{"actors":["brad pitt"],"directors":[],"genres":[],"title_keywords":[],"description_keywords":["nazis"]}"#,
        ),
        // Markdown code block without json tag
        (
            r#"```
{"actors":["brad pitt"],"directors":[],"genres":[],"title_keywords":[],"description_keywords":["nazis"]}
```"#,
            r#"{"actors":["brad pitt"],"directors":[],"genres":[],"title_keywords":[],"description_keywords":["nazis"]}"#,
        ),
        // Markdown with extra text after closing backticks
        (
            r#"{"actors":["brad pitt"],"directors":[],"genres":[],"title_keywords":[],"description_keywords":["nazis"]}

    ```json
    {
      "actors": ["brad pitt"],
      "directors": [],
      "genres": [],
      "title_keywords": [],
      "description_keywords": ["nazis"]
    }"#,
            r#"{"actors":["brad pitt"],"directors":[],"genres":[],"title_keywords":[],"description_keywords":["nazis"]}"#,
        ),
    ];

    for (input, expected) in cases {
        let result = extract_json_from_response(input);
        assert_eq!(result, expected, "Failed for input: {}", input);
    }
}

#[test]
fn extract_json_ignores_braces_inside_strings() {
    let input = r#"note {"title":"a } b","x":{"y":"\"}"}} trailing"#;
    assert_eq!(
        extract_json_from_response(input),
        r#"{"title":"a } b","x":{"y":"\"}"}}"#
    );
}

#[test]
fn extract_json_without_object_returns_stripped_text() {
    assert_eq!(extract_json_from_response("  no json here  "), "no json here");
    assert_eq!(extract_json_from_response("{ unterminated"), "{ unterminated");
}

#[test]
fn extract_json_array_takes_first_open_to_last_close() {
    assert_eq!(
        extract_json_array("Sure: [\"A\", \"B\"] done"),
        "[\"A\", \"B\"]"
    );
    assert_eq!(extract_json_array("no brackets"), "no brackets");
    assert_eq!(extract_json_array("] reversed ["), "] reversed [");
}
