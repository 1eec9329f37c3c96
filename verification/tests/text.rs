use dvd_categorize::text::{split_whitespace, trim_str};

#[test]
fn whitespace_matches_std() {
    let s = "a\u{3000}b\u{00A0}c\td\u{2003}e\u{200B}f";
    let ours = split_whitespace(s);
    let std: Vec<String> = s.split_whitespace().map(|w| w.to_string()).collect();
    assert_eq!(ours, std);
    for c in ['\u{85}', '\u{1680}', '\u{2028}', '\u{202F}', '\u{205F}', '\u{FEFF}', 'x'] {
        let t = format!("{}y{}", c, c);
        assert_eq!(trim_str(&t), t.trim());
    }
}
