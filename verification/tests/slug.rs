use dvd_categorize::normalize::title_to_slug;

#[test]
fn test_title_to_slug() {
    assert_eq!(title_to_slug("The Matrix"), "The_Matrix");
    assert_eq!(title_to_slug("Schindler's List"), "Schindler's_List");
}

#[test]
fn title_to_slug_collapses_whitespace_and_slashes() {
    assert_eq!(title_to_slug("  Face/Off   Returns "), "Face-Off_Returns");
}
