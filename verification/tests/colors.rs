use dvd_categorize::colors::hex_to_rgb;

#[test]
fn six_digit_codes() {
    assert_eq!(hex_to_rgb("#ff8000"), (255, 128, 0));
    assert_eq!(hex_to_rgb("1E90FF"), (30, 144, 255));
    assert_eq!(hex_to_rgb("##000001"), (0, 0, 1));
}

#[test]
fn three_digit_codes_are_doubled() {
    assert_eq!(hex_to_rgb("#f80"), (255, 136, 0));
    assert_eq!(hex_to_rgb("abc"), (170, 187, 204));
}

#[test]
fn bad_components_read_as_zero() {
    assert_eq!(hex_to_rgb("#zz8000"), (0, 128, 0));
    assert_eq!(hex_to_rgb("#+f8000"), (15, 128, 0));
}

#[test]
fn other_lengths_are_black() {
    assert_eq!(hex_to_rgb("#ffff"), (0, 0, 0));
    assert_eq!(hex_to_rgb(""), (0, 0, 0));
    assert_eq!(hex_to_rgb("#1234567"), (0, 0, 0));
}
