use dvd_categorize::dates::{check_added_on_dates, parse_added_on_date, parse_date, DateTimeParts};
use dvd_categorize::models::FullMovie;

#[test]
fn timestamps_keep_their_time() {
    let t = parse_added_on_date("2024-01-15 10:30:45.250", "Alien").unwrap();
    assert_eq!(
        t,
        DateTimeParts { year: 2024, month: 1, day: 15, hour: 10, minute: 30, second: 45, nanosecond: 250_000_000 }
    );
    let t = parse_added_on_date("2023-12-31 23:59:59", "Alien").unwrap();
    assert_eq!((t.hour, t.minute, t.second, t.nanosecond), (23, 59, 59, 0));
}

#[test]
fn plain_dates_are_taken_at_midnight() {
    let t = parse_added_on_date("2024-01-01", "Alien").unwrap();
    assert_eq!(
        t,
        DateTimeParts { year: 2024, month: 1, day: 1, hour: 0, minute: 0, second: 0, nanosecond: 0 }
    );
}

#[test]
fn other_texts_are_not_dates() {
    assert_eq!(parse_added_on_date("yesterday", "Alien"), None);
    assert_eq!(parse_added_on_date("2024-13-01", "Alien"), None);
    assert_eq!(parse_added_on_date("", "Alien"), None);
}

#[test]
fn import_check_names_the_movie() {
    assert_eq!(parse_date("2024-01-01", "Alien"), Ok(()));
    assert_eq!(parse_date("2024-01-01 08:00:00", "Alien"), Ok(()));
    assert_eq!(
        parse_date("01/02/2024", "Alien"),
        Err("Invalid date '01/02/2024' for movie 'Alien'".to_string())
    );
}

fn dated(name: &str, added_on: Option<&str>) -> FullMovie {
    FullMovie {
        id: 0,
        name: name.to_string(),
        description: None,
        actors: vec![],
        director: None,
        genres: vec![],
        added_on: added_on.map(|d| d.to_string()),
        location: None,
        release_year: 2000,
    }
}

#[test]
fn import_dates_are_checked_first_failure_reported() {
    let ok = vec![dated("Alien", Some("2024-01-01")), dated("Up", None), dated("Heat", Some("2024-01-01 08:00:00"))];
    assert_eq!(check_added_on_dates(&ok), Ok(()));
    let bad = vec![
        dated("Alien", Some("2024-01-01")),
        dated("Heat", Some("01/02/2024")),
        dated("Up", Some("yesterday")),
    ];
    assert_eq!(check_added_on_dates(&bad), Err("Invalid date '01/02/2024' for movie 'Heat'".to_string()));
    assert_eq!(check_added_on_dates(&vec![]), Ok(()));
}
