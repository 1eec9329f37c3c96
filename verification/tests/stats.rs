use dvd_categorize::models::{Actor, Director, FullMovie};
use dvd_categorize::stats::{stats_genres, stats_movies_by_year, stats_overview, stats_top_actors};

fn movie(year: i32, director: Option<&str>, actors: &[&str], genres: &[&str]) -> FullMovie {
    FullMovie {
        id: 0,
        name: "m".to_string(),
        description: None,
        actors: actors.iter().map(|a| Actor { id: 0, name: a.to_string() }).collect(),
        director: director.map(|d| Director { id: 0, name: d.to_string() }),
        genres: genres.iter().map(|g| g.to_string()).collect(),
        added_on: None,
        location: None,
        release_year: year,
    }
}

#[test]
fn overview_counts_distinct_people() {
    let movies = vec![
        movie(1999, Some("Mann"), &["Pacino", "De Niro"], &["Crime"]),
        movie(1995, Some("Mann"), &["De Niro"], &["Crime", "Drama"]),
        movie(0, None, &["Reno"], &[]),
    ];
    let o = stats_overview(&movies);
    assert_eq!(o.total_movies, 3);
    assert_eq!(o.total_directors, 1);
    assert_eq!(o.total_actors, 3);
}

#[test]
fn genres_and_actors_ranked() {
    let movies = vec![
        movie(1999, None, &["A", "B"], &["Crime"]),
        movie(1995, None, &["B"], &["Crime", "Drama"]),
        movie(1990, None, &["C", "B"], &["Drama", "Crime"]),
    ];
    assert_eq!(
        stats_genres(&movies),
        vec![("Crime".to_string(), 3), ("Drama".to_string(), 2)]
    );
    assert_eq!(
        stats_top_actors(&movies),
        vec![("B".to_string(), 3), ("A".to_string(), 1), ("C".to_string(), 1)]
    );
}

#[test]
fn top_ten_genres_only() {
    let names: Vec<String> = (0..12).map(|i| format!("G{}", i)).collect();
    let mut movies = Vec::new();
    for (i, n) in names.iter().enumerate() {
        for _ in 0..(i + 1) {
            movies.push(movie(2000, None, &[], &[n.as_str()]));
        }
    }
    let top = stats_genres(&movies);
    assert_eq!(top.len(), 10);
    assert_eq!(top[0], ("G11".to_string(), 12));
    assert_eq!(top[9], ("G2".to_string(), 3));
}

#[test]
fn years_ranked_then_in_year_order() {
    let mut movies = Vec::new();
    for y in 1980..2000 {
        let n = if y >= 1985 { 2 } else { 1 };
        for _ in 0..n {
            movies.push(movie(y, None, &[], &[]));
        }
    }
    movies.push(movie(0, None, &[], &[]));
    let years = stats_movies_by_year(&movies);
    assert_eq!(years.len(), 15);
    assert_eq!(years[0], (1985, 2));
    assert_eq!(years[14], (1999, 2));
    assert!(years.windows(2).all(|w| w[0].0 < w[1].0));
}
