use dvd_categorize::models::FullMovie;
use dvd_categorize::normalize::get_random;

fn movie(id: i32, name: &str) -> FullMovie {
    FullMovie {
        id,
        name: name.to_string(),
        description: None,
        actors: vec![],
        director: None,
        genres: vec![],
        added_on: None,
        location: None,
        release_year: 2000,
    }
}

#[test]
fn random_pick_is_one_of_the_movies() {
    let movies = vec![movie(1, "Alien"), movie(2, "Heat"), movie(3, "Ran")];
    for _ in 0..50 {
        let m = get_random(&movies);
        assert!(movies.iter().any(|x| x.id == m.id && x.name == m.name));
    }
    let one = vec![movie(9, "Solo")];
    assert_eq!(get_random(&one).id, 9);
}
