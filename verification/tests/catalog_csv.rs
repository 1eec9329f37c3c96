use dvd_categorize::catalog_csv::{movies_to_csv, parse_csv, validate_headers};
use dvd_categorize::models::{Actor, Director, FullMovie};

fn actor(id: i32, name: &str) -> Actor {
    Actor { id, name: name.to_string() }
}

fn director(id: i32, name: &str) -> Director {
    Director { id, name: name.to_string() }
}

#[test]
fn it_should_parse_csv() {
    let csv = "Title,Description,Actors,Genres,Director,AddedOn,Location
t_title,t_description,Actor1 | Actor2 | Actor3,Western | Action | Adventure | Comedy,Randolph Smith,2024-01-01,Shelf A";

    let expected = FullMovie {
        id: 0,
        name: "t_title".to_string(),
        description: Some("t_description".to_string()),
        actors: vec![actor(0, "Actor1"), actor(0, "Actor2"), actor(0, "Actor3")],
        director: Some(director(0, "Randolph Smith")),
        genres: vec![
            "Western".to_string(),
            "Action".to_string(),
            "Adventure".to_string(),
            "Comedy".to_string(),
        ],
        added_on: Some("2024-01-01".to_string()),
        location: Some("Shelf A".to_string()),
        release_year: 0,
    };

    let full_movies = parse_csv(csv);
    println!("{:#?}", full_movies);
    assert!(full_movies.is_ok());

    let full_movie = full_movies.unwrap()[0].clone();
    assert_eq!(full_movie, expected);
}

#[test]
fn it_should_reject_wrong_number_of_headers() {
    let csv_too_few = "Title,Description,Actors,Genres,Director
t_title,t_description,Actor1,Western,Director";

    let result = parse_csv(csv_too_few);
    assert!(result.is_err());
    let err = result.unwrap_err();
    assert!(err.contains("Expected 7 headers, but found 5"));
}

#[test]
fn it_should_reject_wrong_header_names() {
    let csv_wrong_name = "Title,Description,Actors,Genres,Director,Updated,Location
t_title,t_description,Actor1,Western,Director,2024-01-01,Shelf A";

    let result = parse_csv(csv_wrong_name);
    assert!(result.is_err());
    let err = result.unwrap_err();
    println!("Error message: {}", err);
    assert!(err.contains("Invalid headers") || err.contains("Missing required headers"));
    assert!(err.contains("AddedOn") || err.contains("Updated"));
}

#[test]
fn it_should_accept_different_header_order() {
    let csv_different_order = "Director,Genres,Actors,Description,Title,Location,AddedOn
Randolph Smith,Western | Action,Actor1 | Actor2,t_description,t_title,Shelf A,2024-01-01";

    let result = parse_csv(csv_different_order);
    assert!(result.is_ok(), "Should accept headers in any order");

    let movies = result.unwrap();
    assert_eq!(movies.len(), 1);
    assert_eq!(movies[0].name, "t_title");
    assert_eq!(movies[0].description, Some("t_description".to_string()));
    assert_eq!(movies[0].actors.len(), 2);
    assert_eq!(movies[0].genres.len(), 2);
}

#[test]
fn test_movies_to_csv() {
    let movies = vec![FullMovie {
        id: 1,
        name: "Test Movie".to_string(),
        description: Some("A test description".to_string()),
        actors: vec![actor(1, "Actor One"), actor(2, "Actor Two")],
        director: Some(director(1, "Test Director")),
        genres: vec!["Action".to_string(), "Drama".to_string()],
        added_on: None,
        location: None,
        release_year: 2024,
    }];

    let csv = movies_to_csv(&movies).unwrap();
    assert!(csv.contains("Test Movie"));
    assert!(csv.contains("2024"));
    assert!(csv.contains("A test description"));
    assert!(csv.contains("Actor One | Actor Two"));
    assert!(csv.contains("Action | Drama"));
    assert!(csv.contains("Test Director"));

    let lines: Vec<&str> = csv.lines().collect();
    assert!(lines[0].contains("Year"));
}

#[test]
fn test_csv_quote_escaping() {
    let movies = vec![FullMovie {
        id: 1,
        name: "Movie with \"Quotes\"".to_string(),
        description: Some("Description with \"quotes\" and commas, here".to_string()),
        actors: vec![actor(1, "Actor \"Nickname\" Name")],
        director: Some(director(1, "Director \"The\" Name")),
        genres: vec!["Action".to_string()],
        added_on: None,
        location: None,
        release_year: 2024,
    }];

    let csv = movies_to_csv(&movies).unwrap();
    println!("Raw CSV output:\n{}", csv);
    assert!(
        csv.contains("\"Movie with \"\"Quotes\"\"\""),
        "CSV should escape quotes as \"\" not \\\""
    );
    assert!(
        csv.contains("\"Description with \"\"quotes\"\" and commas, here\""),
        "CSV should escape quotes as \"\" not \\\""
    );

    let parsed = parse_csv(&csv).unwrap();
    assert_eq!(parsed.len(), 1);
    assert_eq!(parsed[0].name, "Movie with \"Quotes\"");
    assert_eq!(
        parsed[0].description,
        Some("Description with \"quotes\" and commas, here".to_string())
    );
    assert_eq!(parsed[0].actors[0].name, "Actor \"Nickname\" Name");
    assert_eq!(parsed[0].director.as_ref().unwrap().name, "Director \"The\" Name");
}

#[test]
fn exact_export_text() {
    let movies = vec![FullMovie {
        id: 7,
        name: "Alien".to_string(),
        description: None,
        actors: vec![actor(1, "Sigourney Weaver"), actor(2, "Tom Skerritt")],
        director: None,
        genres: vec!["Horror".to_string(), "Sci-Fi".to_string()],
        added_on: Some("2024-05-01".to_string()),
        location: Some("Shelf B".to_string()),
        release_year: 1979,
    }];
    assert_eq!(
        movies_to_csv(&movies).unwrap(),
        "Title,Year,Description,Actors,Genres,Director,AddedOn,Location\n\
Alien,1979,,Sigourney Weaver | Tom Skerritt,Horror | Sci-Fi,,2024-05-01,Shelf B\n"
    );
}

#[test]
fn header_errors_are_exact() {
    let h = |v: &[&str]| v.iter().map(|s| s.to_string()).collect::<Vec<String>>();
    assert_eq!(
        validate_headers(&h(&["Title", "Description"])),
        Err("Expected 7 headers, but found 2. Required headers: Title, Description, Actors, Genres, Director, AddedOn, Location".to_string())
    );
    assert_eq!(
        validate_headers(&h(&["Title", "Description", "Actors", "Genres", "Director", "Updated", "Location"])),
        Err("Missing required headers: AddedOn. Required headers: Title, Description, Actors, Genres, Director, AddedOn, Location".to_string())
    );
    assert_eq!(
        validate_headers(&h(&["Location", "AddedOn", "Director", "Genres", "Actors", "Description", "Title"])),
        Ok(())
    );
    assert_eq!(
        validate_headers(&h(&["Title", "Year", "Description", "Actors", "Genres", "Director", "AddedOn", "Location"])),
        Ok(())
    );
}

#[test]
fn duplicate_titles_and_empty_fields() {
    let csv = "Title,Description,Actors,Genres,Director,AddedOn,Location
 Heat ,,,,,, 
Heat,Second copy,A,B,C,D,E
Ronin, Spy film ,Robert De Niro|Jean Reno,Action,John Frankenheimer,2024-02-02,  Shelf C ";
    let movies = parse_csv(csv).unwrap();
    assert_eq!(movies.len(), 2);
    assert_eq!(movies[0].name, "Heat");
    assert_eq!(movies[0].description, None);
    assert!(movies[0].actors.is_empty());
    assert_eq!(movies[0].director, None);
    assert_eq!(movies[0].location, Some("".to_string()));
    assert_eq!(movies[1].name, "Ronin");
    assert_eq!(movies[1].description, Some("Spy film".to_string()));
    assert_eq!(movies[1].actors[1].name, "Jean Reno");
    assert_eq!(movies[1].location, Some("Shelf C".to_string()));
}

#[test]
fn malformed_records_are_reported() {
    let csv = "Title,Description,Actors,Genres,Director,AddedOn,Location
only,two";
    assert!(parse_csv(csv).is_err());
}

#[test]
fn malformed_record_reports_the_reader_error() {
    let data = "Title,Description,Actors,Genres,Director,AddedOn,Location\nA,b,c,d,e,f,g\nB,only two\n";
    let mut reader = csv::Reader::from_reader(data.as_bytes());
    let reason = reader.records().find_map(|r| r.err()).unwrap().to_string();
    assert_eq!(parse_csv(data).err(), Some(reason));
}

#[test]
fn export_always_succeeds() {
    let csv = movies_to_csv(&vec![]).unwrap();
    assert_eq!(csv, "Title,Year,Description,Actors,Genres,Director,AddedOn,Location\n");
}

#[test]
fn export_then_import_gives_the_catalogue_back() {
    let movies = vec![
        FullMovie {
            id: 4,
            name: "Heat".to_string(),
            description: Some("Line one\nline two, with \"quotes\"".to_string()),
            actors: vec![actor(1, "Al Pacino"), actor(2, "Robert De Niro")],
            director: Some(director(3, "Michael Mann")),
            genres: vec!["Crime".to_string(), "Drama".to_string()],
            added_on: Some("2024-01-01".to_string()),
            location: Some("Shelf A".to_string()),
            release_year: 1995,
        },
        FullMovie {
            id: 5,
            name: "Up".to_string(),
            description: None,
            actors: vec![],
            director: None,
            genres: vec![],
            added_on: None,
            location: None,
            release_year: 2009,
        },
    ];
    let csv = movies_to_csv(&movies).unwrap();
    let back = parse_csv(&csv).unwrap();
    assert_eq!(back.len(), 2);
    for (b, m) in back.iter().zip(movies.iter()) {
        assert_eq!(b.name, m.name);
        assert_eq!(b.description, m.description);
        let names: Vec<&str> = b.actors.iter().map(|a| a.name.as_str()).collect();
        let orig: Vec<&str> = m.actors.iter().map(|a| a.name.as_str()).collect();
        assert_eq!(names, orig);
        assert_eq!(b.director.as_ref().map(|d| d.name.clone()), m.director.as_ref().map(|d| d.name.clone()));
        assert_eq!(b.genres, m.genres);
        assert_eq!(b.added_on, m.added_on);
        assert_eq!(b.location, m.location);
    }
}
