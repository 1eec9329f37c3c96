use dvd_categorize::categorizer::{
    chat_input_changed, get_host, input_changed, server_address, AppState, ChatInput, ConnectOnce, Effect,
    Message, MovieInputChange, NewMovieInput, Page, UiError,
};
use dvd_categorize::models::FullMovie;

fn state(view: Page) -> AppState {
    let mut s = AppState::new(get_host(None, None));
    s.current_view = view;
    s
}

fn form(s: &AppState) -> FullMovie {
    match &s.current_view {
        Page::NewMovie(f) => FullMovie::from_new_movie_input(f),
        _ => panic!("not on the new-movie page"),
    }
}

#[test]
fn connection_string_uses_defaults() {
    assert_eq!(get_host(None, None).connection_string(), "http://0.0.0.0:3000");
    assert_eq!(
        get_host(Some("api".to_string()), Some("8080".to_string())).connection_string(),
        "http://api:8080"
    );
}

#[test]
fn form_edits_build_the_movie() {
    let mut s = state(Page::NewMovie(NewMovieInput::default()));
    input_changed("Heat".to_string(), MovieInputChange::Name, &mut s);
    input_changed("Crime epic".to_string(), MovieInputChange::Description, &mut s);
    input_changed(" Al Pacino | Robert De Niro |  ".to_string(), MovieInputChange::Actors, &mut s);
    input_changed("Crime|Drama".to_string(), MovieInputChange::Genres, &mut s);
    let m = form(&s);
    assert_eq!(m.id, 0);
    assert_eq!(m.name, "Heat");
    assert_eq!(m.description, Some("Crime epic".to_string()));
    assert_eq!(
        m.actors.iter().map(|a| a.name.clone()).collect::<Vec<_>>(),
        vec!["Al Pacino".to_string(), "Robert De Niro".to_string()]
    );
    assert_eq!(m.genres, vec!["Crime".to_string(), "Drama".to_string()]);
    // The director is only set while the director field is empty.
    assert_eq!(m.director.map(|d| d.name), Some(String::new()));
    input_changed("Michael Mann".to_string(), MovieInputChange::Director, &mut s);
    assert!(form(&s).director.is_none());
}

#[test]
fn edits_on_other_pages_change_nothing() {
    let mut s = state(Page::List);
    input_changed("x".to_string(), MovieInputChange::Name, &mut s);
    assert!(matches!(s.current_view, Page::List));
    chat_input_changed("hello".to_string(), &mut s);
    assert!(matches!(s.current_view, Page::List));
    let mut c = state(Page::Chat(ChatInput::default()));
    chat_input_changed("hello".to_string(), &mut c);
    match &c.current_view {
        Page::Chat(ci) => assert_eq!(ci.user_input(), "hello"),
        _ => panic!("page changed"),
    }
}

#[test]
fn update_drives_requests() {
    let mut s = state(Page::List);
    match s.update(Message::LoadDvds) {
        Effect::FetchDvds { url } => assert_eq!(url, "http://0.0.0.0:3000"),
        other => panic!("unexpected {:?}", other),
    }
    assert_eq!(s.loading, Some(true));
    let effect = s.update(Message::LoadedDvds(Err(UiError::Reqwest("down".to_string()))));
    assert!(matches!(effect, Effect::Then(Message::Navigation(Page::List))));
    assert!(s.movies.is_empty());
    assert_eq!(s.loading, Some(false));
    assert!(matches!(s.update(Message::Navigation(Page::Chat(ChatInput::default()))), Effect::Nothing));
    assert!(matches!(s.current_view, Page::Chat(_)));
    match s.update(Message::SendChatMessage("hi".to_string())) {
        Effect::AskBot { text } => assert_eq!(text, "hi"),
        other => panic!("unexpected {:?}", other),
    }
}

#[test]
fn messages_and_errors_describe_themselves() {
    let m = Message::MovieInputChanged("Heat".to_string(), MovieInputChange::Name);
    assert_eq!(m.describe(), "Message::InputChanged event Changing name input to Heat");
    assert_eq!(Message::LoadDvds.describe(), "Message::LoadDvds");
    assert_eq!(UiError::Serde("bad json".to_string()).message(), "bad json");
    assert_eq!(MovieInputChange::Actors.describe(), "Changing actors input");
}

#[test]
fn server_listens_on_configured_address() {
    assert_eq!(server_address(None, None), "0.0.0.0:3000");
    assert_eq!(server_address(Some("127.0.0.1".to_string()), Some("8080".to_string())), "127.0.0.1:8080");
}
