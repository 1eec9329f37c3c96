//! The desktop catalogue client's state: the API it talks to, the forms for
//! a new movie and for chat, the pages, and how each message changes the
//! state and which request it starts. Drawing the pages and sending the
//! requests happen outside the library.

use vstd::prelude::*;
use crate::models::{Actor, Director, FullMovie, actor_names, opt_view};
use crate::text::{nonempty_trimmed, split_on, to_chars, trimmed_pieces, views};

verus! {

/// Something that knows the base URL of the catalogue API.
pub trait ConnectOnce {
    fn connection_string(&self) -> String;
}

/// Why a request to the catalogue API failed.
#[derive(Debug, Clone)]
pub enum UiError {
    /// The HTTP request failed.
    Reqwest(String),
    /// The reply could not be decoded.
    Serde(String),
}

impl UiError {
    /// The error's text, as it is displayed.
    pub fn message(&self) -> (r: String)
        ensures
            r@ == (match self {
                UiError::Reqwest(e) => e@,
                UiError::Serde(e) => e@,
            }),
    {
        match self {
            UiError::Reqwest(e) => e.clone(),
            UiError::Serde(e) => e.clone(),
        }
    }
}

/// Where the catalogue API listens.
#[derive(Debug, Clone)]
pub struct ApiProperties {
    host: String,
    port: String,
}

impl ApiProperties {
    /// The host name.
    pub closed spec fn host_view(&self) -> Seq<char> {
        self.host@
    }

    /// The port.
    pub closed spec fn port_view(&self) -> Seq<char> {
        self.port@
    }
}

impl ConnectOnce for ApiProperties {
    /// `http://<host>:<port>`.
    fn connection_string(&self) -> (r: String)
        ensures
            r@ == "http://"@ + self.host_view() + ":"@ + self.port_view(),
    {
        let mut r = String::from_str("http://");
        r.append(self.host.as_str());
        r.append(":");
        r.append(self.port.as_str());
        r
    }
}

/// Host used when none is configured.
pub const DEFAULT_HOST: &'static str = "0.0.0.0";

/// Port used when none is configured.
pub const DEFAULT_PORT: &'static str = "3000";

/// The address the API server listens on: `<host>:<port>`, each defaulting
/// when not configured.
pub fn server_address(host: Option<String>, port: Option<String>) -> (r: String)
    ensures
        r@ == (match host {
            Some(h) => h@,
            None => DEFAULT_HOST@,
        }) + ":"@ + (match port {
            Some(p) => p@,
            None => DEFAULT_PORT@,
        }),
{
    let mut r = match host {
        Some(h) => h,
        None => String::from_str(DEFAULT_HOST),
    };
    r.append(":");
    match &port {
        Some(p) => r.append(p.as_str()),
        None => r.append(DEFAULT_PORT),
    }
    r
}

/// The API location from the configured host and port, each defaulting
/// when absent (to `0.0.0.0` and `3000`).
pub fn get_host(host: Option<String>, port: Option<String>) -> (r: ApiProperties)
    ensures
        r.host_view() == (match host {
            Some(h) => h@,
            None => DEFAULT_HOST@,
        }),
        r.port_view() == (match port {
            Some(p) => p@,
            None => DEFAULT_PORT@,
        }),
{
    let host = match host {
        Some(h) => h,
        None => String::from_str(DEFAULT_HOST),
    };
    let port = match port {
        Some(p) => p,
        None => String::from_str(DEFAULT_PORT),
    };
    ApiProperties { host, port }
}

/// The new-movie form as typed: actors and genres are `|`-separated lists.
#[derive(Debug, Clone)]
pub struct NewMovieInput {
    name: String,
    description: String,
    director: String,
    genres: String,
    actors: String,
}

/// The form's fields: name, description, director, genres, actors.
pub struct NewMovieInputView {
    pub name: Seq<char>,
    pub description: Seq<char>,
    pub director: Seq<char>,
    pub genres: Seq<char>,
    pub actors: Seq<char>,
}

impl View for NewMovieInput {
    type V = NewMovieInputView;

    closed spec fn view(&self) -> NewMovieInputView {
        NewMovieInputView {
            name: self.name@,
            description: self.description@,
            director: self.director@,
            genres: self.genres@,
            actors: self.actors@,
        }
    }
}

impl Default for NewMovieInput {
    /// An empty form.
    fn default() -> (r: Self)
        ensures
            r@.name.len() == 0,
            r@.description.len() == 0,
            r@.director.len() == 0,
            r@.genres.len() == 0,
            r@.actors.len() == 0,
    {
        NewMovieInput {
            name: String::new(),
            description: String::new(),
            director: String::new(),
            genres: String::new(),
            actors: String::new(),
        }
    }
}

/// The chat form as typed.
#[derive(Debug, Clone)]
pub struct ChatInput {
    user_input: String,
}

impl View for ChatInput {
    type V = Seq<char>;

    closed spec fn view(&self) -> Seq<char> {
        self.user_input@
    }
}

impl Default for ChatInput {
    /// An empty chat form.
    fn default() -> (r: Self)
        ensures
            r@.len() == 0,
    {
        ChatInput { user_input: String::new() }
    }
}

impl ChatInput {
    /// The text typed so far.
    pub fn user_input(&self) -> (r: String)
        ensures
            r@ == self@,
    {
        self.user_input.clone()
    }
}

/// Which field of the new-movie form changed.
#[derive(Debug, Clone, Copy, PartialEq, Eq)]
pub enum MovieInputChange {
    Name,
    Description,
    Director,
    Genres,
    Actors,
}

/// How a field change is described in the log.
pub open spec fn change_text(c: MovieInputChange) -> Seq<char> {
    match c {
        MovieInputChange::Name => "Changing name input"@,
        MovieInputChange::Description => "Changing Description input"@,
        MovieInputChange::Director => "Changing Director input"@,
        MovieInputChange::Genres => "Changing Genres input"@,
        MovieInputChange::Actors => "Changing actors input"@,
    }
}

impl MovieInputChange {
    /// How the change is described in the log.
    pub fn describe(self) -> (r: &'static str)
        ensures
            r@ == change_text(self),
    {
        match self {
            MovieInputChange::Name => "Changing name input",
            MovieInputChange::Description => "Changing Description input",
            MovieInputChange::Director => "Changing Director input",
            MovieInputChange::Genres => "Changing Genres input",
            MovieInputChange::Actors => "Changing actors input",
        }
    }
}

/// The page on screen, with the state of its form.
#[derive(Debug, Clone)]
pub enum Page {
    List,
    NewMovie(NewMovieInput),
    Chat(ChatInput),
}

impl FullMovie {
    /// The movie a submitted new-movie form describes: not yet stored (id 0),
    /// the description as typed, the non-empty trimmed `|`-separated actors
    /// and genres in order, no date, location or year. The director is set,
    /// and set to the empty name, exactly when the director field is empty.
    pub fn from_new_movie_input(val: &NewMovieInput) -> (r: FullMovie)
        ensures
            r.id == 0,
            r.name@ == val@.name,
            opt_view(r.description) == Some(val@.description),
            views(r.genres@) == nonempty_trimmed(split_on(val@.genres, '|')),
            actor_names(r) == nonempty_trimmed(split_on(val@.actors, '|')),
            forall|i: int| 0 <= i < r.actors@.len() ==> (#[trigger] r.actors@[i]).id == 0,
            r.director is Some <==> val@.director.len() == 0,
            r.director matches Some(d) ==> d.id == 0 && d.name@.len() == 0,
            r.added_on is None,
            r.location is None,
            r.release_year == 0,
    {
        let genres = trimmed_pieces(val.genres.as_str(), '|');
        let names = trimmed_pieces(val.actors.as_str(), '|');
        let mut actors: Vec<Actor> = Vec::new();
        let mut i: usize = 0;
        while i < names.len()
            invariant
                i <= names.len(),
                actors@.len() == i,
                forall|k: int| 0 <= k < i ==> (#[trigger] actors@[k]).name@ == names@[k]@ && actors@[k].id == 0,
            decreases names.len() - i,
        {
            actors.push(Actor::from_name(names[i].clone()));
            i += 1;
        }
        let dir_chars = to_chars(val.director.as_str());
        let director = if dir_chars.len() == 0 {
            Some(Director::from_name(val.director.clone()))
        } else {
            None
        };
        let r = FullMovie {
            id: 0,
            name: val.name.clone(),
            description: Some(val.description.clone()),
            actors,
            director,
            genres,
            added_on: None,
            location: None,
            release_year: 0,
        };
        assert(actor_names(r) =~= views(names@));
        r
    }
}

/// What the client does after handling a message.
#[derive(Debug)]
pub enum Effect {
    /// Nothing further.
    Nothing,
    /// Handle this message next.
    Then(Message),
    /// Fetch all movies from `<url>/dvd`; the answer comes back as `LoadedDvds`.
    FetchDvds { url: String },
    /// Store a movie through `<url>/dvd`; the answer comes back as `SavedDvd`.
    PostDvd { movie: FullMovie, url: String },
    /// Send the text to the chat bot, then show the list.
    AskBot { text: String },
}

/// Everything the client can be told.
#[derive(Debug)]
pub enum Message {
    MovieInputChanged(String, MovieInputChange),
    ChatInputChanged(String),
    LoadDvds,
    LoadedDvds(Result<Vec<FullMovie>, UiError>),
    SaveDvd(FullMovie),
    SavedDvd(Result<FullMovie, UiError>),
    Navigation(Page),
    SendChatMessage(String),
}

/// How a message is described in the log.
pub open spec fn message_text(m: Message) -> Seq<char> {
    match m {
        Message::MovieInputChanged(value, change) => "Message::InputChanged event "@ + change_text(change)
            + " to "@ + value@,
        Message::ChatInputChanged(value) => "Message::ChatInputChanged event input to "@ + value@,
        Message::LoadDvds => "Message::LoadDvds"@,
        Message::LoadedDvds(_) => "Message::LoadedDvds"@,
        Message::SaveDvd(_) => "Message::SaveDvd"@,
        Message::SavedDvd(_) => "Message::SavedDvd"@,
        Message::Navigation(_) => "Message::Navigation"@,
        Message::SendChatMessage(_) => "Message::SendChatMessage"@,
    }
}

impl Message {
    /// How the message is described in the log.
    pub fn describe(&self) -> (r: String)
        ensures
            r@ == message_text(*self),
    {
        match self {
            Message::MovieInputChanged(value, change) => {
                let mut r = String::from_str("Message::InputChanged event ");
                r.append(change.describe());
                r.append(" to ");
                r.append(value.as_str());
                r
            },
            Message::ChatInputChanged(value) => {
                let mut r = String::from_str("Message::ChatInputChanged event input to ");
                r.append(value.as_str());
                r
            },
            Message::LoadDvds => String::from_str("Message::LoadDvds"),
            Message::LoadedDvds(_) => String::from_str("Message::LoadedDvds"),
            Message::SaveDvd(_) => String::from_str("Message::SaveDvd"),
            Message::SavedDvd(_) => String::from_str("Message::SavedDvd"),
            Message::Navigation(_) => String::from_str("Message::Navigation"),
            Message::SendChatMessage(_) => String::from_str("Message::SendChatMessage"),
        }
    }
}

/// The client's state (the colour theme is kept by the window).
#[derive(Debug)]
pub struct AppState {
    pub movies: Vec<FullMovie>,
    pub current_view: Page,
    pub api_properties: ApiProperties,
    pub loading: Option<bool>,
}

/// The form after `change` set one of its fields to `value`.
pub open spec fn form_after(form: NewMovieInputView, change: MovieInputChange, value: Seq<char>) -> NewMovieInputView {
    match change {
        MovieInputChange::Name => NewMovieInputView { name: value, ..form },
        MovieInputChange::Description => NewMovieInputView { description: value, ..form },
        MovieInputChange::Director => NewMovieInputView { director: value, ..form },
        MovieInputChange::Genres => NewMovieInputView { genres: value, ..form },
        MovieInputChange::Actors => NewMovieInputView { actors: value, ..form },
    }
}

/// Sets the changed field of the new-movie form; other pages are untouched.
pub fn input_changed(value: String, change: MovieInputChange, state: &mut AppState)
    ensures
        final(state).movies@ == old(state).movies@,
        final(state).api_properties == old(state).api_properties,
        final(state).loading == old(state).loading,
        match old(state).current_view {
            Page::NewMovie(form) => final(state).current_view matches Page::NewMovie(f2) && f2@ == form_after(
                form@,
                change,
                value@,
            ),
            _ => final(state).current_view == old(state).current_view,
        },
{
    if let Page::NewMovie(ref mut new_movie_input) = state.current_view {
        match change {
            MovieInputChange::Name => new_movie_input.name = value,
            MovieInputChange::Description => new_movie_input.description = value,
            MovieInputChange::Genres => new_movie_input.genres = value,
            MovieInputChange::Actors => new_movie_input.actors = value,
            MovieInputChange::Director => new_movie_input.director = value,
        }
    }
}

/// Sets the chat form's text; other pages are untouched.
pub fn chat_input_changed(value: String, state: &mut AppState)
    ensures
        final(state).movies@ == old(state).movies@,
        final(state).api_properties == old(state).api_properties,
        final(state).loading == old(state).loading,
        match old(state).current_view {
            Page::Chat(_) => final(state).current_view matches Page::Chat(c) && c@ == value@,
            _ => final(state).current_view == old(state).current_view,
        },
{
    if let Page::Chat(ref mut chat_input) = state.current_view {
        chat_input.user_input = value;
    }
}

/// The base URL of the API the state points at.
pub open spec fn api_url(state: AppState) -> Seq<char> {
    "http://"@ + state.api_properties.host_view() + ":"@ + state.api_properties.port_view()
}

impl AppState {
    /// A fresh client: no movies, the list page, nothing loading.
    pub fn new(api_properties: ApiProperties) -> (r: AppState)
        ensures
            r.movies@.len() == 0,
            r.current_view is List,
            r.api_properties == api_properties,
            r.loading is None,
    {
        AppState { movies: Vec::new(), current_view: Page::List, api_properties, loading: None }
    }

    /// Handles one message: the form edits change the form on screen,
    /// navigation changes the page, loading marks the state as loading and
    /// fetches the movies, their arrival replaces the list (an error gives an
    /// empty list) and returns to the list page, saving posts the movie and
    /// its answer returns to the list page, and a chat message goes to the
    /// bot.
    pub fn update(&mut self, message: Message) -> (r: Effect)
        ensures
            final(self).api_properties == old(self).api_properties,
            match message {
                Message::MovieInputChanged(value, change) => {
                    &&& r is Nothing
                    &&& final(self).movies@ == old(self).movies@
                    &&& final(self).loading == old(self).loading
                    &&& match old(self).current_view {
                        Page::NewMovie(form) => final(self).current_view matches Page::NewMovie(f2)
                            && f2@ == form_after(form@, change, value@),
                        _ => final(self).current_view == old(self).current_view,
                    }
                },
                Message::ChatInputChanged(value) => {
                    &&& r is Nothing
                    &&& final(self).movies@ == old(self).movies@
                    &&& final(self).loading == old(self).loading
                    &&& match old(self).current_view {
                        Page::Chat(_) => final(self).current_view matches Page::Chat(c) && c@ == value@,
                        _ => final(self).current_view == old(self).current_view,
                    }
                },
                Message::SaveDvd(movie) => {
                    &&& r matches Effect::PostDvd { movie: m, url } && m == movie && url@ == api_url(
                        *old(self),
                    )
                    &&& final(self).movies@ == old(self).movies@
                    &&& final(self).current_view == old(self).current_view
                    &&& final(self).loading == old(self).loading
                },
                Message::SavedDvd(_) => {
                    &&& r matches Effect::Then(Message::Navigation(p)) && p is List
                    &&& final(self).movies@ == old(self).movies@
                    &&& final(self).current_view == old(self).current_view
                    &&& final(self).loading == old(self).loading
                },
                Message::Navigation(page) => {
                    &&& r is Nothing
                    &&& final(self).current_view == page
                    &&& final(self).movies@ == old(self).movies@
                    &&& final(self).loading == old(self).loading
                },
                Message::LoadDvds => {
                    &&& r matches Effect::FetchDvds { url } && url@ == api_url(*old(self))
                    &&& final(self).loading == Some(true)
                    &&& final(self).movies@ == old(self).movies@
                    &&& final(self).current_view == old(self).current_view
                },
                Message::LoadedDvds(result) => {
                    &&& r matches Effect::Then(Message::Navigation(p)) && p is List
                    &&& final(self).movies@ == (match result {
                        Ok(v) => v@,
                        Err(_) => Seq::empty(),
                    })
                    &&& final(self).loading == Some(false)
                    &&& final(self).current_view == old(self).current_view
                },
                Message::SendChatMessage(text) => {
                    &&& r matches Effect::AskBot { text: t } && t == text
                    &&& final(self).movies@ == old(self).movies@
                    &&& final(self).current_view == old(self).current_view
                    &&& final(self).loading == old(self).loading
                },
            },
    {
        match message {
            Message::MovieInputChanged(value, change) => {
                input_changed(value, change, self);
                Effect::Nothing
            },
            Message::ChatInputChanged(input) => {
                chat_input_changed(input, self);
                Effect::Nothing
            },
            Message::SaveDvd(movie) => {
                let url = self.api_properties.connection_string();
                Effect::PostDvd { movie, url }
            },
            Message::SavedDvd(_) => Effect::Then(Message::Navigation(Page::List)),
            Message::Navigation(page) => {
                self.current_view = page;
                Effect::Nothing
            },
            Message::LoadDvds => {
                self.loading = Some(true);
                let url = self.api_properties.connection_string();
                Effect::FetchDvds { url }
            },
            Message::LoadedDvds(result) => {
                self.movies = match result {
                    Ok(v) => v,
                    Err(_) => Vec::new(),
                };
                self.loading = Some(false);
                Effect::Then(Message::Navigation(Page::List))
            },
            Message::SendChatMessage(input) => Effect::AskBot { text: input },
        }
    }
}

} // verus!
