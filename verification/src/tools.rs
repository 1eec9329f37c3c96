//! The chat model's tools: their parameters, names and descriptions, the
//! structured query each one sends to the catalogue API, and how many movies
//! of the answer are handed back to the model.

use vstd::prelude::*;
use crate::models::{FullMovie, StructuredQuery};
use crate::text::views;

verus! {

/// Base URL of the catalogue API when none is configured.
pub const DEFAULT_API_URL: &'static str = "http://localhost:3000";

/// Movies returned by a filter tool when the model gives no limit.
pub const DEFAULT_LIMIT: usize = 20;

/// Movies returned by the details tool.
pub const DETAILS_LIMIT: usize = 5;

/// The default number of movies a filter tool returns.
pub fn def_limit() -> (r: usize)
    ensures
        r == DEFAULT_LIMIT,
{
    DEFAULT_LIMIT
}

/// The first `limit` movies of a result (all of them when there are fewer).
pub fn truncate(movies: Vec<FullMovie>, limit: usize) -> (r: Vec<FullMovie>)
    ensures
        r@ == (if movies@.len() > limit { movies@.take(limit as int) } else { movies@ }),
{
    let mut movies = movies;
    if movies.len() > limit {
        movies.truncate(limit);
    }
    movies
}

/// The API base URL: the configured one, else the local default.
pub fn api_base_url(configured: Option<String>) -> (r: String)
    ensures
        r@ == (match configured {
            Some(u) => u@,
            None => DEFAULT_API_URL@,
        }),
{
    match configured {
        Some(u) => u,
        None => String::from_str(DEFAULT_API_URL),
    }
}

/// The structured-search endpoint under an API base URL.
pub fn structured_search_url(base_url: &str) -> (r: String)
    ensures
        r@ == base_url@ + "/dvd/structured-search"@,
{
    let mut r = String::from_str(base_url);
    r.append("/dvd/structured-search");
    r
}

/// Parameters of the filter-by-actor tool.
pub struct FilterByActorParams {
    /// Actor name (partial matches allowed).
    pub actor_name: String,
    /// Maximum number of movies to return.
    pub limit: usize,
}

/// Parameters of the filter-by-genre tool.
pub struct FilterByGenreParams {
    /// Genre (partial matches allowed).
    pub genre: String,
    /// Maximum number of movies to return.
    pub limit: usize,
}

/// Parameters of the filter-by-director tool.
pub struct FilterByDirectorParams {
    /// Director name (partial matches allowed).
    pub director_name: String,
    /// Maximum number of movies to return.
    pub limit: usize,
}

/// Parameters of the movie-details tool.
pub struct GetMovieDetailsParams {
    /// Movie title (partial matches allowed).
    pub title: String,
}

/// Parameters of the probe tool.
pub struct TestParams {
    pub query: String,
}

/// A tool that only answers with its own name; it checks that tool calls
/// are wired up.
pub struct TestTool;

/// The tools the chat model may call.
#[derive(Debug, Clone, Copy, PartialEq, Eq)]
pub enum ToolKind {
    FilterByActor,
    FilterByGenre,
    FilterByDirector,
    GetMovieDetails,
}

/// The name a tool is registered under.
pub open spec fn tool_name_spec(kind: ToolKind) -> Seq<char> {
    match kind {
        ToolKind::FilterByActor => "filter_by_actor"@,
        ToolKind::FilterByGenre => "filter_by_genre"@,
        ToolKind::FilterByDirector => "filter_by_director"@,
        ToolKind::GetMovieDetails => "get_movie_details"@,
    }
}

/// The description the model reads for a tool.
pub open spec fn tool_description_spec(kind: ToolKind) -> Seq<char> {
    match kind {
        ToolKind::FilterByActor => "Returns movies featuring the given actor as a JSON array."@,
        ToolKind::FilterByGenre => "Returns movies matching the given genre as a JSON array."@,
        ToolKind::FilterByDirector => "Returns movies by the given director as a JSON array."@,
        ToolKind::GetMovieDetails =>
            "Returns full details for movies whose title matches the input as a JSON array (up to 5)."@,
    }
}

impl ToolKind {
    /// The name the tool is registered under.
    pub fn name(self) -> (r: &'static str)
        ensures
            r@ == tool_name_spec(self),
    {
        match self {
            ToolKind::FilterByActor => "filter_by_actor",
            ToolKind::FilterByGenre => "filter_by_genre",
            ToolKind::FilterByDirector => "filter_by_director",
            ToolKind::GetMovieDetails => "get_movie_details",
        }
    }

    /// The description the model reads.
    pub fn description(self) -> (r: &'static str)
        ensures
            r@ == tool_description_spec(self),
    {
        match self {
            ToolKind::FilterByActor => "Returns movies featuring the given actor as a JSON array.",
            ToolKind::FilterByGenre => "Returns movies matching the given genre as a JSON array.",
            ToolKind::FilterByDirector => "Returns movies by the given director as a JSON array.",
            ToolKind::GetMovieDetails =>
                "Returns full details for movies whose title matches the input as a JSON array (up to 5).",
        }
    }
}

impl TestTool {
    /// The probe tool's name.
    pub fn name() -> (r: &'static str)
        ensures
            r@ == "test"@,
    {
        "test"
    }

    /// The probe tool's description.
    pub fn description() -> (r: &'static str)
        ensures
            r@ == "test"@,
    {
        "test"
    }
}

/// `q` holds exactly the criteria given, each a list of views.
pub open spec fn query_is(
    q: StructuredQuery,
    actors: Seq<Seq<char>>,
    directors: Seq<Seq<char>>,
    genres: Seq<Seq<char>>,
    title_keywords: Seq<Seq<char>>,
) -> bool {
    &&& views(q.actors@) == actors
    &&& views(q.directors@) == directors
    &&& views(q.genres@) == genres
    &&& views(q.title_keywords@) == title_keywords
    &&& q.description_keywords@.len() == 0
}

/// A query with one criterion in the list `which` selects: 0 actors,
/// 1 directors, 2 genres, 3 title keywords.
fn single_criterion_query(value: String, which: u8) -> (r: StructuredQuery)
    requires
        which < 4,
    ensures
        query_is(
            r,
            if which == 0 { seq![value@] } else { Seq::empty() },
            if which == 1 { seq![value@] } else { Seq::empty() },
            if which == 2 { seq![value@] } else { Seq::empty() },
            if which == 3 { seq![value@] } else { Seq::empty() },
        ),
{
    let mut q = StructuredQuery::empty();
    if which == 0 {
        q.actors.push(value);
    } else if which == 1 {
        q.directors.push(value);
    } else if which == 2 {
        q.genres.push(value);
    } else {
        q.title_keywords.push(value);
    }
    assert(views(q.actors@) =~= (if which == 0 { seq![value@] } else { Seq::<Seq<char>>::empty() }));
    assert(views(q.directors@) =~= (if which == 1 { seq![value@] } else { Seq::<Seq<char>>::empty() }));
    assert(views(q.genres@) =~= (if which == 2 { seq![value@] } else { Seq::<Seq<char>>::empty() }));
    assert(views(q.title_keywords@) =~= (if which == 3 { seq![value@] } else { Seq::<Seq<char>>::empty() }));
    q
}

impl FilterByActorParams {
    /// The search the tool sends: movies with this actor.
    pub fn to_query(&self) -> (r: StructuredQuery)
        ensures
            query_is(r, seq![self.actor_name@], Seq::empty(), Seq::empty(), Seq::empty()),
    {
        single_criterion_query(self.actor_name.clone(), 0)
    }

    /// How many movies of the answer go back to the model.
    pub fn result_limit(&self) -> (r: usize)
        ensures
            r == self.limit,
    {
        self.limit
    }
}

impl FilterByGenreParams {
    /// The search the tool sends: movies of this genre.
    pub fn to_query(&self) -> (r: StructuredQuery)
        ensures
            query_is(r, Seq::empty(), Seq::empty(), seq![self.genre@], Seq::empty()),
    {
        single_criterion_query(self.genre.clone(), 2)
    }

    /// How many movies of the answer go back to the model.
    pub fn result_limit(&self) -> (r: usize)
        ensures
            r == self.limit,
    {
        self.limit
    }
}

impl FilterByDirectorParams {
    /// The search the tool sends: movies by this director.
    pub fn to_query(&self) -> (r: StructuredQuery)
        ensures
            query_is(r, Seq::empty(), seq![self.director_name@], Seq::empty(), Seq::empty()),
    {
        single_criterion_query(self.director_name.clone(), 1)
    }

    /// How many movies of the answer go back to the model.
    pub fn result_limit(&self) -> (r: usize)
        ensures
            r == self.limit,
    {
        self.limit
    }
}

impl GetMovieDetailsParams {
    /// The search the tool sends: movies whose title matches.
    pub fn to_query(&self) -> (r: StructuredQuery)
        ensures
            query_is(r, Seq::empty(), Seq::empty(), Seq::empty(), seq![self.title@]),
    {
        single_criterion_query(self.title.clone(), 3)
    }

    /// How many movies of the answer go back to the model.
    pub fn result_limit(&self) -> (r: usize)
        ensures
            r == DETAILS_LIMIT,
    {
        DETAILS_LIMIT
    }
}

} // verus!
