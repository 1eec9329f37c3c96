//! The catalogue's data model: movies with their cast, director and genres,
//! and the structured search query extracted from natural language.

use vstd::prelude::*;
use crate::text::views;

verus! {

/// A performer credited on a movie.
#[derive(Debug, PartialEq, Eq)]
pub struct Actor {
    pub id: i32,
    pub name: String,
}

/// The director of a movie.
#[derive(Debug, PartialEq, Eq)]
pub struct Director {
    pub id: i32,
    pub name: String,
}

/// A movie with everything the catalogue knows about it.
#[derive(Debug, PartialEq, Eq)]
pub struct FullMovie {
    pub id: i32,
    pub name: String,
    pub description: Option<String>,
    pub actors: Vec<Actor>,
    pub director: Option<Director>,
    pub genres: Vec<String>,
    pub added_on: Option<String>,
    pub location: Option<String>,
    pub release_year: i32,
}

/// Search criteria extracted from a natural-language query.
#[derive(Debug, PartialEq, Eq)]
pub struct StructuredQuery {
    pub actors: Vec<String>,
    pub directors: Vec<String>,
    pub genres: Vec<String>,
    pub title_keywords: Vec<String>,
    pub description_keywords: Vec<String>,
}

impl Actor {
    /// An actor known only by name (not yet stored, so id 0).
    pub fn from_name(name: String) -> (r: Actor)
        ensures
            r.id == 0,
            r.name == name,
    {
        Actor { id: 0, name }
    }
}

impl Director {
    /// A director known only by name (not yet stored, so id 0).
    pub fn from_name(name: String) -> (r: Director)
        ensures
            r.id == 0,
            r.name == name,
    {
        Director { id: 0, name }
    }
}

impl Clone for Actor {
    fn clone(&self) -> (r: Self)
        ensures
            r == *self,
    {
        Actor { id: self.id, name: self.name.clone() }
    }
}

impl Clone for Director {
    fn clone(&self) -> (r: Self)
        ensures
            r == *self,
    {
        Director { id: self.id, name: self.name.clone() }
    }
}

/// A copy of a list of strings.
pub fn clone_strings(v: &Vec<String>) -> (r: Vec<String>)
    ensures
        r@ == v@,
{
    let mut r: Vec<String> = Vec::new();
    let mut i: usize = 0;
    while i < v.len()
        invariant
            i <= v.len(),
            r@ == v@.take(i as int),
        decreases v.len() - i,
    {
        r.push(v[i].clone());
        assert(r@ =~= v@.take(i + 1));
        i += 1;
    }
    assert(v@.take(v.len() as int) =~= v@);
    r
}

/// A copy of an optional string.
pub fn clone_opt_string(s: &Option<String>) -> (r: Option<String>)
    ensures
        r == *s,
{
    match s {
        Some(x) => Some(x.clone()),
        None => None,
    }
}

/// A copy of a cast list.
pub fn clone_actors(v: &Vec<Actor>) -> (r: Vec<Actor>)
    ensures
        r@ == v@,
{
    let mut r: Vec<Actor> = Vec::new();
    let mut i: usize = 0;
    while i < v.len()
        invariant
            i <= v.len(),
            r@ == v@.take(i as int),
        decreases v.len() - i,
    {
        r.push(v[i].clone());
        assert(r@ =~= v@.take(i + 1));
        i += 1;
    }
    assert(v@.take(v.len() as int) =~= v@);
    r
}

impl Clone for FullMovie {
    fn clone(&self) -> (r: Self)
        ensures
            r.id == self.id,
            r.name == self.name,
            r.description == self.description,
            r.actors@ == self.actors@,
            r.director == self.director,
            r.genres@ == self.genres@,
            r.added_on == self.added_on,
            r.location == self.location,
            r.release_year == self.release_year,
            movie_view(r) == movie_view(*self),
    {
        FullMovie {
            id: self.id,
            name: self.name.clone(),
            description: clone_opt_string(&self.description),
            actors: clone_actors(&self.actors),
            director: match &self.director {
                Some(d) => Some(d.clone()),
                None => None,
            },
            genres: clone_strings(&self.genres),
            added_on: clone_opt_string(&self.added_on),
            location: clone_opt_string(&self.location),
            release_year: self.release_year,
        }
    }
}

impl Clone for StructuredQuery {
    fn clone(&self) -> (r: Self)
        ensures
            r.actors@ == self.actors@,
            r.directors@ == self.directors@,
            r.genres@ == self.genres@,
            r.title_keywords@ == self.title_keywords@,
            r.description_keywords@ == self.description_keywords@,
    {
        StructuredQuery {
            actors: clone_strings(&self.actors),
            directors: clone_strings(&self.directors),
            genres: clone_strings(&self.genres),
            title_keywords: clone_strings(&self.title_keywords),
            description_keywords: clone_strings(&self.description_keywords),
        }
    }
}

impl StructuredQuery {
    /// A query with no criteria.
    pub fn empty() -> (r: StructuredQuery)
        ensures
            r.actors@.len() == 0,
            r.directors@.len() == 0,
            r.genres@.len() == 0,
            r.title_keywords@.len() == 0,
            r.description_keywords@.len() == 0,
    {
        StructuredQuery {
            actors: Vec::new(),
            directors: Vec::new(),
            genres: Vec::new(),
            title_keywords: Vec::new(),
            description_keywords: Vec::new(),
        }
    }
}

/// The names of a movie's cast, in billing order.
pub open spec fn actor_names(m: FullMovie) -> Seq<Seq<char>> {
    m.actors@.map_values(|a: Actor| a.name@)
}

/// The name of a movie's director, if it has one.
pub open spec fn director_name(m: FullMovie) -> Option<Seq<char>> {
    match m.director {
        Some(d) => Some(d.name@),
        None => None,
    }
}

/// A movie's genres.
pub open spec fn genre_names(m: FullMovie) -> Seq<Seq<char>> {
    views(m.genres@)
}

/// The view of an optional string.
pub open spec fn opt_view(s: Option<String>) -> Option<Seq<char>> {
    match s {
        Some(x) => Some(x@),
        None => None,
    }
}

/// A movie as plain values: what two copies of a movie agree on.
pub struct MovieView {
    pub id: i32,
    pub name: Seq<char>,
    pub description: Option<Seq<char>>,
    pub actors: Seq<(i32, Seq<char>)>,
    pub director: Option<(i32, Seq<char>)>,
    pub genres: Seq<Seq<char>>,
    pub added_on: Option<Seq<char>>,
    pub location: Option<Seq<char>>,
    pub release_year: i32,
}

/// The plain values of a movie.
pub open spec fn movie_view(m: FullMovie) -> MovieView {
    MovieView {
        id: m.id,
        name: m.name@,
        description: opt_view(m.description),
        actors: m.actors@.map_values(|a: Actor| (a.id, a.name@)),
        director: match m.director {
            Some(d) => Some((d.id, d.name@)),
            None => None,
        },
        genres: views(m.genres@),
        added_on: opt_view(m.added_on),
        location: opt_view(m.location),
        release_year: m.release_year,
    }
}

/// The plain values of a list of movies.
pub open spec fn movie_views(ms: Seq<FullMovie>) -> Seq<MovieView> {
    ms.map_values(|m: FullMovie| movie_view(m))
}

} // verus!
