//! Storage rules: the in-memory movie repository used for testing, the
//! search filters sent to the databases, the keys under which vectors are
//! stored, and how an import is linked up (people and genres to movies).

use vstd::prelude::*;
use crate::models::{FullMovie, MovieView, StructuredQuery, movie_view, movie_views};
use crate::stats::distinct;
use crate::text::{contains_seq, contains_str, spec_lowercase, to_lowercase};
use std::collections::HashMap;

verus! {

/// Base trait for all repositories, naming the type of their ids.
pub trait Repository {
    type Id;
}

/// Why a storage operation failed.
#[derive(Debug)]
pub enum DatabaseError {
    /// No movie has the requested id.
    NotFound,
    /// The query failed, for the reason given.
    QueryError(String),
}

impl DatabaseError {
    /// The error's text, as it is displayed.
    pub fn message(&self) -> (r: String)
        ensures
            r@ == (match self {
                DatabaseError::NotFound => "Database query error: Record not found"@,
                DatabaseError::QueryError(m) => "Query error: "@ + m@,
            }),
    {
        match self {
            DatabaseError::NotFound => String::from_str("Database query error: Record not found"),
            DatabaseError::QueryError(m) => {
                let mut r = String::from_str("Query error: ");
                r.append(m.as_str());
                r
            },
        }
    }
}

/// Stands for the embedding model; embeddings are produced elsewhere.
pub struct OllamaEmbeddingProvider;

// ---------------------------------------------------------------------------
// The in-memory repository
// ---------------------------------------------------------------------------

/// Every movie is stored under its own id.
pub open spec fn keyed_by_id(s: Map<i32, MovieView>) -> bool {
    forall|k: i32| s.dom().contains(k) ==> #[trigger] s[k].id == k
}

/// The movies after loading each of `ms` in turn under its id (a later
/// movie replaces an earlier one with the same id).
pub open spec fn load_all(s: Map<i32, MovieView>, ms: Seq<MovieView>) -> Map<i32, MovieView>
    decreases ms.len(),
{
    if ms.len() == 0 {
        s
    } else {
        load_all(s, ms.drop_last()).insert(ms.last().id, ms.last())
    }
}

/// The id the repository hands out after `ms` were loaded into it: one
/// past the largest id, and at least 1.
pub open spec fn next_id_after(start: i32, ms: Seq<MovieView>) -> i32
    decreases ms.len(),
{
    if ms.len() == 0 {
        start
    } else {
        let n = next_id_after(start, ms.drop_last());
        if ms.last().id + 1 > n {
            (ms.last().id + 1) as i32
        } else {
            n
        }
    }
}

/// `m` stored under `id`.
pub open spec fn with_id(m: MovieView, id: i32) -> MovieView {
    MovieView { id, ..m }
}

/// `m` with its location set.
pub open spec fn located(m: MovieView, location: Seq<char>) -> MovieView {
    MovieView { location: Some(location), ..m }
}

/// Storing a movie under its id keeps every movie under its own id, makes
/// it the movie found under that id and leaves every other id's movie as
/// it was.
pub proof fn lemma_store_under_id(s: Map<i32, MovieView>, m: MovieView)
    requires
        keyed_by_id(s),
    ensures
        keyed_by_id(s.insert(m.id, m)),
        s.insert(m.id, m).dom().contains(m.id) && s.insert(m.id, m)[m.id] == m,
        forall|id: i32| id != m.id ==> (#[trigger] s.insert(m.id, m).dom().contains(id) == s.dom().contains(id)
            && (s.dom().contains(id) ==> s.insert(m.id, m)[id] == s[id])),
{
}

/// A movie repository held in memory, for tests and local runs.
pub struct MockMovieRepository {
    movies: HashMap<i32, FullMovie>,
    next_id: i32,
}

impl View for MockMovieRepository {
    type V = Map<i32, MovieView>;

    /// The stored movies by id.
    closed spec fn view(&self) -> Map<i32, MovieView> {
        self.movies@.map_values(|m: FullMovie| movie_view(m))
    }
}

impl Repository for MockMovieRepository {
    type Id = i32;
}

/// The ids a map holds, each once, in the map's own order.
fn stored_ids(m: &HashMap<i32, FullMovie>) -> (r: Vec<i32>)
    ensures
        r@.to_set() == m@.dom(),
        r@.no_duplicates(),
        r@.len() == m@.dom().len(),
{
    broadcast use vstd::std_specs::hash::group_hash_axioms;

    let ghost ks: Seq<i32> = vstd::std_specs::iter::IteratorSpec::remaining(
        &vstd::std_specs::hash::spec_keys_iter(m),
    ).unref();
    let mut r: Vec<i32> = Vec::new();
    for k in it: m.keys()
        invariant
            it.seq().unref() == ks,
            r@ == ks.take(it.index() as int),
    {
        r.push(*k);
        assert(ks.take(it.index() + 1) =~= ks.take(it.index() as int).push(*k));
    }
    proof {
        assert(r@ =~= ks);
        vstd::std_specs::hash::axiom_spec_keys_iter(m);
    }
    r
}

impl MockMovieRepository {
    /// Every stored movie is stored under its own id.
    #[verifier::type_invariant]
    closed spec fn wf(&self) -> bool {
        forall|k: i32| self.movies@.dom().contains(k) ==> #[trigger] self.movies@[k].id == k
    }

    /// The id the next insert receives.
    pub closed spec fn next_id_view(&self) -> i32 {
        self.next_id
    }

    /// An empty repository whose first id is 1.
    pub fn new() -> (r: MockMovieRepository)
        ensures
            r@ == Map::<i32, MovieView>::empty(),
            r.next_id_view() == 1,
    {
        let r = MockMovieRepository { movies: HashMap::new(), next_id: 1 };
        assert(r@ =~= Map::<i32, MovieView>::empty());
        r
    }

    /// Every stored movie is stored under its own id.
    pub fn check_keyed_by_id(&self)
        ensures
            keyed_by_id(self@),
    {
        proof {
            use_type_invariant(self);
        }
    }

    /// Stores `m` under its id, replacing a movie with the same id.
    fn store(&mut self, m: FullMovie)
        ensures
            final(self)@ == old(self)@.insert(m.id, movie_view(m)),
            final(self).next_id_view() == old(self).next_id_view(),
    {
        broadcast use vstd::std_specs::hash::group_hash_axioms;

        proof {
            use_type_invariant(&*self);
        }
        let ghost before = self.movies@;
        let mut movies: HashMap<i32, FullMovie> = HashMap::new();
        std::mem::swap(&mut movies, &mut self.movies);
        let ghost mv = movie_view(m);
        let id = m.id;
        movies.insert(id, m);
        assert(movies@.map_values(|x: FullMovie| movie_view(x)) =~= before.map_values(|x: FullMovie| movie_view(x)).insert(id, mv));
        self.movies = movies;
    }

    /// A repository holding `movies` (later ones replace earlier ones with
    /// the same id) whose next id is one past the largest id, at least 1.
    pub fn with_movies(movies: Vec<FullMovie>) -> (r: MockMovieRepository)
        requires
            forall|i: int| 0 <= i < movies@.len() ==> (#[trigger] movies@[i]).id < i32::MAX,
        ensures
            r@ == load_all(Map::empty(), movie_views(movies@)),
            r.next_id_view() == next_id_after(1, movie_views(movies@)),
    {
        let ghost all = movie_views(movies@);
        let mut repo = MockMovieRepository::new();
        let mut i: usize = 0;
        while i < movies.len()
            invariant
                i <= movies.len(),
                all == movie_views(movies@),
                forall|k: int| 0 <= k < movies@.len() ==> (#[trigger] movies@[k]).id < i32::MAX,
                repo@ == load_all(Map::empty(), all.take(i as int)),
                repo.next_id_view() == next_id_after(1, all.take(i as int)),
            decreases movies.len() - i,
        {
            let m = movies[i].clone();
            assert(all.take(i + 1).drop_last() =~= all.take(i as int));
            assert(all.take(i + 1).last() == movie_view(m));
            let id = m.id;
            repo.store(m);
            proof {
                use_type_invariant(&repo);
            }
            if id + 1 > repo.next_id {
                repo.next_id = id + 1;
            }
            i += 1;
        }
        assert(all.take(movies.len() as int) =~= all);
        repo
    }

    /// Every stored movie, each once, in no particular order.
    pub fn get_all(&self) -> (r: Vec<FullMovie>)
        ensures
            r@.len() == self@.dom().len(),
            forall|i: int| 0 <= i < r@.len() ==> self@.dom().contains((#[trigger] r@[i]).id) && self@[r@[i].id]
                == movie_view(r@[i]),
            forall|i: int, j: int| 0 <= i < j < r@.len() ==> (#[trigger] r@[i]).id != (#[trigger] r@[j]).id,
            forall|k: i32| #[trigger] self@.dom().contains(k) ==> exists|i: int| 0 <= i < r@.len() && r@[i].id == k,
    {
        broadcast use vstd::std_specs::hash::group_hash_axioms;

        proof {
            use_type_invariant(self);
        }
        let ids = stored_ids(&self.movies);
        let mut r: Vec<FullMovie> = Vec::new();
        let mut i: usize = 0;
        while i < ids.len()
            invariant
                i <= ids.len(),
                ids@.to_set() == self.movies@.dom(),
                ids@.no_duplicates(),
                ids@.len() == self.movies@.dom().len(),
                self@.dom() == self.movies@.dom(),
                forall|k: i32| self.movies@.dom().contains(k) ==> #[trigger] self.movies@[k].id == k,
                r@.len() == i,
                forall|j: int| 0 <= j < i ==> (#[trigger] r@[j]).id == ids@[j] && self@[ids@[j]] == movie_view(r@[j]),
            decreases ids.len() - i,
        {
            assert(ids@.to_set().contains(ids@[i as int]));
            match self.movies.get(&ids[i]) {
                Some(m) => {
                    r.push(m.clone());
                },
                None => {
                    assert(false);
                },
            }
            i += 1;
        }
        assert forall|k: i32| #[trigger] self@.dom().contains(k) implies exists|j: int| 0 <= j < r@.len() && r@[j].id == k by {
            assert(ids@.to_set().contains(k));
            let j = choose|j: int| 0 <= j < ids@.len() && ids@[j] == k;
            assert(r@[j].id == k);
        }
        assert forall|a: int, b: int| 0 <= a < b < r@.len() implies (#[trigger] r@[a]).id != (#[trigger] r@[b]).id by {
            assert(ids@[a] != ids@[b]);
        }
        assert forall|j: int| 0 <= j < r@.len() implies self@.dom().contains((#[trigger] r@[j]).id) by {
            assert(ids@.to_set().contains(ids@[j]));
        }
        r
    }

    /// The movie with `id`, or `NotFound`.
    pub fn get_by_id(&self, id: i32) -> (r: Result<FullMovie, DatabaseError>)
        ensures
            self@.dom().contains(id) ==> (r matches Ok(x) && movie_view(x) == self@[id]),
            !self@.dom().contains(id) ==> (r matches Err(e) && e is NotFound),
    {
        broadcast use vstd::std_specs::hash::group_hash_axioms;

        match self.movies.get(&id) {
            Some(m) => Ok(m.clone()),
            None => Err(DatabaseError::NotFound),
        }
    }

    /// The movies with the given ids, in the order asked, skipping ids that
    /// are not stored.
    pub fn get_by_ids(&self, ids: &Vec<i32>) -> (r: Vec<FullMovie>)
        ensures
            movie_views(r@) == found_movies(self@, ids@),
    {
        let mut r: Vec<FullMovie> = Vec::new();
        let mut i: usize = 0;
        while i < ids.len()
            invariant
                i <= ids.len(),
                movie_views(r@) == found_movies(self@, ids@.take(i as int)),
            decreases ids.len() - i,
        {
            assert(ids@.take(i + 1).drop_last() =~= ids@.take(i as int));
            match self.get_by_id(ids[i]) {
                Ok(m) => {
                    let ghost before = movie_views(r@);
                    r.push(m);
                    assert(movie_views(r@) =~= before.push(movie_view(r@.last())));
                },
                Err(_) => {},
            }
            i += 1;
        }
        assert(ids@.take(ids.len() as int) =~= ids@);
        r
    }

    /// Stores a movie under the next id (ids wrap around at the end of the
    /// `i32` range) and returns it with that id.
    pub fn insert(&mut self, full_movie: FullMovie) -> (r: Result<FullMovie, DatabaseError>)
        ensures
            r matches Ok(m) && movie_view(m) == with_id(movie_view(full_movie), old(self).next_id_view())
                && final(self)@ == old(self)@.insert(m.id, movie_view(m)),
            final(self).next_id_view() == old(self).next_id_view().wrapping_add(1),
    {
        proof {
            use_type_invariant(&*self);
        }
        let id = self.next_id;
        self.next_id = id.wrapping_add(1);
        let mut m = full_movie;
        m.id = id;
        let copy = m.clone();
        self.store(copy);
        Ok(m)
    }

    /// Hands out ids for new movies in order; nothing is stored.
    pub fn insert_batch(&mut self, names: &Vec<String>) -> (r: Vec<(i32, String)>)
        ensures
            final(self)@ == old(self)@,
            r@.len() == names@.len(),
            forall|i: int| 0 <= i < names@.len() ==> (#[trigger] r@[i]).1@ == names@[i]@,
            forall|i: int| 0 <= i < names@.len() ==> (#[trigger] r@[i]).0 == wrapped_id(old(self).next_id_view(), i),
            final(self).next_id_view() == wrapped_id(old(self).next_id_view(), names@.len() as int),
    {
        let mut r: Vec<(i32, String)> = Vec::new();
        let mut i: usize = 0;
        let ghost start = self.next_id;
        while i < names.len()
            invariant
                i <= names.len(),
                self@ == old(self)@,
                start == old(self).next_id_view(),
                self.next_id == wrapped_id(start, i as int),
                r@.len() == i,
                forall|k: int| 0 <= k < i ==> (#[trigger] r@[k]).1@ == names@[k]@,
                forall|k: int| 0 <= k < i ==> (#[trigger] r@[k]).0 == wrapped_id(start, k),
            decreases names.len() - i,
        {
            proof {
                use_type_invariant(&*self);
            }
            let id = self.next_id;
            self.next_id = id.wrapping_add(1);
            r.push((id, names[i].clone()));
            i += 1;
        }
        r
    }

    /// Sets the location of the movie with `id`, or `NotFound` (and nothing
    /// changes).
    pub fn update_location(&mut self, movie_id: i32, new_location: String) -> (r: Result<(), DatabaseError>)
        ensures
            final(self).next_id_view() == old(self).next_id_view(),
            old(self)@.dom().contains(movie_id) ==> r is Ok && final(self)@ == old(self)@.insert(
                movie_id,
                located(old(self)@[movie_id], new_location@),
            ),
            !old(self)@.dom().contains(movie_id) ==> (r matches Err(e) && e is NotFound && final(self)@
                == old(self)@),
    {
        broadcast use vstd::std_specs::hash::group_hash_axioms;

        proof {
            use_type_invariant(&*self);
        }
        match self.movies.get(&movie_id) {
            Some(found) => {
                let mut m = found.clone();
                m.location = Some(new_location);
                assert(m.id == movie_id);
                self.store(m);
                Ok(())
            },
            None => Err(DatabaseError::NotFound),
        }
    }

    /// The stored movies that match every criterion of the query (see
    /// `matches_query`), each once, in no particular order.
    pub fn search_structured(&self, query: &StructuredQuery) -> (r: Vec<FullMovie>)
        ensures
            forall|i: int| 0 <= i < r@.len() ==> self@.dom().contains((#[trigger] r@[i]).id) && self@[r@[i].id]
                == movie_view(r@[i]) && matches_query(movie_view(r@[i]), *query),
            forall|i: int, j: int| 0 <= i < j < r@.len() ==> (#[trigger] r@[i]).id != (#[trigger] r@[j]).id,
            forall|k: i32| #[trigger] self@.dom().contains(k) && matches_query(self@[k], *query) ==> exists|i: int|
                0 <= i < r@.len() && r@[i].id == k,
    {
        let all = self.get_all();
        let mut r: Vec<FullMovie> = Vec::new();
        let ghost picked: Seq<int> = Seq::empty();
        let mut i: usize = 0;
        while i < all.len()
            invariant
                i <= all.len(),
                all@.len() == self@.dom().len(),
                forall|a: int| 0 <= a < all@.len() ==> self@.dom().contains((#[trigger] all@[a]).id) && self@[all@[a].id]
                    == movie_view(all@[a]),
                forall|a: int, b: int| 0 <= a < b < all@.len() ==> (#[trigger] all@[a]).id != (#[trigger] all@[b]).id,
                r@.len() == picked.len(),
                forall|j: int| 0 <= j < picked.len() ==> 0 <= #[trigger] picked[j] < i && movie_view(r@[j]) == movie_view(all@[picked[j]]),
                forall|a: int, b: int| 0 <= a < b < picked.len() ==> #[trigger] picked[a] < #[trigger] picked[b],
                forall|j: int| 0 <= j < r@.len() ==> matches_query(movie_view(#[trigger] r@[j]), *query),
                forall|a: int| 0 <= a < i && matches_query(movie_view(#[trigger] all@[a]), *query) ==> exists|j: int|
                    0 <= j < picked.len() && picked[j] == a,
            decreases all.len() - i,
        {
            if movie_matches(&all[i], query) {
                let ghost old_picked = picked;
                r.push(all[i].clone());
                proof {
                    picked = picked.push(i as int);
                    assert(picked[picked.len() - 1] == i);
                    assert forall|j: int| 0 <= j < old_picked.len() implies #[trigger] picked[j] == old_picked[j] by {}
                    assert forall|a: int| 0 <= a < i + 1 && matches_query(movie_view(#[trigger] all@[a]), *query) implies exists|j: int|
                        0 <= j < picked.len() && picked[j] == a by {
                        if a < i {
                            let j = choose|j: int| 0 <= j < old_picked.len() && old_picked[j] == a;
                            assert(picked[j] == a);
                        } else {
                            assert(picked[picked.len() - 1] == a);
                        }
                    }
                }
                assert(movie_view(r@.last()) == movie_view(all@[i as int]));
            }
            i += 1;
        }
        assert forall|a: int, b: int| 0 <= a < b < r@.len() implies (#[trigger] r@[a]).id != (#[trigger] r@[b]).id by {
            assert(picked[a] < picked[b]);
            assert(movie_view(r@[a]).id == r@[a].id);
            assert(movie_view(r@[b]).id == r@[b].id);
            assert(all@[picked[a]].id != all@[picked[b]].id);
        }
        assert forall|j: int| 0 <= j < r@.len() implies self@.dom().contains((#[trigger] r@[j]).id) && self@[r@[j].id]
            == movie_view(r@[j]) by {
            assert(movie_view(r@[j]).id == r@[j].id);
            assert(movie_view(all@[picked[j]]).id == all@[picked[j]].id);
        }
        assert forall|k: i32| #[trigger] self@.dom().contains(k) && matches_query(self@[k], *query) implies exists|j: int|
            0 <= j < r@.len() && r@[j].id == k by {
            let a = choose|a: int| 0 <= a < all@.len() && all@[a].id == k;
            assert(movie_view(all@[a]) == self@[k]);
            let j = choose|j: int| 0 <= j < picked.len() && picked[j] == a;
            assert(movie_view(r@[j]).id == r@[j].id);
            assert(movie_view(all@[a]).id == all@[a].id);
            assert(r@[j].id == k);
        }
        r
    }
}

/// The id handed out `k` inserts after `start` (wrapping).
pub open spec fn wrapped_id(start: i32, k: int) -> i32
    decreases k,
{
    if k <= 0 {
        start
    } else {
        wrapped_id(start, k - 1).wrapping_add(1)
    }
}

/// The stored movies with the given ids, in the order asked, skipping ids
/// that are not stored.
pub open spec fn found_movies(s: Map<i32, MovieView>, ids: Seq<i32>) -> Seq<MovieView>
    decreases ids.len(),
{
    if ids.len() == 0 {
        Seq::empty()
    } else {
        let rest = found_movies(s, ids.drop_last());
        if s.dom().contains(ids.last()) {
            rest.push(s[ids.last()])
        } else {
            rest
        }
    }
}

/// `needle`, lowercased, occurs in `hay`, lowercased.
pub open spec fn contains_ci(hay: Seq<char>, needle: Seq<char>) -> bool {
    contains_seq(spec_lowercase(hay), spec_lowercase(needle))
}

/// Whether a movie matches a structured query: its title contains every
/// title keyword, its director's name one of the directors, one of its
/// actors' names one of the actors, and one of its genres one of the genres
/// (each ignoring case; an empty list does not filter).
pub open spec fn matches_query(m: MovieView, q: StructuredQuery) -> bool {
    &&& forall|i: int| 0 <= i < q.title_keywords@.len() ==> contains_ci(m.name, #[trigger] q.title_keywords@[i]@)
    &&& q.directors@.len() > 0 ==> (m.director matches Some(d) && exists|i: int|
        0 <= i < q.directors@.len() && contains_ci(d.1, #[trigger] q.directors@[i]@))
    &&& q.actors@.len() > 0 ==> exists|i: int, j: int|
        0 <= i < q.actors@.len() && 0 <= j < m.actors.len() && contains_ci(
            #[trigger] m.actors[j].1,
            #[trigger] q.actors@[i]@,
        )
    &&& q.genres@.len() > 0 ==> exists|i: int, j: int|
        0 <= i < q.genres@.len() && 0 <= j < m.genres.len() && contains_ci(
            #[trigger] m.genres[j],
            #[trigger] q.genres@[i]@,
        )
}

/// Whether `needle` occurs in `hay`, ignoring case.
fn contains_ignoring_case(hay: &str, needle: &str) -> (r: bool)
    ensures
        r == contains_ci(hay@, needle@),
{
    let h = to_lowercase(hay);
    let n = to_lowercase(needle);
    contains_str(h.as_str(), n.as_str())
}

/// Whether a movie matches a structured query.
fn movie_matches(m: &FullMovie, q: &StructuredQuery) -> (r: bool)
    ensures
        r == matches_query(movie_view(*m), *q),
{
    let mut i: usize = 0;
    while i < q.title_keywords.len()
        invariant
            i <= q.title_keywords.len(),
            forall|k: int| 0 <= k < i ==> contains_ci(m.name@, #[trigger] q.title_keywords@[k]@),
        decreases q.title_keywords.len() - i,
    {
        if !contains_ignoring_case(m.name.as_str(), q.title_keywords[i].as_str()) {
            return false;
        }
        i += 1;
    }
    if q.directors.len() > 0 {
        match &m.director {
            None => return false,
            Some(d) => {
                let mut found = false;
                let mut k: usize = 0;
                while k < q.directors.len() && !found
                    invariant
                        k <= q.directors.len(),
                        found ==> exists|i: int| 0 <= i < q.directors@.len() && contains_ci(d.name@, #[trigger] q.directors@[i]@),
                        !found ==> forall|i: int| 0 <= i < k ==> !contains_ci(d.name@, #[trigger] q.directors@[i]@),
                    decreases q.directors.len() - k,
                {
                    if contains_ignoring_case(d.name.as_str(), q.directors[k].as_str()) {
                        found = true;
                    }
                    k += 1;
                }
                if !found {
                    return false;
                }
            },
        }
    }
    let ghost mv = movie_view(*m);
    if q.actors.len() > 0 {
        let mut found = false;
        let mut k: usize = 0;
        while k < q.actors.len() && !found
            invariant
                k <= q.actors.len(),
                mv == movie_view(*m),
                found ==> exists|i: int, j: int|
                    0 <= i < q.actors@.len() && 0 <= j < mv.actors.len() && contains_ci(
                        #[trigger] mv.actors[j].1,
                        #[trigger] q.actors@[i]@,
                    ),
                !found ==> forall|i: int, j: int|
                    0 <= i < k && 0 <= j < mv.actors.len() ==> !contains_ci(
                        #[trigger] mv.actors[j].1,
                        #[trigger] q.actors@[i]@,
                    ),
            decreases q.actors.len() - k,
        {
            let mut j: usize = 0;
            while j < m.actors.len() && !found
                invariant
                    j <= m.actors.len(),
                    k < q.actors.len(),
                    mv == movie_view(*m),
                    found ==> exists|i: int, jj: int|
                        0 <= i < q.actors@.len() && 0 <= jj < mv.actors.len() && contains_ci(
                            #[trigger] mv.actors[jj].1,
                            #[trigger] q.actors@[i]@,
                        ),
                    !found ==> forall|i: int, jj: int|
                        0 <= i < k && 0 <= jj < mv.actors.len() ==> !contains_ci(
                            #[trigger] mv.actors[jj].1,
                            #[trigger] q.actors@[i]@,
                        ),
                    !found ==> forall|jj: int| 0 <= jj < j ==> !contains_ci(#[trigger] mv.actors[jj].1, q.actors@[k as int]@),
                decreases m.actors.len() - j,
            {
                assert(mv.actors[j as int].1 == m.actors@[j as int].name@);
                if contains_ignoring_case(m.actors[j].name.as_str(), q.actors[k].as_str()) {
                    found = true;
                }
                j += 1;
            }
            k += 1;
        }
        if !found {
            return false;
        }
    }
    if q.genres.len() > 0 {
        let mut found = false;
        let mut k: usize = 0;
        while k < q.genres.len() && !found
            invariant
                k <= q.genres.len(),
                mv == movie_view(*m),
                found ==> exists|i: int, j: int|
                    0 <= i < q.genres@.len() && 0 <= j < mv.genres.len() && contains_ci(
                        #[trigger] mv.genres[j],
                        #[trigger] q.genres@[i]@,
                    ),
                !found ==> forall|i: int, j: int|
                    0 <= i < k && 0 <= j < mv.genres.len() ==> !contains_ci(
                        #[trigger] mv.genres[j],
                        #[trigger] q.genres@[i]@,
                    ),
            decreases q.genres.len() - k,
        {
            let mut j: usize = 0;
            while j < m.genres.len() && !found
                invariant
                    j <= m.genres.len(),
                    k < q.genres.len(),
                    mv == movie_view(*m),
                    found ==> exists|i: int, jj: int|
                        0 <= i < q.genres@.len() && 0 <= jj < mv.genres.len() && contains_ci(
                            #[trigger] mv.genres[jj],
                            #[trigger] q.genres@[i]@,
                        ),
                    !found ==> forall|i: int, jj: int|
                        0 <= i < k && 0 <= jj < mv.genres.len() ==> !contains_ci(
                            #[trigger] mv.genres[jj],
                            #[trigger] q.genres@[i]@,
                        ),
                    !found ==> forall|jj: int| 0 <= jj < j ==> !contains_ci(#[trigger] mv.genres[jj], q.genres@[k as int]@),
                decreases m.genres.len() - j,
            {
                assert(mv.genres[j as int] == m.genres@[j as int]@);
                if contains_ignoring_case(m.genres[j].as_str(), q.genres[k].as_str()) {
                    found = true;
                }
                j += 1;
            }
            k += 1;
        }
        if !found {
            return false;
        }
    }
    true
}


} // verus!
