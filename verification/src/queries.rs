//! What the database layer sends and how it reads answers: vector keys,
//! the database name in a connection URI, search patterns and filters,
//! text-search scoring, and how an import is linked up.

use vstd::prelude::*;
use crate::models::{Actor, Director, FullMovie, StructuredQuery, director_name};
use crate::search::{rank_by_score, sort_desc, take_at_most};
use crate::stats::{all_genres, cast_names, director_names, distinct};
use crate::store::contains_ci;
use crate::text::{
    find_char, first_index, int_decimal, last_index, push_int, rfind_char, spec_lowercase,
    substring, to_chars, to_lowercase, views, contains_str, split_char, split_on,
};

verus! {

// ---------------------------------------------------------------------------
// Keys and names
// ---------------------------------------------------------------------------

/// Redis key of a movie's vector: `movie:vec:<id>`.
pub fn vector_key(id: i32) -> (r: String)
    ensures
        r@ == "movie:vec:"@ + int_decimal(id as int),
{
    let mut r = String::from_str("movie:vec:");
    push_int(&mut r, id as i64);
    r
}

// ---------------------------------------------------------------------------
// Vector search replies
// ---------------------------------------------------------------------------

/// An entry of a vector-search reply, as far as ids are read from it.
pub enum KnnItem {
    /// A byte string (a key, such as `movie:vec:<id>`).
    BulkString(Vec<u8>),
    /// Anything else (a field list, a number).
    Other,
}

/// A vector-search reply: the total count, then key and fields in turn.
pub enum KnnReply {
    Array(Vec<KnnItem>),
    Other,
}

/// What `String::from_utf8_lossy` gives for some bytes.
pub uninterp spec fn spec_utf8_lossy(bytes: Seq<u8>) -> Seq<char>;

/// Calls `String::from_utf8_lossy`; the text is named by
/// `spec_utf8_lossy`, and for valid UTF-8 it is the decoded text (its
/// documentation: only invalid sequences are replaced).
#[verifier::external_body]
fn utf8_lossy(bytes: &Vec<u8>) -> (r: String)
    ensures
        r@ == spec_utf8_lossy(bytes@),
        vstd::utf8::valid_utf8(bytes@) ==> r@ == vstd::utf8::decode_utf8(bytes@),
{
    String::from_utf8_lossy(bytes.as_slice()).into_owned()
}

/// The id at the end of a key: the text after its last `:` read as an
/// `i32`.
pub open spec fn key_id(key: Seq<char>) -> Option<i32> {
    crate::reorder::parse_i32(split_on(key, ':').last())
}

/// The id an entry names, when it is a byte string ending in an id.
pub open spec fn item_id(item: KnnItem) -> Option<i32> {
    match item {
        KnnItem::BulkString(b) => key_id(spec_utf8_lossy(b@)),
        KnnItem::Other => None,
    }
}

/// The ids named by the keys among the first `n` entries: the entries at
/// odd positions (the first entry is the count, each key is followed by its
/// fields), skipping those that name no id.
pub open spec fn knn_ids(items: Seq<KnnItem>, n: int) -> Seq<i32>
    decreases n,
{
    if n <= 0 {
        Seq::empty()
    } else {
        let prev = knn_ids(items, n - 1);
        if (n - 1) % 2 == 1 {
            match item_id(items[n - 1]) {
                Some(id) => prev.push(id),
                None => prev,
            }
        } else {
            prev
        }
    }
}

/// The id a key ends with.
fn key_id_exec(key: &str) -> (r: Option<i32>)
    ensures
        r == key_id(key@),
{
    let parts = split_char(key, ':');
    proof {
        crate::text::lemma_split_on_nonempty(key@, ':');
    }
    crate::reorder::parse_i32_exec(parts[parts.len() - 1].as_str())
}

/// The movie ids of a vector-search reply, in the order found; a reply that
/// is not an array gives none.
pub fn parse_knn_reply(raw: &KnnReply) -> (r: Vec<i32>)
    ensures
        r@ == (match raw {
            KnnReply::Array(items) => knn_ids(items@, items@.len() as int),
            KnnReply::Other => Seq::empty(),
        }),
{
    let items = match raw {
        KnnReply::Array(v) => v,
        KnnReply::Other => {
            return Vec::new();
        },
    };
    let mut r: Vec<i32> = Vec::new();
    let mut i: usize = 0;
    while i < items.len()
        invariant
            i <= items@.len(),
            r@ == knn_ids(items@, i as int),
        decreases items.len() - i,
    {
        if i % 2 == 1 {
            match &items[i] {
                KnnItem::BulkString(b) => {
                    let key = utf8_lossy(b);
                    match key_id_exec(key.as_str()) {
                        Some(id) => r.push(id),
                        None => {},
                    }
                },
                KnnItem::Other => {},
            }
        }
        i += 1;
    }
    r
}

/// The database name in a connection URI: what follows the last `/`, up to
/// a `?`.
pub open spec fn db_name_of(uri: Seq<char>) -> Seq<char> {
    let seg = match last_index(uri, '/') {
        Some(k) => uri.skip(k + 1),
        None => uri,
    };
    match first_index(seg, '?') {
        Some(q) => seg.take(q),
        None => seg,
    }
}

/// Extracts the database name from a MongoDB URI
/// (`mongodb://host/dbname?options` gives `dbname`).
pub fn extract_db_name(uri: &str) -> (r: Option<String>)
    ensures
        r matches Some(n) && n@ == db_name_of(uri@),
{
    let v = to_chars(uri);
    assert(v@.subrange(0, v.len() as int) =~= v@);
    let start = match rfind_char(&v, 0, v.len(), '/') {
        Some(k) => k + 1,
        None => 0,
    };
    let end = match find_char(&v, start, v.len(), '?') {
        Some(q) => q,
        None => v.len(),
    };
    let r = substring(&v, start, end);
    proof {
        let seg = v@.subrange(start as int, v.len() as int);
        assert(seg =~= (match last_index(uri@, '/') {
            Some(k) => uri@.skip(k + 1),
            None => uri@,
        }));
        assert(r@ =~= db_name_of(uri@));
    }
    Some(r)
}

/// `%<lowercased name>%` patterns for case-insensitive matching.
pub fn to_ilike_patterns(names: &Vec<String>) -> (r: Vec<String>)
    ensures
        r@.len() == names@.len(),
        forall|i: int| 0 <= i < names@.len() ==> (#[trigger] r@[i])@ == "%"@ + spec_lowercase(names@[i]@) + "%"@,
{
    let mut r: Vec<String> = Vec::new();
    let mut i: usize = 0;
    while i < names.len()
        invariant
            i <= names.len(),
            r@.len() == i,
            forall|k: int| 0 <= k < i ==> (#[trigger] r@[k])@ == "%"@ + spec_lowercase(names@[k]@) + "%"@,
        decreases names.len() - i,
    {
        let mut p = String::from_str("%");
        p.append(to_lowercase(names[i].as_str()).as_str());
        p.append("%");
        r.push(p);
        i += 1;
    }
    r
}

// ---------------------------------------------------------------------------
// Document-store shapes
// ---------------------------------------------------------------------------

/// An actor embedded in a stored movie document.
#[derive(Debug, Clone)]
pub struct MongoEmbeddedActor {
    pub id: i32,
    pub name: String,
}

/// A director embedded in a stored movie document.
#[derive(Debug, Clone)]
pub struct MongoEmbeddedDirector {
    pub id: i32,
    pub name: String,
}

impl MongoEmbeddedActor {
    /// The embedded form of an actor.
    pub fn from_actor(a: &Actor) -> (r: MongoEmbeddedActor)
        ensures
            r.id == a.id,
            r.name == a.name,
    {
        MongoEmbeddedActor { id: a.id, name: a.name.clone() }
    }

    /// The actor an embedded entry stands for.
    pub fn to_actor(self) -> (r: Actor)
        ensures
            r.id == self.id,
            r.name == self.name,
    {
        Actor { id: self.id, name: self.name }
    }
}

impl MongoEmbeddedDirector {
    /// The embedded form of a director.
    pub fn from_director(d: &Director) -> (r: MongoEmbeddedDirector)
        ensures
            r.id == d.id,
            r.name == d.name,
    {
        MongoEmbeddedDirector { id: d.id, name: d.name.clone() }
    }

    /// The director an embedded entry stands for.
    pub fn to_director(self) -> (r: Director)
        ensures
            r.id == self.id,
            r.name == self.name,
    {
        Director { id: self.id, name: self.name }
    }
}

/// A case-insensitive regular-expression test on one document field.
pub struct RegexCondition {
    pub field: String,
    pub pattern: String,
}

/// A group of conditions that must all hold, or of which one must hold.
pub enum FilterClause {
    All(Vec<RegexCondition>),
    Any(Vec<RegexCondition>),
}

/// `c` tests `field` against `pattern`.
pub open spec fn is_condition(c: RegexCondition, field: Seq<char>, pattern: Seq<char>) -> bool {
    c.field@ == field && c.pattern@ == pattern
}

/// `conds` tests `field` against each value in order.
pub open spec fn tests_each(conds: Seq<RegexCondition>, field: Seq<char>, values: Seq<String>) -> bool {
    &&& conds.len() == values.len()
    &&& forall|i: int| 0 <= i < values.len() ==> is_condition(#[trigger] conds[i], field, values[i]@)
}

/// The groups a structured query turns into, each `(all, field, values)`,
/// for the lists that are not empty, in the order title, directors,
/// actors, genres, description.
pub open spec fn filter_groups(q: StructuredQuery) -> Seq<(bool, Seq<char>, Seq<String>)> {
    let g0: Seq<(bool, Seq<char>, Seq<String>)> = Seq::empty();
    let g1 = if q.title_keywords@.len() > 0 { g0.push((true, "name"@, q.title_keywords@)) } else { g0 };
    let g2 = if q.directors@.len() > 0 { g1.push((false, "director.name"@, q.directors@)) } else { g1 };
    let g3 = if q.actors@.len() > 0 { g2.push((false, "actors.name"@, q.actors@)) } else { g2 };
    let g4 = if q.genres@.len() > 0 { g3.push((false, "genres"@, q.genres@)) } else { g3 };
    if q.description_keywords@.len() > 0 {
        g4.push((false, "description"@, q.description_keywords@))
    } else {
        g4
    }
}

/// `c` is the clause of group `g`.
pub open spec fn is_clause(c: FilterClause, g: (bool, Seq<char>, Seq<String>)) -> bool {
    match c {
        FilterClause::All(conds) => g.0 && tests_each(conds@, g.1, g.2),
        FilterClause::Any(conds) => !g.0 && tests_each(conds@, g.1, g.2),
    }
}

/// One condition per value on `field`.
fn conditions_on(field: &str, values: &Vec<String>) -> (r: Vec<RegexCondition>)
    ensures
        tests_each(r@, field@, values@),
{
    let mut r: Vec<RegexCondition> = Vec::new();
    let mut i: usize = 0;
    while i < values.len()
        invariant
            i <= values.len(),
            r@.len() == i,
            forall|k: int| 0 <= k < i ==> is_condition(#[trigger] r@[k], field@, values@[k]@),
        decreases values.len() - i,
    {
        r.push(RegexCondition { field: String::from_str(field), pattern: values[i].clone() });
        i += 1;
    }
    r
}

/// The document filter of a structured query: title keywords must all
/// match the name; a director, an actor, a genre and a description keyword
/// must each match when given; matching ignores case. No clauses means no
/// filter.
pub fn structured_query_to_filter(q: &StructuredQuery) -> (r: Vec<FilterClause>)
    ensures
        r@.len() == filter_groups(*q).len(),
        forall|i: int| 0 <= i < r@.len() ==> is_clause(#[trigger] r@[i], filter_groups(*q)[i]),
{
    let ghost g0: Seq<(bool, Seq<char>, Seq<String>)> = Seq::empty();
    let mut r: Vec<FilterClause> = Vec::new();
    let ghost mut groups = g0;
    if q.title_keywords.len() > 0 {
        r.push(FilterClause::All(conditions_on("name", &q.title_keywords)));
        proof { groups = groups.push((true, "name"@, q.title_keywords@)); }
    }
    if q.directors.len() > 0 {
        r.push(FilterClause::Any(conditions_on("director.name", &q.directors)));
        proof { groups = groups.push((false, "director.name"@, q.directors@)); }
    }
    if q.actors.len() > 0 {
        r.push(FilterClause::Any(conditions_on("actors.name", &q.actors)));
        proof { groups = groups.push((false, "actors.name"@, q.actors@)); }
    }
    if q.genres.len() > 0 {
        r.push(FilterClause::Any(conditions_on("genres", &q.genres)));
        proof { groups = groups.push((false, "genres"@, q.genres@)); }
    }
    if q.description_keywords.len() > 0 {
        r.push(FilterClause::Any(conditions_on("description", &q.description_keywords)));
        proof { groups = groups.push((false, "description"@, q.description_keywords@)); }
    }
    assert(groups == filter_groups(*q));
    r
}

/// `%<lowercased value>%` of each value.
pub open spec fn ilike_patterns(values: Seq<String>) -> Seq<Seq<char>> {
    values.map_values(|v: String| "%"@ + spec_lowercase(v@) + "%"@)
}

/// `conds` tests `field` against each pattern in order.
pub open spec fn tests_patterns(conds: Seq<RegexCondition>, field: Seq<char>, patterns: Seq<Seq<char>>) -> bool {
    &&& conds.len() == patterns.len()
    &&& forall|i: int| 0 <= i < patterns.len() ==> is_condition(#[trigger] conds[i], field, patterns[i])
}

/// The case-insensitive `LIKE` groups of the relational structured search,
/// each `(all, column, patterns)`, for the lists that are not empty: the
/// director and title patterns must all match, one description pattern must
/// match, and the movie must have an actor, and a genre, matching one of
/// their patterns.
pub open spec fn sql_filter_groups(q: StructuredQuery) -> Seq<(bool, Seq<char>, Seq<Seq<char>>)> {
    let g0: Seq<(bool, Seq<char>, Seq<Seq<char>>)> = Seq::empty();
    let g1 = if q.directors@.len() > 0 { g0.push((true, "director.name"@, ilike_patterns(q.directors@))) } else { g0 };
    let g2 = if q.title_keywords@.len() > 0 { g1.push((true, "movie.name"@, ilike_patterns(q.title_keywords@))) } else { g1 };
    let g3 = if q.description_keywords@.len() > 0 {
        g2.push((false, "movie.description"@, ilike_patterns(q.description_keywords@)))
    } else {
        g2
    };
    let g4 = if q.actors@.len() > 0 { g3.push((false, "actor.name"@, ilike_patterns(q.actors@))) } else { g3 };
    if q.genres@.len() > 0 {
        g4.push((false, "movie_genre.genre"@, ilike_patterns(q.genres@)))
    } else {
        g4
    }
}

/// `c` is the clause of the `LIKE` group `g`.
pub open spec fn is_sql_clause(c: FilterClause, g: (bool, Seq<char>, Seq<Seq<char>>)) -> bool {
    match c {
        FilterClause::All(conds) => g.0 && tests_patterns(conds@, g.1, g.2),
        FilterClause::Any(conds) => !g.0 && tests_patterns(conds@, g.1, g.2),
    }
}

/// One `LIKE` condition per value on `column`, with the value's pattern.
fn like_conditions_on(column: &str, values: &Vec<String>) -> (r: Vec<RegexCondition>)
    ensures
        tests_patterns(r@, column@, ilike_patterns(values@)),
{
    let patterns = to_ilike_patterns(values);
    let mut r: Vec<RegexCondition> = Vec::new();
    let mut i: usize = 0;
    while i < patterns.len()
        invariant
            i <= patterns.len(),
            patterns@.len() == values@.len(),
            forall|k: int| 0 <= k < values@.len() ==> (#[trigger] patterns@[k])@ == "%"@ + spec_lowercase(values@[k]@) + "%"@,
            r@.len() == i,
            forall|k: int| 0 <= k < i ==> is_condition(#[trigger] r@[k], column@, ilike_patterns(values@)[k]),
        decreases patterns.len() - i,
    {
        r.push(RegexCondition { field: String::from_str(column), pattern: patterns[i].clone() });
        i += 1;
    }
    r
}

/// The conditions of the relational structured search (see
/// `sql_filter_groups`); no clauses means every movie.
pub fn structured_search_filters(q: &StructuredQuery) -> (r: Vec<FilterClause>)
    ensures
        r@.len() == sql_filter_groups(*q).len(),
        forall|i: int| 0 <= i < r@.len() ==> is_sql_clause(#[trigger] r@[i], sql_filter_groups(*q)[i]),
{
    let ghost g0: Seq<(bool, Seq<char>, Seq<Seq<char>>)> = Seq::empty();
    let mut r: Vec<FilterClause> = Vec::new();
    let ghost mut groups = g0;
    if q.directors.len() > 0 {
        r.push(FilterClause::All(like_conditions_on("director.name", &q.directors)));
        proof { groups = groups.push((true, "director.name"@, ilike_patterns(q.directors@))); }
    }
    if q.title_keywords.len() > 0 {
        r.push(FilterClause::All(like_conditions_on("movie.name", &q.title_keywords)));
        proof { groups = groups.push((true, "movie.name"@, ilike_patterns(q.title_keywords@))); }
    }
    if q.description_keywords.len() > 0 {
        r.push(FilterClause::Any(like_conditions_on("movie.description", &q.description_keywords)));
        proof { groups = groups.push((false, "movie.description"@, ilike_patterns(q.description_keywords@))); }
    }
    if q.actors.len() > 0 {
        r.push(FilterClause::Any(like_conditions_on("actor.name", &q.actors)));
        proof { groups = groups.push((false, "actor.name"@, ilike_patterns(q.actors@))); }
    }
    if q.genres.len() > 0 {
        r.push(FilterClause::Any(like_conditions_on("movie_genre.genre", &q.genres)));
        proof { groups = groups.push((false, "movie_genre.genre"@, ilike_patterns(q.genres@))); }
    }
    assert(groups == sql_filter_groups(*q));
    r
}

// ---------------------------------------------------------------------------
// Text search scoring
// ---------------------------------------------------------------------------

/// Points a movie earns for a text query: 100 when its title contains the
/// query, 20 when a cast member's name does, 25 when its director's name
/// does, 15 when a genre does (all ignoring case).
pub open spec fn text_score(m: FullMovie, query: Seq<char>) -> nat {
    (if contains_ci(m.name@, query) { 100nat } else { 0nat })
        + (if exists|i: int| 0 <= i < m.actors@.len() && contains_ci(#[trigger] m.actors@[i].name@, query) {
        20nat
    } else {
        0nat
    }) + (if director_name(m) matches Some(d) && contains_ci(d, query) {
        25nat
    } else {
        0nat
    }) + (if exists|i: int| 0 <= i < m.genres@.len() && contains_ci(#[trigger] m.genres@[i]@, query) {
        15nat
    } else {
        0nat
    })
}

/// Ids and scores of the candidates that scored, in candidate order.
pub open spec fn scored_candidates(movies: Seq<FullMovie>, query: Seq<char>) -> Seq<(i32, u128)>
    decreases movies.len(),
{
    if movies.len() == 0 {
        Seq::empty()
    } else {
        let rest = scored_candidates(movies.drop_last(), query);
        if text_score(movies.last(), query) > 0 {
            rest.push((movies.last().id, text_score(movies.last(), query) as u128))
        } else {
            rest
        }
    }
}

/// The text-search score of a movie.
pub fn text_match_score(m: &FullMovie, query: &str) -> (r: u32)
    ensures
        r == text_score(*m, query@),
{
    let q = to_lowercase(query);
    let mut score: u32 = 0;
    if contains_str(to_lowercase(m.name.as_str()).as_str(), q.as_str()) {
        score = score + 100;
    }
    let mut i: usize = 0;
    let mut hit = false;
    while i < m.actors.len() && !hit
        invariant
            i <= m.actors.len(),
            q@ == spec_lowercase(query@),
            hit ==> exists|k: int| 0 <= k < m.actors@.len() && contains_ci(#[trigger] m.actors@[k].name@, query@),
            !hit ==> forall|k: int| 0 <= k < i ==> !contains_ci(#[trigger] m.actors@[k].name@, query@),
        decreases m.actors.len() - i,
    {
        if contains_str(to_lowercase(m.actors[i].name.as_str()).as_str(), q.as_str()) {
            hit = true;
        }
        i += 1;
    }
    if hit {
        score = score + 20;
    }
    match &m.director {
        Some(d) => {
            if contains_str(to_lowercase(d.name.as_str()).as_str(), q.as_str()) {
                score = score + 25;
            }
        },
        None => {},
    }
    let mut j: usize = 0;
    let mut ghit = false;
    while j < m.genres.len() && !ghit
        invariant
            j <= m.genres.len(),
            q@ == spec_lowercase(query@),
            ghit ==> exists|k: int| 0 <= k < m.genres@.len() && contains_ci(#[trigger] m.genres@[k]@, query@),
            !ghit ==> forall|k: int| 0 <= k < j ==> !contains_ci(#[trigger] m.genres@[k]@, query@),
        decreases m.genres.len() - j,
    {
        if contains_str(to_lowercase(m.genres[j].as_str()).as_str(), q.as_str()) {
            ghit = true;
        }
        j += 1;
    }
    if ghit {
        score = score + 15;
    }
    score
}

/// Ranks the movies a text search retrieved: those that scored, by
/// descending score (ties keep retrieval order), at most `limit` of them.
/// An empty query finds nothing.
pub fn rank_text_matches(candidates: &Vec<FullMovie>, query: &str, limit: usize) -> (r: Vec<(i32, u128)>)
    ensures
        r@ == (if query@.len() == 0 {
            Seq::empty()
        } else {
            take_at_most(sort_desc(scored_candidates(candidates@, query@)), limit as int)
        }),
{
    if to_chars(query).len() == 0 {
        return Vec::new();
    }
    let mut scored: Vec<(i32, u128)> = Vec::new();
    let mut i: usize = 0;
    while i < candidates.len()
        invariant
            i <= candidates.len(),
            scored@ == scored_candidates(candidates@.take(i as int), query@),
        decreases candidates.len() - i,
    {
        let s = text_match_score(&candidates[i], query);
        assert(candidates@.take(i + 1).drop_last() =~= candidates@.take(i as int));
        assert(candidates@.take(i + 1).last() == candidates@[i as int]);
        if s > 0 {
            scored.push((candidates[i].id, s as u128));
        }
        i += 1;
    }
    assert(candidates@.take(candidates.len() as int) =~= candidates@);
    rank_by_score(scored, limit)
}

// ---------------------------------------------------------------------------
// Linking an import
// ---------------------------------------------------------------------------

/// The id registered under `name`: the first pair with that name.
pub open spec fn lookup_id(pairs: Seq<(i32, String)>, name: Seq<char>) -> Option<i32>
    decreases pairs.len(),
{
    if pairs.len() == 0 {
        None
    } else if pairs[0].1@ == name {
        Some(pairs[0].0)
    } else {
        lookup_id(pairs.drop_first(), name)
    }
}

/// The id registered under a name.
pub fn id_for_name(pairs: &Vec<(i32, String)>, name: &String) -> (r: Option<i32>)
    ensures
        r == lookup_id(pairs@, name@),
{
    let mut i: usize = 0;
    assert(pairs@.skip(0) =~= pairs@);
    while i < pairs.len()
        invariant
            i <= pairs.len(),
            lookup_id(pairs@, name@) == lookup_id(pairs@.skip(i as int), name@),
        decreases pairs.len() - i,
    {
        assert(pairs@.skip(i as int).drop_first() =~= pairs@.skip(i + 1));
        if pairs[i].1 == *name {
            return Some(pairs[i].0);
        }
        i += 1;
    }
    None
}

/// Each distinct cast member's name of an import, in order of first
/// appearance.
pub fn unique_actor_names(movies: &Vec<FullMovie>) -> (r: Vec<String>)
    ensures
        views(r@) == distinct(cast_names(movies@)),
{
    crate::stats::distinct_cast(movies)
}

/// Each distinct director's name of an import, in order of first
/// appearance.
pub fn unique_director_names(movies: &Vec<FullMovie>) -> (r: Vec<String>)
    ensures
        views(r@) == distinct(director_names(movies@)),
{
    crate::stats::distinct_directors(movies)
}

/// Each distinct genre of an import, in order of first appearance.
pub fn unique_genres(movies: &Vec<FullMovie>) -> (r: Vec<String>)
    ensures
        views(r@) == distinct(all_genres(movies@)),
{
    crate::stats::distinct_genres(movies)
}

/// A cast entry to store: movie, actor and billing position (from 1).
pub struct MovieActorLink {
    pub movie_id: i32,
    pub actor_id: i32,
    pub actor_order: i32,
}

/// A genre to store for a movie.
pub struct MovieGenreLink {
    pub movie_id: i32,
    pub genre: String,
}

/// The cast entries of one movie stored as `movie_id`: each cast member
/// whose name has an id, with its billing position.
pub open spec fn cast_links(m: FullMovie, movie_id: i32, actor_ids: Seq<(i32, String)>, n: int) -> Seq<(i32, i32, i32)>
    decreases n,
{
    if n <= 0 {
        Seq::empty()
    } else {
        let rest = cast_links(m, movie_id, actor_ids, n - 1);
        match lookup_id(actor_ids, m.actors@[n - 1].name@) {
            Some(a) => rest.push((movie_id, a, n as i32)),
            None => rest,
        }
    }
}

/// The cast entries of an import: for each movie whose name has an id,
/// the entries of its cast, in order.
pub open spec fn all_cast_links(movies: Seq<FullMovie>, movie_ids: Seq<(i32, String)>, actor_ids: Seq<(i32, String)>) -> Seq<(i32, i32, i32)>
    decreases movies.len(),
{
    if movies.len() == 0 {
        Seq::empty()
    } else {
        let rest = all_cast_links(movies.drop_last(), movie_ids, actor_ids);
        let m = movies.last();
        match lookup_id(movie_ids, m.name@) {
            Some(id) => rest + cast_links(m, id, actor_ids, m.actors@.len() as int),
            None => rest,
        }
    }
}

/// The plain values of cast entries.
pub open spec fn link_views(links: Seq<MovieActorLink>) -> Seq<(i32, i32, i32)> {
    links.map_values(|l: MovieActorLink| (l.movie_id, l.actor_id, l.actor_order))
}

/// The cast entries to store for an import, given the ids the movies and
/// the actors were stored under.
pub fn movie_actor_links(
    movies: &Vec<FullMovie>,
    movie_ids: &Vec<(i32, String)>,
    actor_ids: &Vec<(i32, String)>,
) -> (r: Vec<MovieActorLink>)
    requires
        forall|i: int| 0 <= i < movies@.len() ==> (#[trigger] movies@[i]).actors@.len() < i32::MAX,
    ensures
        link_views(r@) == all_cast_links(movies@, movie_ids@, actor_ids@),
{
    let mut r: Vec<MovieActorLink> = Vec::new();
    let mut i: usize = 0;
    while i < movies.len()
        invariant
            i <= movies.len(),
            forall|k: int| 0 <= k < movies@.len() ==> (#[trigger] movies@[k]).actors@.len() < i32::MAX,
            link_views(r@) == all_cast_links(movies@.take(i as int), movie_ids@, actor_ids@),
        decreases movies.len() - i,
    {
        assert(movies@.take(i + 1).drop_last() =~= movies@.take(i as int));
        assert(movies@.take(i + 1).last() == movies@[i as int]);
        let ghost base = link_views(r@);
        match id_for_name(movie_ids, &movies[i].name) {
            Some(mid) => {
                let mut k: usize = 0;
                while k < movies[i].actors.len()
                    invariant
                        i < movies.len(),
                        k <= movies@[i as int].actors@.len(),
                        movies@[i as int].actors@.len() < i32::MAX,
                        link_views(r@) == base + cast_links(movies@[i as int], mid, actor_ids@, k as int),
                    decreases movies@[i as int].actors@.len() - k,
                {
                    let ghost before = link_views(r@);
                    match id_for_name(actor_ids, &movies[i].actors[k].name) {
                        Some(aid) => {
                            r.push(MovieActorLink { movie_id: mid, actor_id: aid, actor_order: (k + 1) as i32 });
                            assert(link_views(r@) =~= before.push((mid, aid, (k + 1) as i32)));
                        },
                        None => {},
                    }
                    k += 1;
                }
            },
            None => {},
        }
        i += 1;
    }
    assert(movies@.take(movies.len() as int) =~= movies@);
    r
}

/// The genre entries of an import: for each movie whose name has an id,
/// one per genre, in order.
pub open spec fn all_genre_links(movies: Seq<FullMovie>, movie_ids: Seq<(i32, String)>) -> Seq<(i32, Seq<char>)>
    decreases movies.len(),
{
    if movies.len() == 0 {
        Seq::empty()
    } else {
        let rest = all_genre_links(movies.drop_last(), movie_ids);
        let m = movies.last();
        match lookup_id(movie_ids, m.name@) {
            Some(id) => rest + views(m.genres@).map_values(|g: Seq<char>| (id, g)),
            None => rest,
        }
    }
}

/// The genre entries to store for an import.
pub fn movie_genre_links(movies: &Vec<FullMovie>, movie_ids: &Vec<(i32, String)>) -> (r: Vec<MovieGenreLink>)
    ensures
        r@.map_values(|l: MovieGenreLink| (l.movie_id, l.genre@)) == all_genre_links(movies@, movie_ids@),
{
    let mut r: Vec<MovieGenreLink> = Vec::new();
    let mut i: usize = 0;
    while i < movies.len()
        invariant
            i <= movies.len(),
            r@.map_values(|l: MovieGenreLink| (l.movie_id, l.genre@)) == all_genre_links(movies@.take(i as int), movie_ids@),
        decreases movies.len() - i,
    {
        assert(movies@.take(i + 1).drop_last() =~= movies@.take(i as int));
        assert(movies@.take(i + 1).last() == movies@[i as int]);
        let ghost base = r@.map_values(|l: MovieGenreLink| (l.movie_id, l.genre@));
        match id_for_name(movie_ids, &movies[i].name) {
            Some(mid) => {
                let mut k: usize = 0;
                while k < movies[i].genres.len()
                    invariant
                        i < movies.len(),
                        k <= movies@[i as int].genres@.len(),
                        r@.map_values(|l: MovieGenreLink| (l.movie_id, l.genre@)) == base + views(
                            movies@[i as int].genres@,
                        ).map_values(|g: Seq<char>| (mid, g)).take(k as int),
                    decreases movies@[i as int].genres@.len() - k,
                {
                    let ghost before = r@.map_values(|l: MovieGenreLink| (l.movie_id, l.genre@));
                    r.push(MovieGenreLink { movie_id: mid, genre: movies[i].genres[k].clone() });
                    assert(r@.map_values(|l: MovieGenreLink| (l.movie_id, l.genre@)) =~= before.push(
                        (mid, movies@[i as int].genres@[k as int]@),
                    ));
                    assert(views(movies@[i as int].genres@).map_values(|g: Seq<char>| (mid, g)).take(k + 1)
                        =~= views(movies@[i as int].genres@).map_values(|g: Seq<char>| (mid, g)).take(
                        k as int,
                    ).push((mid, movies@[i as int].genres@[k as int]@)));
                    k += 1;
                }
                assert(views(movies@[i as int].genres@).map_values(|g: Seq<char>| (mid, g)).take(
                    movies@[i as int].genres@.len() as int,
                ) =~= views(movies@[i as int].genres@).map_values(|g: Seq<char>| (mid, g)));
            },
            None => {},
        }
        i += 1;
    }
    assert(movies@.take(movies.len() as int) =~= movies@);
    r
}

/// A movie row to store, with its director's id when the director was
/// stored.
pub struct NewMovieRow {
    pub name: String,
    pub director_id: Option<i32>,
    pub description: Option<String>,
    pub location: Option<String>,
    pub release_year: i32,
}

/// The movie rows of an import, given the ids the directors were stored
/// under.
pub fn new_movie_rows(movies: &Vec<FullMovie>, director_ids: &Vec<(i32, String)>) -> (r: Vec<NewMovieRow>)
    ensures
        r@.len() == movies@.len(),
        forall|i: int|
            0 <= i < movies@.len() ==> {
                let m = movies@[i];
                &&& (#[trigger] r@[i]).name@ == m.name@
                &&& r@[i].director_id == (match director_name(m) {
                    Some(n) => lookup_id(director_ids@, n),
                    None => None,
                })
                &&& r@[i].description == m.description
                &&& r@[i].location == m.location
                &&& r@[i].release_year == m.release_year
            },
{
    let mut r: Vec<NewMovieRow> = Vec::new();
    let mut i: usize = 0;
    while i < movies.len()
        invariant
            i <= movies.len(),
            r@.len() == i,
            forall|k: int|
                0 <= k < i ==> {
                    let m = movies@[k];
                    &&& (#[trigger] r@[k]).name@ == m.name@
                    &&& r@[k].director_id == (match director_name(m) {
                        Some(n) => lookup_id(director_ids@, n),
                        None => None,
                    })
                    &&& r@[k].description == m.description
                    &&& r@[k].location == m.location
                    &&& r@[k].release_year == m.release_year
                },
        decreases movies.len() - i,
    {
        let m = &movies[i];
        let director_id = match &m.director {
            Some(d) => id_for_name(director_ids, &d.name),
            None => None,
        };
        r.push(
            NewMovieRow {
                name: m.name.clone(),
                director_id,
                description: crate::models::clone_opt_string(&m.description),
                location: crate::models::clone_opt_string(&m.location),
                release_year: m.release_year,
            },
        );
        i += 1;
    }
    r
}

// ---------------------------------------------------------------------------
// Hydrating loaded movies
// ---------------------------------------------------------------------------

/// The position of the last movie with the given id (a later movie with the
/// same id takes its rows).
pub open spec fn last_position(ids: Seq<i32>, id: i32) -> Option<int>
    decreases ids.len(),
{
    if ids.len() == 0 {
        None
    } else if ids.last() == id {
        Some(ids.len() - 1)
    } else {
        last_position(ids.drop_last(), id)
    }
}

/// The items of the `(movie id, item)` rows that belong to the movie at
/// position `p`, in row order.
pub open spec fn group_items<T>(ids: Seq<i32>, rows: Seq<(i32, T)>, p: int) -> Seq<T>
    decreases rows.len(),
{
    if rows.len() == 0 {
        Seq::empty()
    } else {
        let prev = group_items(ids, rows.drop_last(), p);
        if last_position(ids, rows.last().0) == Some(p) {
            prev.push(rows.last().1)
        } else {
            prev
        }
    }
}

/// The position of the last movie with the given id.
fn last_position_exec(ids: &Vec<i32>, id: i32) -> (r: Option<usize>)
    ensures
        match r {
            Some(k) => last_position(ids@, id) == Some(k as int),
            None => last_position(ids@, id) is None,
        },
{
    let mut k: usize = ids.len();
    assert(ids@.take(k as int) =~= ids@);
    while k > 0
        invariant
            k <= ids@.len(),
            last_position(ids@, id) == last_position(ids@.take(k as int), id),
        decreases k,
    {
        if ids[k - 1] == id {
            return Some(k - 1);
        }
        assert(ids@.take(k as int).drop_last() =~= ids@.take(k - 1));
        k -= 1;
    }
    None
}

/// For each row, the position of the movie it belongs to.
fn row_owners<T>(ids: &Vec<i32>, rows: &Vec<(i32, T)>) -> (r: Vec<Option<usize>>)
    ensures
        r@.len() == rows@.len(),
        forall|k: int|
            0 <= k < rows@.len() ==> match #[trigger] r@[k] {
                Some(p) => last_position(ids@, rows@[k].0) == Some(p as int),
                None => last_position(ids@, rows@[k].0) is None,
            },
{
    let mut r: Vec<Option<usize>> = Vec::new();
    let mut k: usize = 0;
    while k < rows.len()
        invariant
            k <= rows@.len(),
            r@.len() == k,
            forall|j: int|
                0 <= j < k ==> match #[trigger] r@[j] {
                    Some(p) => last_position(ids@, rows@[j].0) == Some(p as int),
                    None => last_position(ids@, rows@[j].0) is None,
                },
        decreases rows.len() - k,
    {
        r.push(last_position_exec(ids, rows[k].0));
        k += 1;
    }
    r
}

/// Groups loaded `(movie id, actor)` rows by movie: one list per movie, in
/// the movies' order, each in row order; rows of no listed movie are left
/// out.
pub fn group_actors(movie_ids: &Vec<i32>, rows: &Vec<(i32, Actor)>) -> (r: Vec<Vec<Actor>>)
    ensures
        r@.len() == movie_ids@.len(),
        forall|p: int| 0 <= p < movie_ids@.len() ==> (#[trigger] r@[p])@ == group_items(movie_ids@, rows@, p),
{
    let owners = row_owners(movie_ids, rows);
    let mut r: Vec<Vec<Actor>> = Vec::new();
    let mut p: usize = 0;
    while p < movie_ids.len()
        invariant
            p <= movie_ids@.len(),
            r@.len() == p,
            owners@.len() == rows@.len(),
            forall|k: int|
                0 <= k < rows@.len() ==> match #[trigger] owners@[k] {
                    Some(q) => last_position(movie_ids@, rows@[k].0) == Some(q as int),
                    None => last_position(movie_ids@, rows@[k].0) is None,
                },
            forall|q: int| 0 <= q < p ==> (#[trigger] r@[q])@ == group_items(movie_ids@, rows@, q),
        decreases movie_ids.len() - p,
    {
        let mut g: Vec<Actor> = Vec::new();
        let mut k: usize = 0;
        while k < rows.len()
            invariant
                k <= rows@.len(),
                owners@.len() == rows@.len(),
                forall|j: int|
                    0 <= j < rows@.len() ==> match #[trigger] owners@[j] {
                        Some(q) => last_position(movie_ids@, rows@[j].0) == Some(q as int),
                        None => last_position(movie_ids@, rows@[j].0) is None,
                    },
                g@ == group_items(movie_ids@, rows@.take(k as int), p as int),
            decreases rows.len() - k,
        {
            assert(rows@.take(k + 1).drop_last() =~= rows@.take(k as int));
            assert(rows@.take(k + 1).last() == rows@[k as int]);
            let o = owners[k];
            if o == Some(p) {
                g.push(rows[k].1.clone());
            }
            k += 1;
        }
        assert(rows@.take(rows.len() as int) =~= rows@);
        r.push(g);
        p += 1;
    }
    r
}

/// Groups loaded `(movie id, genre)` rows by movie: one list per movie, in
/// the movies' order, each in row order; rows of no listed movie are left
/// out.
pub fn group_genres(movie_ids: &Vec<i32>, rows: &Vec<(i32, String)>) -> (r: Vec<Vec<String>>)
    ensures
        r@.len() == movie_ids@.len(),
        forall|p: int| 0 <= p < movie_ids@.len() ==> (#[trigger] r@[p])@ == group_items(movie_ids@, rows@, p),
{
    let owners = row_owners(movie_ids, rows);
    let mut r: Vec<Vec<String>> = Vec::new();
    let mut p: usize = 0;
    while p < movie_ids.len()
        invariant
            p <= movie_ids@.len(),
            r@.len() == p,
            owners@.len() == rows@.len(),
            forall|k: int|
                0 <= k < rows@.len() ==> match #[trigger] owners@[k] {
                    Some(q) => last_position(movie_ids@, rows@[k].0) == Some(q as int),
                    None => last_position(movie_ids@, rows@[k].0) is None,
                },
            forall|q: int| 0 <= q < p ==> (#[trigger] r@[q])@ == group_items(movie_ids@, rows@, q),
        decreases movie_ids.len() - p,
    {
        let mut g: Vec<String> = Vec::new();
        let mut k: usize = 0;
        while k < rows.len()
            invariant
                k <= rows@.len(),
                owners@.len() == rows@.len(),
                forall|j: int|
                    0 <= j < rows@.len() ==> match #[trigger] owners@[j] {
                        Some(q) => last_position(movie_ids@, rows@[j].0) == Some(q as int),
                        None => last_position(movie_ids@, rows@[j].0) is None,
                    },
                g@ == group_items(movie_ids@, rows@.take(k as int), p as int),
            decreases rows.len() - k,
        {
            assert(rows@.take(k + 1).drop_last() =~= rows@.take(k as int));
            assert(rows@.take(k + 1).last() == rows@[k as int]);
            let o = owners[k];
            if o == Some(p) {
                g.push(rows[k].1.clone());
            }
            k += 1;
        }
        assert(rows@.take(rows.len() as int) =~= rows@);
        r.push(g);
        p += 1;
    }
    r
}

/// A stored movie row: what the movie table holds besides its relations.
pub struct MovieRow {
    pub id: i32,
    pub name: String,
    pub description: Option<String>,
    pub release_year: i32,
    /// The date added, as text.
    pub added_on: String,
    pub location: String,
}

/// A full movie from its row, director, cast and genres.
pub fn build_full_movie_from_row(
    movie: MovieRow,
    director: Option<Director>,
    actors: Vec<Actor>,
    genres: Vec<String>,
) -> (r: FullMovie)
    ensures
        r.id == movie.id,
        r.name == movie.name,
        r.description == movie.description,
        r.director == director,
        r.actors == actors,
        r.genres == genres,
        r.added_on == Some(movie.added_on),
        r.location == Some(movie.location),
        r.release_year == movie.release_year,
{
    FullMovie {
        id: movie.id,
        name: movie.name,
        description: movie.description,
        actors,
        director,
        genres,
        added_on: Some(movie.added_on),
        location: Some(movie.location),
        release_year: movie.release_year,
    }
}

} // verus!
