//! Keyword search over the in-memory catalogue: entity extraction from a
//! free-text query, per-movie keyword scores and the ranked keyword results.

use vstd::prelude::*;
use crate::models::{actor_names, director_name, genre_names, movie_view, movie_views, FullMovie, MovieView};
use crate::normalize::{strip_punctuation, stripped};
use crate::text::{
    contains_seq, contains_str, has_prefix, spec_lowercase, split_whitespace, starts_with_str,
    to_lowercase, views, words,
};

verus! {

/// Score of an exact (normalized) title match.
pub const EXACT_TITLE_MATCH_SCORE: u128 = 100;

/// Criteria a movie is scored against.
pub struct SearchCriteria {
    pub titles: Vec<String>,
    pub actors: Vec<String>,
    pub genres: Vec<String>,
}

/// The comparison form of a name: lowercased, punctuation stripped.
pub open spec fn norm(s: Seq<char>) -> Seq<char> {
    stripped(spec_lowercase(s))
}

/// Lowercases `s` and strips its punctuation.
pub fn normalize(s: &str) -> (r: String)
    ensures
        r@ == norm(s@),
{
    let lower = to_lowercase(s);
    strip_punctuation(lower.as_str())
}

/// Points one searched title earns against a movie title (both normalized).
pub open spec fn title_points(movie_title: Seq<char>, title: Seq<char>) -> nat {
    if movie_title == title {
        100
    } else if contains_seq(movie_title, title) {
        50
    } else if contains_seq(title, movie_title) {
        30
    } else if has_prefix(movie_title, title) {
        45
    } else if exists|k: int|
        0 <= k < words(movie_title).len() && has_prefix(#[trigger] words(movie_title)[k], title) {
        40
    } else {
        0
    }
}

/// Sum of `title_points` over the searched titles.
pub open spec fn titles_points(movie_title: Seq<char>, titles: Seq<Seq<char>>) -> nat
    decreases titles.len(),
{
    if titles.len() == 0 {
        0
    } else {
        titles_points(movie_title, titles.drop_last()) + title_points(
            movie_title,
            norm(titles.last()),
        )
    }
}

/// Whether some cast member's normalized name equals or contains `actor`.
pub open spec fn cast_matches(cast: Seq<Seq<char>>, actor: Seq<char>) -> bool {
    exists|i: int|
        0 <= i < cast.len() && (norm(#[trigger] cast[i]) == actor || contains_seq(
            norm(cast[i]),
            actor,
        ))
}

/// 20 points for every searched actor found in the cast.
pub open spec fn actors_points(cast: Seq<Seq<char>>, actors: Seq<Seq<char>>) -> nat
    decreases actors.len(),
{
    if actors.len() == 0 {
        0
    } else {
        actors_points(cast, actors.drop_last()) + if cast_matches(cast, norm(actors.last())) {
            20nat
        } else {
            0nat
        }
    }
}

/// 25 points once when the director's normalized name equals or contains a
/// searched person (the actor criteria also carry directors).
pub open spec fn director_points(director: Option<Seq<char>>, actors: Seq<Seq<char>>) -> nat {
    match director {
        Some(d) => if exists|j: int|
            0 <= j < actors.len() && (norm(d) == norm(#[trigger] actors[j]) || contains_seq(
                norm(d),
                norm(actors[j]),
            )) {
            25
        } else {
            0
        },
        None => 0,
    }
}

/// Whether some genre of the movie equals `genre` once normalized.
pub open spec fn genre_matches(movie_genres: Seq<Seq<char>>, genre: Seq<char>) -> bool {
    exists|i: int| 0 <= i < movie_genres.len() && norm(#[trigger] movie_genres[i]) == genre
}

/// 15 points for every searched genre the movie has.
pub open spec fn genres_points(movie_genres: Seq<Seq<char>>, genres: Seq<Seq<char>>) -> nat
    decreases genres.len(),
{
    if genres.len() == 0 {
        0
    } else {
        genres_points(movie_genres, genres.drop_last()) + if genre_matches(
            movie_genres,
            norm(genres.last()),
        ) {
            15nat
        } else {
            0nat
        }
    }
}

/// The keyword score of a movie against the criteria.
pub open spec fn keyword_score(m: FullMovie, c: SearchCriteria) -> nat {
    titles_points(norm(m.name@), views(c.titles@)) + actors_points(actor_names(m), views(c.actors@))
        + director_points(director_name(m), views(c.actors@)) + genres_points(
        genre_names(m),
        views(c.genres@),
    )
}

/// Points for one searched title against the normalized movie title.
fn score_title(movie_title: &String, title: &str) -> (r: u128)
    ensures
        r == title_points(movie_title@, norm(title@)),
        r <= 100,
{
    let t = normalize(title);
    if *movie_title == t {
        100
    } else if contains_str(movie_title.as_str(), t.as_str()) {
        50
    } else if contains_str(t.as_str(), movie_title.as_str()) {
        30
    } else if starts_with_str(movie_title.as_str(), t.as_str()) {
        45
    } else {
        let ws = split_whitespace(movie_title.as_str());
        let mut k: usize = 0;
        while k < ws.len()
            invariant
                views(ws@) == words(movie_title@),
                t@ == norm(title@),
                movie_title@ != t@,
                !contains_seq(movie_title@, t@),
                !contains_seq(t@, movie_title@),
                !has_prefix(movie_title@, t@),
                k <= ws.len(),
                forall|j: int| 0 <= j < k ==> !has_prefix(#[trigger] words(movie_title@)[j], t@),
            decreases ws.len() - k,
        {
            assert(ws@[k as int]@ == words(movie_title@)[k as int]);
            if starts_with_str(ws[k].as_str(), t.as_str()) {
                assert(k < words(movie_title@).len());
                assert(has_prefix(words(movie_title@)[k as int], t@));
                assert(exists|k: int|
                    0 <= k < words(movie_title@).len() && has_prefix(
                        #[trigger] words(movie_title@)[k],
                        t@,
                    ));
                return 40;
            }
            k += 1;
        }
        0
    }
}

/// Whether the searched (normalized) actor appears in the movie's cast.
fn cast_has(movie: &FullMovie, actor: &String) -> (r: bool)
    ensures
        r == cast_matches(actor_names(*movie), actor@),
{
    let mut i: usize = 0;
    while i < movie.actors.len()
        invariant
            i <= movie.actors.len(),
            forall|j: int|
                0 <= j < i ==> !(norm(#[trigger] actor_names(*movie)[j]) == actor@ || contains_seq(
                    norm(actor_names(*movie)[j]),
                    actor@,
                )),
        decreases movie.actors.len() - i,
    {
        let n = normalize(movie.actors[i].name.as_str());
        assert(actor_names(*movie)[i as int] == movie.actors@[i as int].name@);
        if n == *actor || contains_str(n.as_str(), actor.as_str()) {
            return true;
        }
        i += 1;
    }
    false
}

/// Whether one of the movie's genres normalizes to `genre`.
fn genres_have(movie: &FullMovie, genre: &String) -> (r: bool)
    ensures
        r == genre_matches(genre_names(*movie), genre@),
{
    let mut i: usize = 0;
    while i < movie.genres.len()
        invariant
            i <= movie.genres.len(),
            forall|j: int| 0 <= j < i ==> norm(#[trigger] genre_names(*movie)[j]) != genre@,
        decreases movie.genres.len() - i,
    {
        let n = normalize(movie.genres[i].as_str());
        assert(genre_names(*movie)[i as int] == movie.genres@[i as int]@);
        if n == *genre {
            return true;
        }
        i += 1;
    }
    false
}

/// Scores a movie based on keyword matches: titles (100 exact, 50 contained,
/// 30 containing, 40 word prefix), actors (20 each), director (25 once) and
/// genres (15 each).
pub fn score_movie_by_keywords(movie: &FullMovie, criteria: &SearchCriteria) -> (score: u128)
    ensures
        score == keyword_score(*movie, *criteria),
{
    let movie_title = normalize(movie.name.as_str());
    let mut title_total: u128 = 0;
    let mut i: usize = 0;
    while i < criteria.titles.len()
        invariant
            i <= criteria.titles.len(),
            movie_title@ == norm(movie.name@),
            title_total == titles_points(movie_title@, views(criteria.titles@.take(i as int))),
            title_total <= 100 * i,
        decreases criteria.titles.len() - i,
    {
        let p = score_title(&movie_title, criteria.titles[i].as_str());
        assert(views(criteria.titles@.take(i + 1)).drop_last() =~= views(criteria.titles@.take(i as int)));
        title_total = title_total + p;
        i += 1;
    }
    assert(criteria.titles@.take(criteria.titles.len() as int) =~= criteria.titles@);

    let mut actor_total: u128 = 0;
    let mut i: usize = 0;
    while i < criteria.actors.len()
        invariant
            i <= criteria.actors.len(),
            actor_total == actors_points(actor_names(*movie), views(criteria.actors@.take(i as int))),
            actor_total <= 20 * i,
        decreases criteria.actors.len() - i,
    {
        let a = normalize(criteria.actors[i].as_str());
        assert(views(criteria.actors@.take(i + 1)).drop_last() =~= views(criteria.actors@.take(i as int)));
        if cast_has(movie, &a) {
            actor_total = actor_total + 20;
        }
        i += 1;
    }
    assert(criteria.actors@.take(criteria.actors.len() as int) =~= criteria.actors@);

    let mut director_total: u128 = 0;
    match &movie.director {
        Some(d) => {
            let dn = normalize(d.name.as_str());
            let mut found = false;
            let mut j: usize = 0;
            while j < criteria.actors.len() && !found
                invariant
                    j <= criteria.actors.len(),
                    dn@ == norm(d.name@),
                    !found ==> forall|k: int|
                        0 <= k < j ==> !(norm(d.name@) == norm(#[trigger] views(criteria.actors@)[k])
                            || contains_seq(norm(d.name@), norm(views(criteria.actors@)[k]))),
                    found ==> exists|k: int|
                        0 <= k < criteria.actors.len() && (norm(d.name@) == norm(
                            #[trigger] views(criteria.actors@)[k],
                        ) || contains_seq(norm(d.name@), norm(views(criteria.actors@)[k]))),
                decreases criteria.actors.len() - j + if found {
                    0int
                } else {
                    1int
                },
            {
                let a = normalize(criteria.actors[j].as_str());
                assert(views(criteria.actors@)[j as int] == criteria.actors@[j as int]@);
                if dn == a || contains_str(dn.as_str(), a.as_str()) {
                    found = true;
                } else {
                    j += 1;
                }
            }
            if found {
                director_total = 25;
            }
        },
        None => {},
    }
    assert(director_total == director_points(director_name(*movie), views(criteria.actors@)));

    let mut genre_total: u128 = 0;
    let mut i: usize = 0;
    while i < criteria.genres.len()
        invariant
            i <= criteria.genres.len(),
            genre_total == genres_points(genre_names(*movie), views(criteria.genres@.take(i as int))),
            genre_total <= 15 * i,
        decreases criteria.genres.len() - i,
    {
        let g = normalize(criteria.genres[i].as_str());
        assert(views(criteria.genres@.take(i + 1)).drop_last() =~= views(criteria.genres@.take(i as int)));
        if genres_have(movie, &g) {
            genre_total = genre_total + 15;
        }
        i += 1;
    }
    assert(criteria.genres@.take(criteria.genres.len() as int) =~= criteria.genres@);
    assert(title_total <= 100 * 0xffff_ffff_ffff_ffffu128) by (nonlinear_arith)
        requires
            title_total <= 100 * criteria.titles.len(),
            criteria.titles.len() <= 0xffff_ffff_ffff_ffffu128,
    ;
    assert(actor_total <= 20 * 0xffff_ffff_ffff_ffffu128) by (nonlinear_arith)
        requires
            actor_total <= 20 * criteria.actors.len(),
            criteria.actors.len() <= 0xffff_ffff_ffff_ffffu128,
    ;
    assert(genre_total <= 15 * 0xffff_ffff_ffff_ffffu128) by (nonlinear_arith)
        requires
            genre_total <= 15 * criteria.genres.len(),
            criteria.genres.len() <= 0xffff_ffff_ffff_ffffu128,
    ;
    title_total + actor_total + director_total + genre_total
}

// ---------------------------------------------------------------------------
// Ranking
// ---------------------------------------------------------------------------

/// `x` inserted after every trailing element whose score is at least `x`'s:
/// one step of a stable sort by descending score.
pub open spec fn insert_desc(sorted: Seq<(i32, u128)>, x: (i32, u128)) -> Seq<(i32, u128)>
    decreases sorted.len(),
{
    if sorted.len() == 0 {
        seq![x]
    } else if sorted.last().1 >= x.1 {
        sorted.push(x)
    } else {
        insert_desc(sorted.drop_last(), x).push(sorted.last())
    }
}

/// Stable sort by descending score: equal scores keep their input order.
pub open spec fn sort_desc(s: Seq<(i32, u128)>) -> Seq<(i32, u128)>
    decreases s.len(),
{
    if s.len() == 0 {
        Seq::empty()
    } else {
        insert_desc(sort_desc(s.drop_last()), s.last())
    }
}

/// At most the first `n` elements of `s`.
pub open spec fn take_at_most<T>(s: Seq<T>, n: int) -> Seq<T> {
    if n < s.len() {
        s.take(n)
    } else {
        s
    }
}

/// Every movie paired with its keyword score, keeping those that scored.
pub open spec fn positive_scores(movies: Seq<FullMovie>, c: SearchCriteria) -> Seq<(i32, u128)>
    decreases movies.len(),
{
    if movies.len() == 0 {
        Seq::empty()
    } else {
        let rest = positive_scores(movies.drop_last(), c);
        let m = movies.last();
        if keyword_score(m, c) > 0 {
            rest.push((m.id, keyword_score(m, c) as u128))
        } else {
            rest
        }
    }
}

/// What `keyword_search` returns.
pub open spec fn keyword_ranking(movies: Seq<FullMovie>, c: SearchCriteria, limit: int) -> Seq<(i32, u128)> {
    take_at_most(sort_desc(positive_scores(movies, c)), limit)
}

/// Whether scores never increase along `s`.
pub open spec fn is_sorted_desc(s: Seq<(i32, u128)>) -> bool {
    forall|i: int, j: int| 0 <= i < j < s.len() ==> s[i].1 >= s[j].1
}

proof fn lemma_insert_desc_split(s: Seq<(i32, u128)>, x: (i32, u128), k: int)
    requires
        0 <= k <= s.len(),
        forall|i: int| k <= i < s.len() ==> s[i].1 < x.1,
    ensures
        insert_desc(s, x) == insert_desc(s.take(k), x) + s.skip(k),
    decreases s.len() - k,
{
    if k < s.len() {
        lemma_insert_desc_split(s.drop_last(), x, k);
        assert(s.drop_last().take(k) =~= s.take(k));
        assert(s.drop_last().skip(k).push(s.last()) =~= s.skip(k));
        assert((insert_desc(s.take(k), x) + s.drop_last().skip(k)).push(s.last()) =~= insert_desc(
            s.take(k),
            x,
        ) + s.skip(k));
    } else {
        assert(s.take(k) =~= s);
        assert(s.skip(k) =~= Seq::<(i32, u128)>::empty());
        assert(insert_desc(s, x) + Seq::<(i32, u128)>::empty() =~= insert_desc(s, x));
    }
}

/// Inserting into a sorted sequence keeps it sorted and adds exactly `x`.
pub proof fn lemma_insert_desc_props(s: Seq<(i32, u128)>, x: (i32, u128))
    requires
        is_sorted_desc(s),
    ensures
        is_sorted_desc(insert_desc(s, x)),
        insert_desc(s, x).len() == s.len() + 1,
        insert_desc(s, x).to_multiset() == s.to_multiset().insert(x),
    decreases s.len(),
{
    broadcast use vstd::seq_lib::group_to_multiset_ensures;
    if s.len() > 0 && s.last().1 < x.1 {
        let p = s.drop_last();
        lemma_insert_desc_props(p, x);
        let r = insert_desc(p, x);
        assert(s.to_multiset() =~= p.to_multiset().insert(s.last())) by {
            assert(p.push(s.last()) =~= s);
        }
        assert forall|i: int, j: int| 0 <= i < j < r.push(s.last()).len() implies r.push(
            s.last(),
        )[i].1 >= r.push(s.last())[j].1 by {
            if j == r.len() {
                // r's elements are those of p and x, all at least s.last()
                assert(r.to_multiset().contains(r[i]));
                assert(r.to_multiset() == p.to_multiset().insert(x));
                if r[i] != x {
                    assert(p.to_multiset().contains(r[i]));
                    assert(p.contains(r[i]));
                    let k = choose|k: int| 0 <= k < p.len() && p[k] == r[i];
                    assert(s[k] == p[k]);
                }
            }
        }
        assert(r.push(s.last()).to_multiset() =~= r.to_multiset().insert(s.last()));
    } else if s.len() > 0 {
        assert forall|i: int, j: int| 0 <= i < j < s.push(x).len() implies s.push(x)[i].1 >= s.push(
            x,
        )[j].1 by {
            if j == s.len() && i < s.len() - 1 {
                assert(s[i].1 >= s[s.len() - 1].1);
            }
        }
    }
}

/// The stable descending sort is sorted and a permutation of its input.
pub proof fn lemma_sort_desc_props(s: Seq<(i32, u128)>)
    ensures
        is_sorted_desc(sort_desc(s)),
        sort_desc(s).len() == s.len(),
        sort_desc(s).to_multiset() == s.to_multiset(),
    decreases s.len(),
{
    broadcast use vstd::seq_lib::group_to_multiset_ensures;
    if s.len() > 0 {
        lemma_sort_desc_props(s.drop_last());
        lemma_insert_desc_props(sort_desc(s.drop_last()), s.last());
        assert(s.drop_last().push(s.last()) =~= s);
    }
}

/// Keyword score bounds: every part is bounded by its criteria count.
proof fn lemma_points_bounds(m: FullMovie, c: SearchCriteria)
    ensures
        keyword_score(m, c) <= 100 * c.titles@.len() + 20 * c.actors@.len() + 25 + 15
            * c.genres@.len(),
{
    lemma_titles_bound(norm(m.name@), views(c.titles@));
    lemma_actors_bound(actor_names(m), views(c.actors@));
    lemma_genres_bound(genre_names(m), views(c.genres@));
}

proof fn lemma_titles_bound(mt: Seq<char>, ts: Seq<Seq<char>>)
    ensures
        titles_points(mt, ts) <= 100 * ts.len(),
    decreases ts.len(),
{
    if ts.len() > 0 {
        lemma_titles_bound(mt, ts.drop_last());
    }
}

proof fn lemma_actors_bound(cast: Seq<Seq<char>>, a: Seq<Seq<char>>)
    ensures
        actors_points(cast, a) <= 20 * a.len(),
    decreases a.len(),
{
    if a.len() > 0 {
        lemma_actors_bound(cast, a.drop_last());
    }
}

proof fn lemma_genres_bound(mg: Seq<Seq<char>>, g: Seq<Seq<char>>)
    ensures
        genres_points(mg, g) <= 15 * g.len(),
    decreases g.len(),
{
    if g.len() > 0 {
        lemma_genres_bound(mg, g.drop_last());
    }
}

/// The actor part of the keyword score adds up over the searched actors:
/// searching for `a` and then `b` scores what searching for each scores.
pub proof fn lemma_actors_points_additive(cast: Seq<Seq<char>>, a: Seq<Seq<char>>, b: Seq<Seq<char>>)
    ensures
        actors_points(cast, a + b) == actors_points(cast, a) + actors_points(cast, b),
    decreases b.len(),
{
    if b.len() == 0 {
        assert(a + b =~= a);
    } else {
        lemma_actors_points_additive(cast, a, b.drop_last());
        assert((a + b).drop_last() =~= a + b.drop_last());
        assert((a + b).last() == b.last());
    }
}

/// One searched actor earns 20 points when some cast member's normalized
/// name equals or contains the actor's normalized name, else nothing.
pub proof fn lemma_actors_points_one(cast: Seq<Seq<char>>, actor: Seq<char>)
    ensures
        actors_points(cast, seq![actor]) == (if exists|i: int|
            0 <= i < cast.len() && (norm(#[trigger] cast[i]) == norm(actor) || contains_seq(norm(cast[i]), norm(actor))) {
            20nat
        } else {
            0nat
        }),
{
    assert(seq![actor].drop_last() =~= Seq::<Seq<char>>::empty());
    assert(seq![actor].last() == actor);
    assert(actors_points(cast, Seq::<Seq<char>>::empty()) == 0);
    assert(actors_points(cast, seq![actor]) == (if cast_matches(cast, norm(actor)) { 20nat } else { 0nat }));
}

/// The actor part of the keyword score is 20 times the number of searched
/// actors found in the cast (each counted, not only the first).
pub proof fn lemma_actors_points_count(cast: Seq<Seq<char>>, actors: Seq<Seq<char>>)
    ensures
        actors_points(cast, actors) == 20 * actors.filter(|x: Seq<char>| exists|i: int|
            0 <= i < cast.len() && (norm(#[trigger] cast[i]) == norm(x) || contains_seq(norm(cast[i]), norm(x)))).len(),
    decreases actors.len(),
{
    let pred = |x: Seq<char>| exists|i: int|
        0 <= i < cast.len() && (norm(#[trigger] cast[i]) == norm(x) || contains_seq(norm(cast[i]), norm(x)));
    if actors.len() == 0 {
        assert(actors.filter(pred) =~= Seq::<Seq<char>>::empty());
    } else {
        let init = actors.drop_last();
        lemma_actors_points_count(cast, init);
        assert(actors =~= init.push(actors.last()));
        init.lemma_filter_push(actors.last(), pred);
        assert(cast_matches(cast, norm(actors.last())) == pred(actors.last()));
    }
}

/// A keyword score always fits in a `u128`.
pub proof fn lemma_score_fits(m: FullMovie, c: SearchCriteria)
    ensures
        keyword_score(m, c) < 0x1_0000_0000_0000_0000_0000_0000_0000_0000int,
        (keyword_score(m, c) as u128) as int == keyword_score(m, c),
{
    lemma_points_bounds(m, c);
    let a = c.titles.len();
    let b = c.actors.len();
    let g = c.genres.len();
    assert(100 * a + 20 * b + 25 + 15 * g < 0x1_0000_0000_0000_0000_0000_0000_0000_0000int)
        by (nonlinear_arith)
        requires
            a <= 0xffff_ffff_ffff_ffffint,
            b <= 0xffff_ffff_ffff_ffffint,
            g <= 0xffff_ffff_ffff_ffffint,
    ;
}

/// Index at which `x` enters `sorted` under `insert_desc`.
fn insertion_index(sorted: &Vec<(i32, u128)>, x: (i32, u128)) -> (k: usize)
    ensures
        k <= sorted.len(),
        insert_desc(sorted@, x) == sorted@.take(k as int).push(x) + sorted@.skip(k as int),
{
    let mut k = sorted.len();
    while k > 0 && sorted[k - 1].1 < x.1
        invariant
            k <= sorted.len(),
            forall|i: int| k <= i < sorted.len() ==> sorted@[i].1 < x.1,
        decreases k,
    {
        k -= 1;
    }
    proof {
        lemma_insert_desc_split(sorted@, x, k as int);
        if k > 0 {
            assert(sorted@.take(k as int).last() == sorted@[k - 1]);
        } else {
            assert(sorted@.take(0) =~= Seq::<(i32, u128)>::empty());
        }
    }
    k
}

/// Performs keyword-based search on movies: the ids and keyword scores of
/// the movies that scored, sorted by score descending (ties keep catalogue
/// order), at most `limit` of them.
pub fn keyword_search(movies: &Vec<FullMovie>, criteria: &SearchCriteria, limit: usize) -> (r: Vec<(i32, u128)>)
    ensures
        r@ == keyword_ranking(movies@, *criteria, limit as int),
{
    let mut scored: Vec<(i32, u128)> = Vec::new();
    let mut i: usize = 0;
    while i < movies.len()
        invariant
            i <= movies.len(),
            scored@ == positive_scores(movies@.take(i as int), *criteria),
        decreases movies.len() - i,
    {
        let score = score_movie_by_keywords(&movies[i], criteria);
        assert(movies@.take(i + 1).drop_last() =~= movies@.take(i as int));
        assert(movies@.take(i + 1).last() == movies@[i as int]);
        if score > 0 {
            scored.push((movies[i].id, score));
        }
        i += 1;
    }
    assert(movies@.take(movies.len() as int) =~= movies@);
    rank_by_score(scored, limit)
}

/// The pairs sorted by descending score (equal scores keep their order),
/// at most `limit` of them.
pub fn rank_by_score(scored: Vec<(i32, u128)>, limit: usize) -> (r: Vec<(i32, u128)>)
    ensures
        r@ == take_at_most(sort_desc(scored@), limit as int),
{
    let mut sorted: Vec<(i32, u128)> = Vec::new();
    let mut j: usize = 0;
    while j < scored.len()
        invariant
            j <= scored.len(),
            sorted@ == sort_desc(scored@.take(j as int)),
        decreases scored.len() - j,
    {
        let x = scored[j];
        let k = insertion_index(&sorted, x);
        sorted.insert(k, x);
        assert(scored@.take(j + 1).drop_last() =~= scored@.take(j as int));
        assert(sorted@ =~= inserted_at(sort_desc(scored@.take(j as int)), k as int, x));
        j += 1;
    }
    assert(scored@.take(scored.len() as int) =~= scored@);
    if limit < sorted.len() {
        sorted.truncate(limit);
    }
    sorted
}

/// `s` with `x` placed at index `k`.
pub open spec fn inserted_at(s: Seq<(i32, u128)>, k: int, x: (i32, u128)) -> Seq<(i32, u128)> {
    s.take(k).push(x) + s.skip(k)
}

/// The keyword ranking is sorted by descending score, holds only movies that
/// scored, and is a permutation of them when no limit cuts it.
pub proof fn lemma_keyword_ranking_sorted(movies: Seq<FullMovie>, c: SearchCriteria, limit: int)
    requires
        limit >= 0,
    ensures
        is_sorted_desc(keyword_ranking(movies, c, limit)),
        keyword_ranking(movies, c, limit).len() <= limit,
        forall|i: int| 0 <= i < keyword_ranking(movies, c, limit).len() ==> #[trigger] keyword_ranking(movies, c, limit)[i].1 > 0,
{
    broadcast use vstd::seq_lib::group_to_multiset_ensures;
    let p = positive_scores(movies, c);
    lemma_sort_desc_props(p);
    lemma_positive_scores_positive(movies, c);
    let r = keyword_ranking(movies, c, limit);
    assert forall|i: int| 0 <= i < r.len() implies #[trigger] r[i].1 > 0 by {
        let srt = sort_desc(p);
        assert(r[i] == srt[i]);
        assert(srt.to_multiset().contains(srt[i]));
        assert(p.contains(srt[i]));
    }
}

proof fn lemma_positive_scores_positive(movies: Seq<FullMovie>, c: SearchCriteria)
    ensures
        forall|i: int| 0 <= i < positive_scores(movies, c).len() ==> #[trigger] positive_scores(movies, c)[i].1 > 0,
    decreases movies.len(),
{
    if movies.len() > 0 {
        lemma_positive_scores_positive(movies.drop_last(), c);
        lemma_score_fits(movies.last(), c);
        let rest = positive_scores(movies.drop_last(), c);
        let r = positive_scores(movies, c);
        assert forall|i: int| 0 <= i < r.len() implies #[trigger] r[i].1 > 0 by {
            if i < rest.len() {
                assert(r[i] == rest[i]);
            }
        }
    }
}

// ---------------------------------------------------------------------------
// Attaching movies to ranked ids
// ---------------------------------------------------------------------------

/// The last movie of the catalogue with the given id (a later movie with
/// the same id replaces an earlier one, as in a map built from the list).
pub open spec fn last_with_id(movies: Seq<MovieView>, id: i32) -> Option<MovieView>
    decreases movies.len(),
{
    if movies.len() == 0 {
        None
    } else if movies.last().id == id {
        Some(movies.last())
    } else {
        last_with_id(movies.drop_last(), id)
    }
}

/// The ranked results with their movies, in rank order; results whose id
/// is not in the catalogue are dropped.
pub open spec fn attached<S>(movies: Seq<MovieView>, results: Seq<(i32, S)>) -> Seq<(MovieView, S)>
    decreases results.len(),
{
    if results.len() == 0 {
        Seq::empty()
    } else {
        let prev = attached(movies, results.drop_last());
        match last_with_id(movies, results.last().0) {
            Some(m) => prev.push((m, results.last().1)),
            None => prev,
        }
    }
}

/// The position of the last movie with the given id.
fn last_index_with_id(movies: &Vec<FullMovie>, id: i32) -> (r: Option<usize>)
    ensures
        match r {
            Some(k) => k < movies@.len() && last_with_id(movie_views(movies@), id) == Some(movie_view(movies@[k as int])),
            None => last_with_id(movie_views(movies@), id) is None,
        },
{
    let mut k: usize = movies.len();
    assert(movie_views(movies@).take(k as int) =~= movie_views(movies@));
    while k > 0
        invariant
            k <= movies@.len(),
            last_with_id(movie_views(movies@), id) == last_with_id(movie_views(movies@).take(k as int), id),
        decreases k,
    {
        let ghost t = movie_views(movies@).take(k as int);
        assert(t.last() == movie_view(movies@[k - 1]));
        if movies[k - 1].id == id {
            return Some(k - 1);
        }
        assert(t.drop_last() =~= movie_views(movies@).take(k - 1));
        k -= 1;
    }
    None
}

/// Pairs ranked ids with their movies from the catalogue, keeping the rank
/// order and each result's score; ids not in the catalogue are dropped.
pub fn scored_movies<S: Copy>(all: &Vec<FullMovie>, results: &Vec<(i32, S)>) -> (r: Vec<(FullMovie, S)>)
    ensures
        r@.map_values(|p: (FullMovie, S)| (movie_view(p.0), p.1)) == attached(movie_views(all@), results@),
{
    let ghost mv = movie_views(all@);
    let mut r: Vec<(FullMovie, S)> = Vec::new();
    let mut i: usize = 0;
    while i < results.len()
        invariant
            i <= results@.len(),
            mv == movie_views(all@),
            r@.map_values(|p: (FullMovie, S)| (movie_view(p.0), p.1)) == attached(mv, results@.take(i as int)),
        decreases results.len() - i,
    {
        let (id, score) = results[i];
        assert(results@.take(i + 1).drop_last() =~= results@.take(i as int));
        assert(results@.take(i + 1).last() == results@[i as int]);
        match last_index_with_id(all, id) {
            Some(k) => {
                let ghost before = r@.map_values(|p: (FullMovie, S)| (movie_view(p.0), p.1));
                let m = all[k].clone();
                r.push((m, score));
                assert(r@.map_values(|p: (FullMovie, S)| (movie_view(p.0), p.1)) =~= before.push(
                    (movie_view(all@[k as int]), score),
                ));
            },
            None => {},
        }
        i += 1;
    }
    assert(results@.take(results.len() as int) =~= results@);
    r
}

/// The movies a library question is answered from: those the search found,
/// in rank order (ids not in the catalogue dropped), or the whole catalogue
/// when the search found nothing.
pub fn movies_for_answer<S: Copy>(all: &Vec<FullMovie>, results: &Vec<(i32, S)>) -> (r: Vec<FullMovie>)
    ensures
        movie_views(r@) == (if results@.len() == 0 {
            movie_views(all@)
        } else {
            attached(movie_views(all@), results@).map_values(|p: (MovieView, S)| p.0)
        }),
{
    if results.len() == 0 {
        let mut r: Vec<FullMovie> = Vec::new();
        let mut i: usize = 0;
        while i < all.len()
            invariant
                i <= all.len(),
                movie_views(r@) == movie_views(all@).take(i as int),
            decreases all.len() - i,
        {
            let ghost before = movie_views(r@);
            r.push(all[i].clone());
            assert(movie_views(r@) =~= before.push(movie_view(all@[i as int])));
            assert(movie_views(all@).take(i + 1) =~= movie_views(all@).take(i as int).push(movie_view(all@[i as int])));
            i += 1;
        }
        assert(movie_views(all@).take(all.len() as int) =~= movie_views(all@));
        return r;
    }
    let pairs = scored_movies(all, results);
    let ghost pv = pairs@.map_values(|p: (FullMovie, S)| (movie_view(p.0), p.1));
    let mut r: Vec<FullMovie> = Vec::new();
    let mut i: usize = 0;
    while i < pairs.len()
        invariant
            i <= pairs.len(),
            pv == pairs@.map_values(|p: (FullMovie, S)| (movie_view(p.0), p.1)),
            movie_views(r@) == pv.take(i as int).map_values(|p: (MovieView, S)| p.0),
        decreases pairs.len() - i,
    {
        let ghost before = movie_views(r@);
        r.push(pairs[i].0.clone());
        assert(movie_views(r@) =~= before.push(movie_view(pairs@[i as int].0)));
        assert(pv.take(i + 1).map_values(|p: (MovieView, S)| p.0) =~= pv.take(i as int).map_values(
            |p: (MovieView, S)| p.0,
        ).push(movie_view(pairs@[i as int].0)));
        i += 1;
    }
    assert(pv.take(pairs.len() as int) =~= pv);
    r
}

} // verus!
