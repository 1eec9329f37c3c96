//! Catalogue statistics: totals, and the most frequent release years,
//! genres and actors with their counts.

use vstd::prelude::*;
use crate::models::{actor_names, director_name, FullMovie};
use crate::text::views;

verus! {

// ---------------------------------------------------------------------------
// Counting
// ---------------------------------------------------------------------------

/// How often `k` occurs in `xs`.
pub open spec fn count_of<K>(xs: Seq<K>, k: K) -> nat
    decreases xs.len(),
{
    if xs.len() == 0 {
        0
    } else {
        count_of(xs.drop_last(), k) + if xs.last() == k {
            1nat
        } else {
            0nat
        }
    }
}

/// The distinct values of `xs` in order of first occurrence.
pub open spec fn distinct<K>(xs: Seq<K>) -> Seq<K>
    decreases xs.len(),
{
    if xs.len() == 0 {
        Seq::empty()
    } else {
        let d = distinct(xs.drop_last());
        if d.contains(xs.last()) {
            d
        } else {
            d.push(xs.last())
        }
    }
}

/// `distinct` holds each value of `xs` exactly once and nothing else.
pub proof fn lemma_distinct_props<K>(xs: Seq<K>)
    ensures
        distinct(xs).no_duplicates(),
        forall|k: K| #[trigger] distinct(xs).contains(k) <==> xs.contains(k),
        distinct(xs).len() <= xs.len(),
    decreases xs.len(),
{
    if xs.len() > 0 {
        let init = xs.drop_last();
        let last = xs.last();
        let d = distinct(init);
        lemma_distinct_props(init);
        assert forall|k: K| xs.contains(k) <==> (init.contains(k) || k == last) by {
            if xs.contains(k) {
                let i = choose|i: int| 0 <= i < xs.len() && xs[i] == k;
                if i < xs.len() - 1 {
                    assert(init[i] == k);
                }
            }
            if init.contains(k) {
                let i = choose|i: int| 0 <= i < init.len() && init[i] == k;
                assert(xs[i] == k);
            }
            if k == last {
                assert(xs[xs.len() - 1] == k);
            }
        }
        if d.contains(last) {
            assert(distinct(xs) == d);
            assert forall|k: K| #[trigger] distinct(xs).contains(k) <==> xs.contains(k) by {
                if k == last {
                    assert(init.contains(last));
                }
            }
        } else {
            assert(distinct(xs) == d.push(last));
            assert forall|k: K| d.push(last).contains(k) <==> (d.contains(k) || k == last) by {
                if d.push(last).contains(k) {
                    let i = choose|i: int| 0 <= i < d.push(last).len() && d.push(last)[i] == k;
                    if i < d.len() {
                        assert(d[i] == k);
                    }
                }
                if d.contains(k) {
                    let i = choose|i: int| 0 <= i < d.len() && d[i] == k;
                    assert(d.push(last)[i] == k);
                }
                if k == last {
                    assert(d.push(last)[d.len() as int] == k);
                }
            }
            assert forall|a: int, b: int|
                0 <= a < d.push(last).len() && 0 <= b < d.push(last).len() && a != b implies d.push(last)[a]
                != d.push(last)[b] by {
                if a == d.len() {
                    assert(d.contains(d[b]));
                } else if b == d.len() {
                    assert(d.contains(d[a]));
                }
            }
            assert forall|k: K| #[trigger] distinct(xs).contains(k) <==> xs.contains(k) by {
                assert(d.push(last).contains(k) <==> (d.contains(k) || k == last));
            }
        }
    } else {
        assert(distinct(xs) =~= Seq::<K>::empty());
        assert forall|k: K| #[trigger] distinct(xs).contains(k) <==> xs.contains(k) by {}
    }
}

/// The number of distinct values is the size of the set of values.
pub proof fn lemma_distinct_len_is_set_size<K>(xs: Seq<K>)
    ensures
        distinct(xs).len() == xs.to_set().len(),
{
    lemma_distinct_props(xs);
    distinct(xs).unique_seq_to_set();
    assert(distinct(xs).to_set() =~= xs.to_set());
}

/// The names of the directors of the movies that have one.
pub open spec fn director_names(movies: Seq<FullMovie>) -> Seq<Seq<char>>
    decreases movies.len(),
{
    if movies.len() == 0 {
        Seq::empty()
    } else {
        let rest = director_names(movies.drop_last());
        match director_name(movies.last()) {
            Some(n) => rest.push(n),
            None => rest,
        }
    }
}

/// The names of every cast member of every movie, in order.
pub open spec fn cast_names(movies: Seq<FullMovie>) -> Seq<Seq<char>>
    decreases movies.len(),
{
    if movies.len() == 0 {
        Seq::empty()
    } else {
        cast_names(movies.drop_last()) + actor_names(movies.last())
    }
}

/// Every genre of every movie, in order.
pub open spec fn all_genres(movies: Seq<FullMovie>) -> Seq<Seq<char>>
    decreases movies.len(),
{
    if movies.len() == 0 {
        Seq::empty()
    } else {
        all_genres(movies.drop_last()) + views(movies.last().genres@)
    }
}

/// The release years that are known (positive), in order.
pub open spec fn known_years(movies: Seq<FullMovie>) -> Seq<i32>
    decreases movies.len(),
{
    if movies.len() == 0 {
        Seq::empty()
    } else {
        let rest = known_years(movies.drop_last());
        if movies.last().release_year > 0 {
            rest.push(movies.last().release_year)
        } else {
            rest
        }
    }
}

/// Distinct names and how often each occurs, in order of first occurrence.
fn tally_names(xs: &Vec<String>) -> (r: (Vec<String>, Vec<usize>))
    ensures
        views(r.0@) == distinct(views(xs@)),
        r.1@.len() == r.0@.len(),
        forall|j: int| 0 <= j < r.1@.len() ==> #[trigger] r.1@[j] == count_of(views(xs@), r.0@[j]@),
{
    let mut keys: Vec<String> = Vec::new();
    let mut counts: Vec<usize> = Vec::new();
    let mut i: usize = 0;
    while i < xs.len()
        invariant
            i <= xs.len(),
            views(keys@) == distinct(views(xs@).take(i as int)),
            counts@.len() == keys@.len(),
            forall|j: int| 0 <= j < counts@.len() ==> #[trigger] counts@[j] == count_of(views(xs@).take(i as int), keys@[j]@),
            forall|j: int| 0 <= j < counts@.len() ==> #[trigger] counts@[j] <= i,
        decreases xs.len() - i,
    {
        let ghost pre = views(xs@).take(i as int);
        let ghost post = views(xs@).take(i + 1);
        assert(post.drop_last() =~= pre);
        assert(post.last() == xs@[i as int]@);
        let mut j: usize = 0;
        let mut found = false;
        while !found && j < keys.len()
            invariant
                j <= keys.len(),
                i < xs.len(),
                found ==> j < keys.len() && keys@[j as int]@ == xs@[i as int]@,
                !found ==> forall|k: int| 0 <= k < j ==> keys@[k]@ != xs@[i as int]@,
            decreases keys.len() - j, (if found { 0int } else { 1int }),
        {
            if keys[j] == xs[i] {
                found = true;
            } else {
                j += 1;
            }
        }
        proof {
            lemma_distinct_props(pre);
        }
        if found {
            assert(views(keys@)[j as int] == xs@[i as int]@);
            assert(distinct(pre).contains(xs@[i as int]@));
            let c = counts[j];
            counts.set(j, c + 1);
            assert forall|k: int| 0 <= k < counts@.len() implies #[trigger] counts@[k] == count_of(post, keys@[k]@) by {
                assert(views(keys@)[k] == keys@[k]@);
                if k != j {
                    assert(distinct(pre)[k] != distinct(pre)[j as int]);
                }
            }
        } else {
            assert forall|k: int| 0 <= k < views(keys@).len() implies views(keys@)[k] != xs@[i as int]@ by {
                assert(views(keys@)[k] == keys@[k]@);
            }
            assert(!distinct(pre).contains(xs@[i as int]@));
            keys.push(xs[i].clone());
            counts.push(1);
            assert(views(keys@) =~= distinct(pre).push(xs@[i as int]@));
            assert forall|k: int| 0 <= k < counts@.len() implies #[trigger] counts@[k] == count_of(post, keys@[k]@) by {
                if k < counts@.len() - 1 {
                    assert(views(keys@)[k] == keys@[k]@);
                    assert(keys@[k]@ != xs@[i as int]@);
                } else {
                    assert(count_of(pre, xs@[i as int]@) == 0) by {
                        lemma_count_zero(pre, xs@[i as int]@);
                    }
                }
            }
        }
        i += 1;
    }
    assert(views(xs@).take(xs.len() as int) =~= views(xs@));
    (keys, counts)
}

/// A value that does not occur has count zero.
pub proof fn lemma_count_zero<K>(xs: Seq<K>, k: K)
    requires
        !xs.contains(k),
    ensures
        count_of(xs, k) == 0,
    decreases xs.len(),
{
    if xs.len() > 0 {
        assert(!xs.drop_last().contains(k)) by {
            if xs.drop_last().contains(k) {
                let i = choose|i: int| 0 <= i < xs.drop_last().len() && xs.drop_last()[i] == k;
                assert(xs[i] == k);
            }
        }
        lemma_count_zero(xs.drop_last(), k);
        assert(xs[xs.len() - 1] != k);
    }
}

/// A value that occurs has a positive count.
pub proof fn lemma_count_positive<K>(xs: Seq<K>, k: K)
    requires
        xs.contains(k),
    ensures
        count_of(xs, k) > 0,
    decreases xs.len(),
{
    if xs.last() != k {
        assert(xs.drop_last().contains(k)) by {
            let i = choose|i: int| 0 <= i < xs.len() && xs[i] == k;
            assert(i < xs.len() - 1);
            assert(xs.drop_last()[i] == k);
        }
        lemma_count_positive(xs.drop_last(), k);
    }
}

// ---------------------------------------------------------------------------
// Choosing the most frequent
// ---------------------------------------------------------------------------

/// `picked` lists distinct indices of `counts`, most frequent first, and
/// no index left out is more frequent than any picked one.
pub open spec fn is_top(counts: Seq<usize>, picked: Seq<usize>) -> bool {
    &&& picked.no_duplicates()
    &&& forall|a: int| 0 <= a < picked.len() ==> #[trigger] picked[a] < counts.len()
    &&& forall|a: int, b: int| 0 <= a < b < picked.len() ==> counts[picked[a] as int] >= counts[picked[b] as int]
    &&& forall|j: int, a: int|
        #![trigger counts[j], picked[a]]
        0 <= j < counts.len() && 0 <= a < picked.len() && !picked.contains(j as usize) ==> counts[j]
            <= counts[picked[a] as int]
}

/// The indices of the `n` largest counts (all of them when fewer), largest
/// first; among equal counts the earlier index comes first.
fn select_top(counts: &Vec<usize>, n: usize) -> (r: Vec<usize>)
    ensures
        r@.len() == (if n < counts@.len() { n as int } else { counts@.len() as int }),
        is_top(counts@, r@),
{
    let mut picked: Vec<usize> = Vec::new();
    let mut taken: Vec<bool> = Vec::new();
    let mut t: usize = 0;
    while t < counts.len()
        invariant
            t <= counts.len(),
            taken@.len() == t,
            forall|k: int| 0 <= k < t ==> !(#[trigger] taken@[k]),
        decreases counts.len() - t,
    {
        taken.push(false);
        t += 1;
    }
    while picked.len() < n && picked.len() < counts.len()
        invariant
            taken@.len() == counts@.len(),
            picked@.len() <= counts@.len(),
            picked@.len() <= n,
            forall|k: int| 0 <= k < counts@.len() ==> (#[trigger] taken@[k] <==> picked@.contains(k as usize)),
            is_top(counts@, picked@),
        decreases counts@.len() - picked@.len(),
    {
        // Some index is still free: otherwise all would be picked.
        proof {
            if forall|k: int| 0 <= k < counts@.len() ==> #[trigger] taken@[k] {
                let idx = Seq::new(counts@.len(), |k: int| k as usize);
                assert forall|k: int| 0 <= k < idx.len() implies picked@.contains(#[trigger] idx[k]) by {
                    assert(taken@[k]);
                }
                lemma_subset_len(idx, picked@);
                assert(false);
            }
        }
        let mut best: usize = 0;
        let mut has_best = false;
        let mut j: usize = 0;
        while j < counts.len()
            invariant
                j <= counts.len(),
                taken@.len() == counts@.len(),
                has_best ==> best < j && !taken@[best as int],
                has_best ==> forall|k: int| 0 <= k < j && !taken@[k] ==> counts@[k] <= counts@[best as int],
                !has_best ==> forall|k: int| 0 <= k < j ==> taken@[k],
            decreases counts.len() - j,
        {
            if !taken[j] && (!has_best || counts[j] > counts[best]) {
                best = j;
                has_best = true;
            }
            j += 1;
        }
        assert(has_best);
        let ghost before = picked@;
        assert(!before.contains(best));
        picked.push(best);
        taken.set(best, true);
        proof {
            assert forall|k: int| 0 <= k < counts@.len() implies (#[trigger] taken@[k] <==> picked@.contains(k as usize)) by {
                if k == best as int {
                    assert(picked@[picked@.len() - 1] == best);
                } else {
                    if picked@.contains(k as usize) {
                        let a = choose|a: int| 0 <= a < picked@.len() && picked@[a] == k as usize;
                        assert(a < before.len());
                        assert(before.contains(k as usize));
                    }
                    if before.contains(k as usize) {
                        let a = choose|a: int| 0 <= a < before.len() && before[a] == k as usize;
                        assert(picked@[a] == k as usize);
                    }
                }
            }
            assert forall|a: int, b: int| 0 <= a < b < picked@.len() implies counts@[picked@[a] as int] >= counts@[picked@[b] as int] by {
                if b == picked@.len() - 1 {
                    assert(!before.contains(best));
                    assert(before[a] == picked@[a]);
                }
            }
            assert forall|x: int, a: int|
                #![trigger counts@[x], picked@[a]]
                0 <= x < counts@.len() && 0 <= a < picked@.len() && !picked@.contains(x as usize) implies counts@[x]
                <= counts@[picked@[a] as int] by {
                assert(!before.contains(x as usize)) by {
                    if before.contains(x as usize) {
                        let c = choose|c: int| 0 <= c < before.len() && before[c] == x as usize;
                        assert(picked@[c] == x as usize);
                    }
                }
                if a < before.len() {
                    assert(picked@[a] == before[a]);
                } else {
                    assert(!taken@[x]);
                }
            }
            assert(picked@.no_duplicates()) by {
                assert forall|a: int, b: int| 0 <= a < picked@.len() && 0 <= b < picked@.len() && a != b implies picked@[a] != picked@[b] by {
                    if a == picked@.len() - 1 && b < before.len() {
                        assert(before[b] == picked@[b]);
                    }
                    if b == picked@.len() - 1 && a < before.len() {
                        assert(before[a] == picked@[a]);
                    }
                }
            }
        }
    }
    picked
}

/// A sequence of distinct values all drawn from `s` is no longer than `s`
/// has distinct values.
proof fn lemma_subset_len(idx: Seq<usize>, s: Seq<usize>)
    requires
        idx.no_duplicates(),
        forall|k: int| 0 <= k < idx.len() ==> s.contains(#[trigger] idx[k]),
    ensures
        idx.len() <= s.len(),
{
    idx.unique_seq_to_set();
    s.lemma_cardinality_of_set();
    assert(idx.to_set().subset_of(s.to_set())) by {
        assert forall|x: usize| idx.to_set().contains(x) implies s.to_set().contains(x) by {
            let k = choose|k: int| 0 <= k < idx.len() && idx[k] == x;
            assert(s.contains(idx[k]));
        }
    }
    vstd::set_lib::lemma_len_subset(idx.to_set(), s.to_set());
}

// ---------------------------------------------------------------------------
// The statistics
// ---------------------------------------------------------------------------

/// Totals shown on the statistics page.
pub struct StatsOverview {
    pub total_movies: usize,
    pub total_directors: usize,
    pub total_actors: usize,
}

/// Every director's name, in movie order.
fn collect_directors(movies: &Vec<FullMovie>) -> (r: Vec<String>)
    ensures
        views(r@) == director_names(movies@),
{
    let mut r: Vec<String> = Vec::new();
    let mut i: usize = 0;
    while i < movies.len()
        invariant
            i <= movies.len(),
            views(r@) == director_names(movies@.take(i as int)),
        decreases movies.len() - i,
    {
        assert(movies@.take(i + 1).drop_last() =~= movies@.take(i as int));
        let ghost before = views(r@);
        match &movies[i].director {
            Some(d) => {
                r.push(d.name.clone());
                assert(views(r@) =~= before.push(d.name@));
            },
            None => {},
        }
        i += 1;
    }
    assert(movies@.take(movies.len() as int) =~= movies@);
    r
}

/// Every cast member's name, in movie and billing order.
fn collect_cast(movies: &Vec<FullMovie>) -> (r: Vec<String>)
    ensures
        views(r@) == cast_names(movies@),
{
    let mut r: Vec<String> = Vec::new();
    let mut i: usize = 0;
    while i < movies.len()
        invariant
            i <= movies.len(),
            views(r@) == cast_names(movies@.take(i as int)),
        decreases movies.len() - i,
    {
        assert(movies@.take(i + 1).drop_last() =~= movies@.take(i as int));
        let ghost base = views(r@);
        let mut k: usize = 0;
        while k < movies[i].actors.len()
            invariant
                i < movies.len(),
                k <= movies@[i as int].actors@.len(),
                views(r@) == base + actor_names(movies@[i as int]).take(k as int),
            decreases movies@[i as int].actors@.len() - k,
        {
            let ghost before = views(r@);
            r.push(movies[i].actors[k].name.clone());
            assert(actor_names(movies@[i as int])[k as int] == movies@[i as int].actors@[k as int].name@);
            assert(views(r@) =~= before.push(movies@[i as int].actors@[k as int].name@));
            assert(actor_names(movies@[i as int]).take(k + 1) =~= actor_names(movies@[i as int]).take(k as int).push(
                actor_names(movies@[i as int])[k as int],
            ));
            k += 1;
        }
        assert(actor_names(movies@[i as int]).take(movies@[i as int].actors@.len() as int) =~= actor_names(
            movies@[i as int],
        ));
        assert(movies@.take(i + 1).last() == movies@[i as int]);
        i += 1;
    }
    assert(movies@.take(movies.len() as int) =~= movies@);
    r
}

/// Every genre of every movie, in order.
fn collect_genres(movies: &Vec<FullMovie>) -> (r: Vec<String>)
    ensures
        views(r@) == all_genres(movies@),
{
    let mut r: Vec<String> = Vec::new();
    let mut i: usize = 0;
    while i < movies.len()
        invariant
            i <= movies.len(),
            views(r@) == all_genres(movies@.take(i as int)),
        decreases movies.len() - i,
    {
        assert(movies@.take(i + 1).drop_last() =~= movies@.take(i as int));
        let ghost base = views(r@);
        let mut k: usize = 0;
        while k < movies[i].genres.len()
            invariant
                i < movies.len(),
                k <= movies@[i as int].genres@.len(),
                views(r@) == base + views(movies@[i as int].genres@).take(k as int),
            decreases movies@[i as int].genres@.len() - k,
        {
            let ghost before = views(r@);
            r.push(movies[i].genres[k].clone());
            assert(views(r@) =~= before.push(movies@[i as int].genres@[k as int]@));
            assert(views(movies@[i as int].genres@).take(k + 1) =~= views(movies@[i as int].genres@).take(
                k as int,
            ).push(movies@[i as int].genres@[k as int]@));
            k += 1;
        }
        assert(views(movies@[i as int].genres@).take(movies@[i as int].genres@.len() as int) =~= views(
            movies@[i as int].genres@,
        ));
        assert(movies@.take(i + 1).last() == movies@[i as int]);
        i += 1;
    }
    assert(movies@.take(movies.len() as int) =~= movies@);
    r
}

/// Each distinct cast member's name, in order of first appearance.
pub fn distinct_cast(movies: &Vec<FullMovie>) -> (r: Vec<String>)
    ensures
        views(r@) == distinct(cast_names(movies@)),
{
    let (keys, _counts) = tally_names(&collect_cast(movies));
    keys
}

/// Each distinct director's name, in order of first appearance.
pub fn distinct_directors(movies: &Vec<FullMovie>) -> (r: Vec<String>)
    ensures
        views(r@) == distinct(director_names(movies@)),
{
    let (keys, _counts) = tally_names(&collect_directors(movies));
    keys
}

/// Each distinct genre, in order of first appearance.
pub fn distinct_genres(movies: &Vec<FullMovie>) -> (r: Vec<String>)
    ensures
        views(r@) == distinct(all_genres(movies@)),
{
    let (keys, _counts) = tally_names(&collect_genres(movies));
    keys
}

/// Distinct names in order of first occurrence.
fn distinct_names(xs: &Vec<String>) -> (r: usize)
    ensures
        r == distinct(views(xs@)).len(),
{
    let (keys, _counts) = tally_names(xs);
    assert(views(keys@).len() == keys@.len());
    keys.len()
}

/// The totals: how many movies, distinct director names and distinct
/// actor names the catalogue holds.
pub fn stats_overview(movies: &Vec<FullMovie>) -> (r: StatsOverview)
    ensures
        r.total_movies == movies@.len(),
        r.total_directors == director_names(movies@).to_set().len(),
        r.total_actors == cast_names(movies@).to_set().len(),
{
    let directors = collect_directors(movies);
    let cast = collect_cast(movies);
    let total_directors = distinct_names(&directors);
    let total_actors = distinct_names(&cast);
    proof {
        lemma_distinct_len_is_set_size(director_names(movies@));
        lemma_distinct_len_is_set_size(cast_names(movies@));
    }
    StatsOverview { total_movies: movies.len(), total_directors, total_actors }
}

/// The `n` most frequent names with their counts, most frequent first:
/// every listed name occurs that often, names are not repeated, and no
/// name left out occurs more often than any listed one.
pub open spec fn is_top_names(r: Seq<(String, usize)>, xs: Seq<Seq<char>>, n: int) -> bool {
    &&& r.len() == (if n < distinct(xs).len() { n } else { distinct(xs).len() as int })
    &&& forall|a: int| 0 <= a < r.len() ==> #[trigger] r[a].1 == count_of(xs, r[a].0@) && xs.contains(r[a].0@)
    &&& forall|a: int, b: int| 0 <= a < b < r.len() ==> r[a].0@ != r[b].0@ && r[a].1 >= r[b].1
    &&& forall|x: Seq<char>, a: int|
        #![trigger count_of(xs, x), r[a]]
        0 <= a < r.len() && xs.contains(x) && (forall|b: int| 0 <= b < r.len() ==> r[b].0@ != x) ==> count_of(xs, x)
            <= r[a].1
}

/// The `n` most frequent names of `xs` with their counts.
fn top_names(xs: &Vec<String>, n: usize) -> (r: Vec<(String, usize)>)
    ensures
        is_top_names(r@, views(xs@), n as int),
{
    let (keys, counts) = tally_names(xs);
    let picked = select_top(&counts, n);
    let mut r: Vec<(String, usize)> = Vec::new();
    let mut a: usize = 0;
    while a < picked.len()
        invariant
            a <= picked.len(),
            is_top(counts@, picked@),
            counts@.len() == keys@.len(),
            r@.len() == a,
            forall|b: int| 0 <= b < a ==> (#[trigger] r@[b]).0@ == keys@[picked@[b] as int]@ && r@[b].1 == counts@[picked@[b] as int],
        decreases picked.len() - a,
    {
        let k = picked[a];
        r.push((keys[k].clone(), counts[k]));
        a += 1;
    }
    proof {
        let ks = views(keys@);
        let d = distinct(views(xs@));
        lemma_distinct_props(views(xs@));
        assert(ks == d);
        assert forall|b: int| 0 <= b < r@.len() implies #[trigger] r@[b].1 == count_of(views(xs@), r@[b].0@) && views(xs@).contains(r@[b].0@) by {
            assert(ks[picked@[b] as int] == keys@[picked@[b] as int]@);
            assert(d.contains(ks[picked@[b] as int]));
        }
        assert forall|a1: int, b: int| 0 <= a1 < b < r@.len() implies r@[a1].0@ != r@[b].0@ && r@[a1].1 >= r@[b].1 by {
            assert(ks[picked@[a1] as int] == keys@[picked@[a1] as int]@);
            assert(ks[picked@[b] as int] == keys@[picked@[b] as int]@);
            assert(picked@[a1] != picked@[b]);
        }
        assert forall|x: Seq<char>, a1: int|
            #![trigger count_of(views(xs@), x), r@[a1]]
            0 <= a1 < r@.len() && views(xs@).contains(x) && (forall|b: int| 0 <= b < r@.len() ==> r@[b].0@ != x) implies count_of(views(xs@), x)
            <= r@[a1].1 by {
            assert(d.contains(x));
            let j = choose|j: int| 0 <= j < d.len() && d[j] == x;
            assert(ks[j] == keys@[j]@);
            assert(!picked@.contains(j as usize)) by {
                if picked@.contains(j as usize) {
                    let b = choose|b: int| 0 <= b < picked@.len() && picked@[b] == j as usize;
                    assert(r@[b].0@ == x);
                }
            }
            assert(counts@[j] <= counts@[picked@[a1] as int]);
        }
    }
    r
}

/// Genres shown in the distribution.
pub const TOP_GENRES: usize = 10;

/// Actors shown in the ranking.
pub const TOP_ACTORS: usize = 10;

/// Years shown in the chart.
pub const TOP_YEARS: usize = 15;

/// The ten most frequent genres with how many movies carry each, most
/// frequent first (the order among equal counts is not fixed).
pub fn stats_genres(movies: &Vec<FullMovie>) -> (r: Vec<(String, usize)>)
    ensures
        is_top_names(r@, all_genres(movies@), TOP_GENRES as int),
{
    top_names(&collect_genres(movies), TOP_GENRES)
}

/// The ten actors with the most movies, with their counts, most frequent
/// first (the order among equal counts is not fixed).
pub fn stats_top_actors(movies: &Vec<FullMovie>) -> (r: Vec<(String, usize)>)
    ensures
        is_top_names(r@, cast_names(movies@), TOP_ACTORS as int),
{
    top_names(&collect_cast(movies), TOP_ACTORS)
}

// ---------------------------------------------------------------------------
// Release years
// ---------------------------------------------------------------------------

/// Every known (positive) release year, in movie order.
fn collect_years(movies: &Vec<FullMovie>) -> (r: Vec<i32>)
    ensures
        r@ == known_years(movies@),
{
    let mut r: Vec<i32> = Vec::new();
    let mut i: usize = 0;
    while i < movies.len()
        invariant
            i <= movies.len(),
            r@ == known_years(movies@.take(i as int)),
        decreases movies.len() - i,
    {
        assert(movies@.take(i + 1).drop_last() =~= movies@.take(i as int));
        if movies[i].release_year > 0 {
            r.push(movies[i].release_year);
        }
        i += 1;
    }
    assert(movies@.take(movies.len() as int) =~= movies@);
    r
}

/// Distinct years and how often each occurs, in order of first occurrence.
fn tally_years(xs: &Vec<i32>) -> (r: (Vec<i32>, Vec<usize>))
    ensures
        r.0@ == distinct(xs@),
        r.1@.len() == r.0@.len(),
        forall|j: int| 0 <= j < r.1@.len() ==> #[trigger] r.1@[j] == count_of(xs@, r.0@[j]),
{
    let mut keys: Vec<i32> = Vec::new();
    let mut counts: Vec<usize> = Vec::new();
    let mut i: usize = 0;
    while i < xs.len()
        invariant
            i <= xs.len(),
            keys@ == distinct(xs@.take(i as int)),
            counts@.len() == keys@.len(),
            forall|j: int| 0 <= j < counts@.len() ==> #[trigger] counts@[j] == count_of(xs@.take(i as int), keys@[j]),
            forall|j: int| 0 <= j < counts@.len() ==> #[trigger] counts@[j] <= i,
        decreases xs.len() - i,
    {
        let ghost pre = xs@.take(i as int);
        let ghost post = xs@.take(i + 1);
        assert(post.drop_last() =~= pre);
        let mut j: usize = 0;
        let mut found = false;
        while !found && j < keys.len()
            invariant
                j <= keys.len(),
                i < xs.len(),
                found ==> j < keys.len() && keys@[j as int] == xs@[i as int],
                !found ==> forall|k: int| 0 <= k < j ==> keys@[k] != xs@[i as int],
            decreases keys.len() - j, (if found { 0int } else { 1int }),
        {
            if keys[j] == xs[i] {
                found = true;
            } else {
                j += 1;
            }
        }
        proof {
            lemma_distinct_props(pre);
        }
        if found {
            let c = counts[j];
            counts.set(j, c + 1);
            assert forall|k: int| 0 <= k < counts@.len() implies #[trigger] counts@[k] == count_of(post, keys@[k]) by {
                if k != j {
                    assert(distinct(pre)[k] != distinct(pre)[j as int]);
                }
            }
        } else {
            assert(!distinct(pre).contains(xs@[i as int]));
            keys.push(xs[i]);
            counts.push(1);
            assert forall|k: int| 0 <= k < counts@.len() implies #[trigger] counts@[k] == count_of(post, keys@[k]) by {
                if k == counts@.len() - 1 {
                    lemma_count_zero(pre, xs@[i as int]);
                }
            }
        }
        i += 1;
    }
    assert(xs@.take(xs.len() as int) =~= xs@);
    (keys, counts)
}

/// `p` in increasing order of year (the years are distinct).
fn order_by_year(p: &Vec<(i32, usize)>) -> (q: Vec<(i32, usize)>)
    requires
        forall|a: int, b: int| 0 <= a < b < p@.len() ==> p@[a].0 != p@[b].0,
    ensures
        q@.len() == p@.len(),
        forall|a: int, b: int| 0 <= a < b < q@.len() ==> q@[a].0 < q@[b].0,
        forall|a: int| 0 <= a < q@.len() ==> p@.contains(#[trigger] q@[a]),
        forall|a: int| 0 <= a < p@.len() ==> q@.contains(#[trigger] p@[a]),
{
    let mut q: Vec<(i32, usize)> = Vec::new();
    let mut taken: Vec<bool> = Vec::new();
    let ghost mut order: Seq<int> = Seq::empty();
    let mut t: usize = 0;
    while t < p.len()
        invariant
            t <= p.len(),
            taken@.len() == t,
            forall|k: int| 0 <= k < t ==> !(#[trigger] taken@[k]),
        decreases p.len() - t,
    {
        taken.push(false);
        t += 1;
    }
    while q.len() < p.len()
        invariant
            forall|a: int, b: int| 0 <= a < b < p@.len() ==> p@[a].0 != p@[b].0,
            taken@.len() == p@.len(),
            q@.len() <= p@.len(),
            order.len() == q@.len(),
            order.no_duplicates(),
            forall|a: int| 0 <= a < order.len() ==> 0 <= #[trigger] order[a] < p@.len() && q@[a] == p@[order[a]],
            forall|k: int| 0 <= k < p@.len() ==> (#[trigger] taken@[k] <==> order.contains(k)),
            forall|a: int, b: int| 0 <= a < b < q@.len() ==> q@[a].0 < q@[b].0,
            forall|k: int, a: int|
                #![trigger taken@[k], q@[a]]
                0 <= k < p@.len() && 0 <= a < q@.len() && !taken@[k] ==> q@[a].0 < p@[k].0,
        decreases p@.len() - q@.len(),
    {
        proof {
            if forall|k: int| 0 <= k < p@.len() ==> #[trigger] taken@[k] {
                let idx = Seq::new(p@.len(), |k: int| k);
                assert forall|k: int| 0 <= k < idx.len() implies order.contains(#[trigger] idx[k]) by {
                    assert(taken@[k]);
                }
                lemma_subset_len_int(idx, order);
                assert(false);
            }
        }
        let mut best: usize = 0;
        let mut has_best = false;
        let mut j: usize = 0;
        while j < p.len()
            invariant
                j <= p.len(),
                taken@.len() == p@.len(),
                has_best ==> best < j && !taken@[best as int],
                has_best ==> forall|k: int| 0 <= k < j && !taken@[k] ==> p@[best as int].0 <= p@[k].0,
                !has_best ==> forall|k: int| 0 <= k < j ==> taken@[k],
            decreases p.len() - j,
        {
            if !taken[j] && (!has_best || p[j].0 < p[best].0) {
                best = j;
                has_best = true;
            }
            j += 1;
        }
        assert(has_best);
        let ghost before = order;
        let ghost qb = q@;
        q.push(p[best]);
        taken.set(best, true);
        proof {
            order = order.push(best as int);
            assert(!before.contains(best as int));
            assert forall|k: int| 0 <= k < p@.len() implies (#[trigger] taken@[k] <==> order.contains(k)) by {
                if k == best as int {
                    assert(order[order.len() - 1] == k);
                } else {
                    if order.contains(k) {
                        let a = choose|a: int| 0 <= a < order.len() && order[a] == k;
                        assert(before[a] == k);
                    }
                    if before.contains(k) {
                        let a = choose|a: int| 0 <= a < before.len() && before[a] == k;
                        assert(order[a] == k);
                    }
                }
            }
            assert forall|a: int, b: int| 0 <= a < b < q@.len() implies q@[a].0 < q@[b].0 by {
                if b == q@.len() - 1 {
                    assert(q@[a] == qb[a]);
                }
            }
            assert forall|k: int, a: int|
                #![trigger taken@[k], q@[a]]
                0 <= k < p@.len() && 0 <= a < q@.len() && !taken@[k] implies q@[a].0 < p@[k].0 by {
                if a == q@.len() - 1 {
                    assert(k != best as int);
                } else {
                    assert(q@[a] == qb[a]);
                }
            }
            assert(order.no_duplicates()) by {
                assert forall|a: int, b: int| 0 <= a < order.len() && 0 <= b < order.len() && a != b implies order[a] != order[b] by {
                    if a == order.len() - 1 && b < before.len() {
                        assert(before[b] == order[b]);
                    }
                    if b == order.len() - 1 && a < before.len() {
                        assert(before[a] == order[a]);
                    }
                }
            }
        }
    }
    proof {
        assert forall|a: int| 0 <= a < q@.len() implies p@.contains(#[trigger] q@[a]) by {
            assert(p@[order[a]] == q@[a]);
        }
        assert forall|a: int| 0 <= a < p@.len() implies q@.contains(#[trigger] p@[a]) by {
            if !order.contains(a) {
                let idx = Seq::new(p@.len(), |k: int| k);
                assert forall|k: int| 0 <= k < order.len() implies idx.contains(#[trigger] order[k]) by {
                    assert(idx[order[k]] == order[k]);
                }
                // `order` has as many distinct entries as `p`, all of them
                // indices of `p`, so it contains every index.
                assert forall|k: int| 0 <= k < order.push(a).len() implies idx.contains(#[trigger] order.push(a)[k]) by {
                    if k < order.len() {
                        assert(order.push(a)[k] == order[k]);
                        assert(idx[order[k]] == order[k]);
                    } else {
                        assert(idx[a] == a);
                    }
                }
                lemma_subset_len_int(order.push(a), idx);
                assert(order.push(a).no_duplicates()) by {
                    assert forall|x: int, y: int| 0 <= x < order.push(a).len() && 0 <= y < order.push(a).len() && x != y implies order.push(a)[x] != order.push(a)[y] by {
                        if x == order.len() {
                            assert(order.contains(order[y]));
                        } else if y == order.len() {
                            assert(order.contains(order[x]));
                        }
                    }
                }
                assert(false);
            }
            let b = choose|b: int| 0 <= b < order.len() && order[b] == a;
            assert(q@[b] == p@[a]);
        }
    }
    q
}

/// Like `lemma_subset_len`, for sequences of integers.
proof fn lemma_subset_len_int(idx: Seq<int>, s: Seq<int>)
    requires
        idx.no_duplicates(),
        forall|k: int| 0 <= k < idx.len() ==> s.contains(#[trigger] idx[k]),
    ensures
        idx.len() <= s.len(),
{
    idx.unique_seq_to_set();
    s.lemma_cardinality_of_set();
    assert(idx.to_set().subset_of(s.to_set())) by {
        assert forall|x: int| idx.to_set().contains(x) implies s.to_set().contains(x) by {
            let k = choose|k: int| 0 <= k < idx.len() && idx[k] == x;
            assert(s.contains(idx[k]));
        }
    }
    vstd::set_lib::lemma_len_subset(idx.to_set(), s.to_set());
}

/// The years with the most movies (at most fifteen), in increasing order of
/// year, each with its number of movies: no year left out has more movies
/// than any listed one. Unknown years (zero or less) are not counted.
pub open spec fn is_top_years(r: Seq<(i32, usize)>, ys: Seq<i32>, n: int) -> bool {
    &&& r.len() == (if n < distinct(ys).len() { n } else { distinct(ys).len() as int })
    &&& forall|a: int| 0 <= a < r.len() ==> #[trigger] r[a].1 == count_of(ys, r[a].0) && ys.contains(r[a].0)
    &&& forall|a: int, b: int| 0 <= a < b < r.len() ==> r[a].0 < r[b].0
    &&& forall|y: i32, a: int|
        #![trigger count_of(ys, y), r[a]]
        0 <= a < r.len() && ys.contains(y) && (forall|b: int| 0 <= b < r.len() ==> r[b].0 != y) ==> count_of(ys, y)
            <= r[a].1
}

/// Only positive years are known, and a positive year occurs once per
/// movie released that year; a year of zero or below occurs nowhere.
pub proof fn lemma_known_years_counts(movies: Seq<FullMovie>, y: i32)
    ensures
        forall|i: int| 0 <= i < known_years(movies).len() ==> #[trigger] known_years(movies)[i] > 0,
        y > 0 ==> count_of(known_years(movies), y) == movies.filter(|m: FullMovie| m.release_year == y).len(),
        y <= 0 ==> count_of(known_years(movies), y) == 0,
    decreases movies.len(),
{
    let pred = |m: FullMovie| m.release_year == y;
    if movies.len() == 0 {
        assert(movies.filter(pred) =~= Seq::<FullMovie>::empty());
    } else {
        let init = movies.drop_last();
        lemma_known_years_counts(init, y);
        assert(movies =~= init.push(movies.last()));
        init.lemma_filter_push(movies.last(), pred);
        let rest = known_years(init);
        if movies.last().release_year > 0 {
            assert(known_years(movies) == rest.push(movies.last().release_year));
            assert(known_years(movies).drop_last() =~= rest);
            assert forall|i: int| 0 <= i < known_years(movies).len() implies #[trigger] known_years(movies)[i] > 0 by {
                if i < rest.len() {
                    assert(known_years(movies)[i] == rest[i]);
                }
            }
        }
    }
}

/// Every year listed in the chart is positive, and its count is the number
/// of movies released that year (movies with an unknown year of zero or
/// below count nowhere).
pub proof fn lemma_year_chart_counts(r: Seq<(i32, usize)>, movies: Seq<FullMovie>, n: int)
    requires
        is_top_years(r, known_years(movies), n),
    ensures
        forall|a: int|
            0 <= a < r.len() ==> #[trigger] r[a].0 > 0 && r[a].1 == movies.filter(
                |m: FullMovie| m.release_year == r[a].0,
            ).len(),
{
    let ys = known_years(movies);
    assert forall|a: int| 0 <= a < r.len() implies #[trigger] r[a].0 > 0 && r[a].1 == movies.filter(
        |m: FullMovie| m.release_year == r[a].0,
    ).len() by {
        lemma_known_years_counts(movies, r[a].0);
        assert(r[a].1 == count_of(ys, r[a].0));
        assert(ys.contains(r[a].0));
        let k = choose|k: int| 0 <= k < ys.len() && ys[k] == r[a].0;
        assert(ys[k] > 0);
    }
}

/// Movies per release year for the fifteen busiest years, in year order.
pub fn stats_movies_by_year(movies: &Vec<FullMovie>) -> (r: Vec<(i32, usize)>)
    ensures
        is_top_years(r@, known_years(movies@), TOP_YEARS as int),
{
    let ys = collect_years(movies);
    let (keys, counts) = tally_years(&ys);
    let picked = select_top(&counts, TOP_YEARS);
    let mut p: Vec<(i32, usize)> = Vec::new();
    let mut a: usize = 0;
    while a < picked.len()
        invariant
            a <= picked.len(),
            is_top(counts@, picked@),
            counts@.len() == keys@.len(),
            p@.len() == a,
            forall|b: int| 0 <= b < a ==> (#[trigger] p@[b]).0 == keys@[picked@[b] as int] && p@[b].1 == counts@[picked@[b] as int],
        decreases picked.len() - a,
    {
        let k = picked[a];
        p.push((keys[k], counts[k]));
        a += 1;
    }
    proof {
        lemma_distinct_props(ys@);
        assert forall|x: int, y: int| 0 <= x < y < p@.len() implies p@[x].0 != p@[y].0 by {
            assert(picked@[x] != picked@[y]);
        }
    }
    let q = order_by_year(&p);
    proof {
        let d = distinct(ys@);
        assert forall|b: int| 0 <= b < q@.len() implies #[trigger] q@[b].1 == count_of(ys@, q@[b].0) && ys@.contains(q@[b].0) by {
            let x = choose|x: int| 0 <= x < p@.len() && p@[x] == q@[b];
            assert(d.contains(keys@[picked@[x] as int]));
        }
        assert forall|y: i32, a1: int|
            #![trigger count_of(ys@, y), q@[a1]]
            0 <= a1 < q@.len() && ys@.contains(y) && (forall|b: int| 0 <= b < q@.len() ==> q@[b].0 != y) implies count_of(ys@, y)
            <= q@[a1].1 by {
            assert(d.contains(y));
            let j = choose|j: int| 0 <= j < d.len() && d[j] == y;
            assert(!picked@.contains(j as usize)) by {
                if picked@.contains(j as usize) {
                    let b = choose|b: int| 0 <= b < picked@.len() && picked@[b] == j as usize;
                    assert(p@[b].0 == y);
                    assert(q@.contains(p@[b]));
                    let c = choose|c: int| 0 <= c < q@.len() && q@[c] == p@[b];
                    assert(q@[c].0 == y);
                }
            }
            let x = choose|x: int| 0 <= x < p@.len() && p@[x] == q@[a1];
            assert(counts@[j] <= counts@[picked@[x] as int]);
        }
    }
    q
}

} // verus!
