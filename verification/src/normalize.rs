//! Title normalisation: punctuation stripping for comparisons and URL slugs.

use vstd::prelude::*;
use crate::text::{
    collapse_whitespace, collapse_whitespace_chars, from_chars, is_alphanumeric, join,
    lemma_words_nonempty_when_last_word, lemma_words_shape, replace_char, spec_is_alphanumeric,
    spec_is_whitespace, to_chars, words,
};
use crate::models::FullMovie;
use rand::RngExt;

verus! {

/// Every non-alphanumeric character replaced by a space.
pub open spec fn punctuation_to_spaces(s: Seq<char>) -> Seq<char> {
    s.map_values(|c: char| if spec_is_alphanumeric(c) { c } else { ' ' })
}

/// What `strip_punctuation` returns: non-alphanumeric characters become
/// spaces, then runs of whitespace collapse to one space and the ends are trimmed.
pub open spec fn stripped(s: Seq<char>) -> Seq<char> {
    collapse_whitespace(punctuation_to_spaces(s), seq![' '])
}

/// What `title_to_slug` returns: the words of the title joined by `_`,
/// then every `/` replaced by `-`.
pub open spec fn slug(title: Seq<char>) -> Seq<char> {
    replace_char(collapse_whitespace(title, seq!['_']), '/', '-')
}

/// Strips punctuation from a string for comparison purposes: replaces all
/// non-alphanumeric characters with spaces, then normalizes whitespace.
pub fn strip_punctuation(s: &str) -> (r: String)
    ensures
        r@ == stripped(s@),
{
    let chars = to_chars(s);
    let mut mapped: Vec<char> = Vec::new();
    let mut i: usize = 0;
    while i < chars.len()
        invariant
            chars@ == s@,
            i <= chars.len(),
            mapped@ == punctuation_to_spaces(s@).take(i as int),
        decreases chars.len() - i,
    {
        let c = chars[i];
        if is_alphanumeric(c) {
            mapped.push(c);
        } else {
            mapped.push(' ');
        }
        assert(mapped@ =~= punctuation_to_spaces(s@).take(i + 1));
        i += 1;
    }
    assert(mapped@ =~= punctuation_to_spaces(s@));
    let space = " ";
    proof {
        reveal_strlit(" ");
        assert(space@ =~= seq![' ']);
    }
    collapse_whitespace_chars(&mapped, space)
}

/// Converts a movie title to a URL slug: whitespace runs become `_` and
/// `/` becomes `-`.
pub fn title_to_slug(title: &str) -> (r: String)
    ensures
        r@ == slug(title@),
{
    let chars = to_chars(title);
    let underscore = "_";
    proof {
        reveal_strlit("_");
        assert(underscore@ =~= seq!['_']);
    }
    let joined = collapse_whitespace_chars(&chars, underscore);
    let jc = to_chars(joined.as_str());
    let mut out: Vec<char> = Vec::new();
    let mut i: usize = 0;
    while i < jc.len()
        invariant
            i <= jc.len(),
            out@ == replace_char(jc@, '/', '-').take(i as int),
        decreases jc.len() - i,
    {
        if jc[i] == '/' {
            out.push('-');
        } else {
            out.push(jc[i]);
        }
        assert(out@ =~= replace_char(jc@, '/', '-').take(i + 1));
        i += 1;
    }
    assert(out@ =~= replace_char(jc@, '/', '-'));
    from_chars(&out)
}

// ---------------------------------------------------------------------------
// Laws
// ---------------------------------------------------------------------------

/// Every character of a word of `s` occurs in `s`.
pub proof fn lemma_word_chars_in(s: Seq<char>)
    ensures
        forall|i: int, j: int|
            0 <= i < words(s).len() && 0 <= j < words(s)[i].len() ==> s.contains(
                #[trigger] words(s)[i][j],
            ),
    decreases s.len(),
{
    if s.len() > 0 {
        let p = s.drop_last();
        lemma_word_chars_in(p);
        let w = words(p);
        let c = s.last();
        let r = words(s);
        assert forall|i: int, j: int|
            0 <= i < r.len() && 0 <= j < r[i].len() implies s.contains(#[trigger] r[i][j]) by {
            if spec_is_whitespace(c) {
                assert(p.contains(r[i][j]));
                let k = choose|k: int| 0 <= k < p.len() && p[k] == r[i][j];
                assert(s[k] == p[k]);
            } else if s.len() >= 2 && !spec_is_whitespace(s[s.len() - 2]) {
                lemma_words_nonempty_when_last_word(p);
                if i < w.len() - 1 {
                    assert(r[i] == w[i]);
                    assert(p.contains(r[i][j]));
                    let k = choose|k: int| 0 <= k < p.len() && p[k] == r[i][j];
                    assert(s[k] == p[k]);
                } else if j < w.last().len() {
                    assert(r[i][j] == w[w.len() - 1][j]);
                    assert(p.contains(r[i][j]));
                    let k = choose|k: int| 0 <= k < p.len() && p[k] == r[i][j];
                    assert(s[k] == p[k]);
                } else {
                    assert(r[i][j] == c);
                    assert(s[s.len() - 1] == c);
                }
            } else {
                if i < w.len() {
                    assert(r[i] == w[i]);
                    assert(p.contains(r[i][j]));
                    let k = choose|k: int| 0 <= k < p.len() && p[k] == r[i][j];
                    assert(s[k] == p[k]);
                } else {
                    assert(r[i][j] == c);
                    assert(s[s.len() - 1] == c);
                }
            }
        }
    }
}

/// Appending a space and a word with no whitespace appends that word.
pub proof fn lemma_words_space_word(p: Seq<char>, t: Seq<char>)
    requires
        t.len() > 0,
        forall|k: int| 0 <= k < t.len() ==> !spec_is_whitespace(#[trigger] t[k]),
        spec_is_whitespace(' '),
    ensures
        words(p.push(' ') + t) == words(p).push(t),
    decreases t.len(),
{
    let q = p.push(' ');
    assert(q.drop_last() =~= p);
    assert(q.last() == ' ');
    assert(words(q) == words(p));
    if t.len() == 1 {
        let s = q + t;
        assert(s.drop_last() =~= q);
        assert(s.last() == t[0]);
        assert(s[s.len() - 2] == ' ');
        assert(words(s) == words(q).push(seq![t[0]]));
        assert(t =~= seq![t[0]]);
    } else {
        let t2 = t.drop_last();
        lemma_words_space_word(p, t2);
        assert((q + t).drop_last() =~= q + t2);
        assert((q + t)[(q + t).len() - 2] == t2.last());
        assert(words(p).push(t2).drop_last() =~= words(p));
        assert(t2.push(t.last()) =~= t);
    }
}

/// A word alone has itself as its only word.
pub proof fn lemma_words_single(t: Seq<char>)
    requires
        t.len() > 0,
        forall|k: int| 0 <= k < t.len() ==> !spec_is_whitespace(#[trigger] t[k]),
    ensures
        words(t) == seq![t],
    decreases t.len(),
{
    if t.len() == 1 {
        assert(t.drop_last() =~= Seq::<char>::empty());
        assert(words(t.drop_last()) == Seq::<Seq<char>>::empty());
        assert(!spec_is_whitespace(t.last()));
        assert(words(t) == Seq::<Seq<char>>::empty().push(seq![t[0]]));
        assert(t =~= seq![t[0]]);
    } else {
        let t2 = t.drop_last();
        lemma_words_single(t2);
        assert(!spec_is_whitespace(t[t.len() - 2]));
        assert(!spec_is_whitespace(t.last()));
        assert(t2.push(t.last()) =~= t);
        assert(seq![t2].drop_last() =~= Seq::<Seq<char>>::empty());
        assert(Seq::<Seq<char>>::empty().push(t2.push(t.last())) =~= seq![t]);
    }
}

/// Splitting words that were joined by a single space gives them back.
pub proof fn lemma_words_of_join(ws: Seq<Seq<char>>)
    requires
        spec_is_whitespace(' '),
        forall|i: int| 0 <= i < ws.len() ==> #[trigger] ws[i].len() > 0,
        forall|i: int, j: int|
            0 <= i < ws.len() && 0 <= j < ws[i].len() ==> !spec_is_whitespace(#[trigger] ws[i][j]),
    ensures
        words(join(ws, seq![' '])) == ws,
    decreases ws.len(),
{
    if ws.len() == 1 {
        assert forall|k: int| 0 <= k < ws[0].len() implies !spec_is_whitespace(#[trigger] ws[0][k]) by {}
        lemma_words_single(ws[0]);
        assert(seq![ws[0]] =~= ws);
    } else if ws.len() > 1 {
        let q = ws.drop_last();
        lemma_words_of_join(q);
        let t = ws.last();
        assert forall|k: int| 0 <= k < t.len() implies !spec_is_whitespace(#[trigger] t[k]) by {
            assert(t[k] == ws[ws.len() - 1][k]);
        }
        lemma_words_space_word(join(q, seq![' ']), t);
        assert(join(q, seq![' ']) + seq![' '] + t =~= join(q, seq![' ']).push(' ') + t);
        assert(q.push(t) =~= ws);
    } else {
        assert(ws =~= Seq::<Seq<char>>::empty());
    }
}

/// Stripping punctuation twice is the same as stripping it once.
pub proof fn lemma_strip_punctuation_idempotent(s: Seq<char>)
    requires
        spec_is_whitespace(' '),
    ensures
        stripped(stripped(s)) == stripped(s),
{
    let m = punctuation_to_spaces(s);
    let ws = words(m);
    let out = stripped(s);
    lemma_words_shape(m);
    lemma_word_chars_in(m);
    // every character of every word is alphanumeric
    assert forall|i: int, j: int| 0 <= i < ws.len() && 0 <= j < ws[i].len() implies
        spec_is_alphanumeric(#[trigger] ws[i][j]) by {
        assert(m.contains(ws[i][j]));
        let k = choose|k: int| 0 <= k < m.len() && m[k] == ws[i][j];
        assert(!spec_is_whitespace(m[k]));
    }
    lemma_join_chars(ws);
    assert(punctuation_to_spaces(out) =~= out);
    lemma_words_of_join(ws);
}

/// Every character of a space-join of alphanumeric words is alphanumeric or a space.
proof fn lemma_join_chars(ws: Seq<Seq<char>>)
    requires
        forall|i: int, j: int|
            0 <= i < ws.len() && 0 <= j < ws[i].len() ==> spec_is_alphanumeric(#[trigger] ws[i][j]),
    ensures
        forall|k: int| 0 <= k < join(ws, seq![' ']).len() ==> (spec_is_alphanumeric(
            #[trigger] join(ws, seq![' '])[k],
        ) || join(ws, seq![' '])[k] == ' '),
    decreases ws.len(),
{
    if ws.len() > 1 {
        let q = ws.drop_last();
        lemma_join_chars(q);
        let j = join(ws, seq![' ']);
        let jq = join(q, seq![' ']);
        let t = ws.last();
        assert forall|k: int| 0 <= k < j.len() implies (spec_is_alphanumeric(#[trigger] j[k]) || j[k]
            == ' ') by {
            if k < jq.len() {
                assert(j[k] == jq[k]);
            } else if k == jq.len() {
                assert(j[k] == ' ');
            } else {
                assert(j[k] == t[k - jq.len() - 1]);
                assert(t[k - jq.len() - 1] == ws[ws.len() - 1][k - jq.len() - 1]);
            }
        }
    } else if ws.len() == 1 {
        assert forall|k: int| 0 <= k < join(ws, seq![' ']).len() implies (spec_is_alphanumeric(
            #[trigger] join(ws, seq![' '])[k],
        ) || join(ws, seq![' '])[k] == ' ') by {
            assert(join(ws, seq![' '])[k] == ws[0][k]);
        }
    }
}

// ---------------------------------------------------------------------------
// A random pick
// ---------------------------------------------------------------------------

/// Calls `rand::rng().random_range(0..len)`: an index drawn from the thread's
/// generator, below `len` (the range is not empty, so the call does not
/// panic on it; it panics only if the system generator cannot seed the
/// thread's generator). Which index comes out is not stated.
#[verifier::external_body]
fn random_index(len: usize) -> (r: usize)
    requires
        len > 0,
    ensures
        r < len,
{
    rand::rng().random_range(0..len)
}

/// A movie of the list, picked at random. The list must not be empty.
pub fn get_random(movies: &[FullMovie]) -> (r: &FullMovie)
    requires
        movies@.len() > 0,
    ensures
        exists|i: int| 0 <= i < movies@.len() && *r == movies@[i],
{
    let i = random_index(movies.len());
    &movies[i]
}

} // verus!
