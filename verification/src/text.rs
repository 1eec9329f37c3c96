//! Character-level text primitives shared by the rest of the library:
//! whitespace splitting, joining, trimming, substring search and decimal
//! rendering, each stated over `Seq<char>`.

use vstd::prelude::*;

verus! {

broadcast use vstd::string::group_string_axioms;

// ---------------------------------------------------------------------------
// Character classes and case mapping (std, Unicode tables)
// ---------------------------------------------------------------------------

/// Whether `c` has the Unicode `White_Space` property (`char::is_whitespace`):
/// the ASCII tab, line feed, vertical tab, form feed, carriage return and
/// space, next line, no-break space, Ogham space mark, the spaces from en
/// quad to hair space, line and paragraph separator, narrow no-break space,
/// medium mathematical space and ideographic space.
pub open spec fn spec_is_whitespace(c: char) -> bool {
    let v = c as u32;
    ||| 0x09 <= v <= 0x0D
    ||| v == 0x20
    ||| v == 0x85
    ||| v == 0xA0
    ||| v == 0x1680
    ||| 0x2000 <= v <= 0x200A
    ||| v == 0x2028
    ||| v == 0x2029
    ||| v == 0x202F
    ||| v == 0x205F
    ||| v == 0x3000
}

/// Whether `c` is alphabetic or numeric in Unicode terms (`char::is_alphanumeric`).
pub uninterp spec fn spec_is_alphanumeric(c: char) -> bool;

/// The Unicode lowercase mapping of a whole string (`str::to_lowercase`).
pub uninterp spec fn spec_lowercase(s: Seq<char>) -> Seq<char>;

/// Whether `c` is an ASCII character.
pub open spec fn is_ascii_char(c: char) -> bool {
    (c as u32) < 0x80
}

/// Whether `c` is an ASCII digit or letter.
pub open spec fn is_ascii_alnum(c: char) -> bool {
    ||| '0' <= c <= '9'
    ||| 'A' <= c <= 'Z'
    ||| 'a' <= c <= 'z'
}

/// The ASCII lowercase of `c`: `A`..`Z` become `a`..`z`, anything else stays.
pub open spec fn ascii_lower(c: char) -> char {
    if 0x41 <= (c as u32) <= 0x5A {
        ((c as u32) + 32) as char
    } else {
        c
    }
}

/// Whether `c` has the Unicode `White_Space` property, as
/// `char::is_whitespace` tells.
pub(crate) fn is_whitespace(c: char) -> (r: bool)
    ensures
        r == spec_is_whitespace(c),
{
    let v = c as u32;
    (0x09 <= v && v <= 0x0D) || v == 0x20 || v == 0x85 || v == 0xA0 || v == 0x1680 || (0x2000 <= v && v
        <= 0x200A) || v == 0x2028 || v == 0x2029 || v == 0x202F || v == 0x205F || v == 0x3000
}

/// Calls `char::is_alphanumeric`; the result is named by
/// `spec_is_alphanumeric`. Among ASCII characters exactly the digits and
/// letters are alphabetic or numeric.
#[verifier::external_body]
pub(crate) fn is_alphanumeric(c: char) -> (r: bool)
    ensures
        r == spec_is_alphanumeric(c),
        is_ascii_char(c) ==> (r <==> is_ascii_alnum(c)),
{
    c.is_alphanumeric()
}

/// Calls `str::to_lowercase`; the result is named by `spec_lowercase`. On
/// ASCII text the Unicode lowercase mapping lowers `A`..`Z` one for one and
/// keeps every other character.
#[verifier::external_body]
pub(crate) fn to_lowercase(s: &str) -> (r: String)
    ensures
        r@ == spec_lowercase(s@),
        (forall|i: int| 0 <= i < s@.len() ==> is_ascii_char(#[trigger] s@[i])) ==> r@ == s@.map_values(
            |c: char| ascii_lower(c),
        ),
{
    s.to_lowercase()
}

/// Calls `String::push`, which appends one character.
#[verifier::external_body]
pub(crate) fn push_char(s: &mut String, c: char)
    ensures
        final(s)@ == old(s)@.push(c),
{
    s.push(c)
}

// ---------------------------------------------------------------------------
// Specifications
// ---------------------------------------------------------------------------

/// The views of a sequence of strings.
pub open spec fn views(v: Seq<String>) -> Seq<Seq<char>> {
    v.map_values(|s: String| s@)
}

/// The maximal runs of non-whitespace characters of `s`, left to right
/// (the words that `str::split_whitespace` yields).
pub open spec fn words(s: Seq<char>) -> Seq<Seq<char>>
    decreases s.len(),
{
    if s.len() == 0 {
        Seq::empty()
    } else {
        let w = words(s.drop_last());
        let c = s.last();
        if spec_is_whitespace(c) {
            w
        } else if s.len() >= 2 && !spec_is_whitespace(s[s.len() - 2]) {
            w.drop_last().push(w.last().push(c))
        } else {
            w.push(seq![c])
        }
    }
}

/// The parts concatenated with `sep` between consecutive parts.
pub open spec fn join(parts: Seq<Seq<char>>, sep: Seq<char>) -> Seq<char>
    decreases parts.len(),
{
    if parts.len() == 0 {
        Seq::empty()
    } else if parts.len() == 1 {
        parts[0]
    } else {
        join(parts.drop_last(), sep) + sep + parts.last()
    }
}

/// The words of `s` joined by `sep`: whitespace runs collapsed into `sep`,
/// leading and trailing whitespace dropped.
pub open spec fn collapse_whitespace(s: Seq<char>, sep: Seq<char>) -> Seq<char> {
    join(words(s), sep)
}

/// `s` with every character equal to `from` replaced by `to`.
pub open spec fn replace_char(s: Seq<char>, from: char, to: char) -> Seq<char> {
    s.map_values(|c: char| if c == from { to } else { c })
}

/// Whether `needle` occurs in `hay` starting at position `i`.
pub open spec fn occurs_at(hay: Seq<char>, needle: Seq<char>, i: int) -> bool {
    0 <= i && i + needle.len() <= hay.len() && hay.subrange(i, i + needle.len()) == needle
}

/// Whether `needle` occurs anywhere in `hay` (`str::contains`).
pub open spec fn contains_seq(hay: Seq<char>, needle: Seq<char>) -> bool {
    exists|i: int| occurs_at(hay, needle, i)
}

/// Whether `hay` starts with `prefix`.
pub open spec fn has_prefix(hay: Seq<char>, prefix: Seq<char>) -> bool {
    prefix.len() <= hay.len() && hay.subrange(0, prefix.len() as int) == prefix
}

/// Whether `hay` ends with `suffix`.
pub open spec fn has_suffix(hay: Seq<char>, suffix: Seq<char>) -> bool {
    suffix.len() <= hay.len() && hay.subrange(hay.len() - suffix.len(), hay.len() as int)
        == suffix
}

/// Number of leading whitespace characters of `s`.
pub open spec fn leading_ws(s: Seq<char>) -> nat
    decreases s.len(),
{
    if s.len() > 0 && spec_is_whitespace(s[0]) {
        1 + leading_ws(s.drop_first())
    } else {
        0
    }
}

/// Number of trailing whitespace characters of `s`.
pub open spec fn trailing_ws(s: Seq<char>) -> nat
    decreases s.len(),
{
    if s.len() > 0 && spec_is_whitespace(s.last()) {
        1 + trailing_ws(s.drop_last())
    } else {
        0
    }
}

/// `s` without leading and trailing whitespace (`str::trim`).
pub open spec fn trim(s: Seq<char>) -> Seq<char> {
    let l = leading_ws(s);
    if l == s.len() {
        Seq::empty()
    } else {
        s.subrange(l as int, s.len() - trailing_ws(s))
    }
}

/// The decimal digit character for `d < 10`.
pub open spec fn digit_char(d: nat) -> char {
    if d == 0 {
        '0'
    } else if d == 1 {
        '1'
    } else if d == 2 {
        '2'
    } else if d == 3 {
        '3'
    } else if d == 4 {
        '4'
    } else if d == 5 {
        '5'
    } else if d == 6 {
        '6'
    } else if d == 7 {
        '7'
    } else if d == 8 {
        '8'
    } else {
        '9'
    }
}

/// Decimal rendering of a natural number, without leading zeros.
pub open spec fn decimal(n: nat) -> Seq<char>
    decreases n,
{
    if n < 10 {
        seq![digit_char(n)]
    } else {
        decimal(n / 10).push(digit_char(n % 10))
    }
}

/// Decimal rendering of an integer, with a leading `-` when negative
/// (what `Display` prints for Rust integers).
pub open spec fn int_decimal(n: int) -> Seq<char> {
    if n < 0 {
        seq!['-'] + decimal((-n) as nat)
    } else {
        decimal(n as nat)
    }
}

// ---------------------------------------------------------------------------
// Lemmas
// ---------------------------------------------------------------------------

/// Appending one part extends the join by the separator and that part.
pub proof fn lemma_join_push(parts: Seq<Seq<char>>, sep: Seq<char>, x: Seq<char>)
    ensures
        join(parts.push(x), sep) == if parts.len() == 0 {
            x
        } else {
            join(parts, sep) + sep + x
        },
{
    assert(parts.push(x).drop_last() =~= parts);
    if parts.len() == 0 {
        assert(parts.push(x)[0] == x);
    }
}

/// Extending the last part by one character extends the join by it.
pub proof fn lemma_join_extend_last(parts: Seq<Seq<char>>, sep: Seq<char>, c: char)
    requires
        parts.len() > 0,
    ensures
        join(parts.drop_last().push(parts.last().push(c)), sep) == join(parts, sep).push(c),
{
    let q = parts.drop_last();
    lemma_join_push(q, sep, parts.last().push(c));
    lemma_join_push(q, sep, parts.last());
    assert(q.push(parts.last()) =~= parts);
    if q.len() > 0 {
        assert(join(q, sep) + sep + parts.last().push(c) =~= (join(q, sep) + sep + parts.last()).push(c));
    }
}

/// Every word is non-empty and holds no whitespace.
pub proof fn lemma_words_shape(s: Seq<char>)
    ensures
        forall|i: int| 0 <= i < words(s).len() ==> #[trigger] words(s)[i].len() > 0,
        forall|i: int, j: int|
            0 <= i < words(s).len() && 0 <= j < words(s)[i].len() ==> !spec_is_whitespace(
                #[trigger] words(s)[i][j],
            ),
    decreases s.len(),
{
    if s.len() > 0 {
        lemma_words_shape(s.drop_last());
        let w = words(s.drop_last());
        let c = s.last();
        if !spec_is_whitespace(c) && s.len() >= 2 && !spec_is_whitespace(s[s.len() - 2]) {
            lemma_words_nonempty_when_last_word(s.drop_last());
            let r = words(s);
            assert forall|i: int, j: int|
                0 <= i < r.len() && 0 <= j < r[i].len() implies !spec_is_whitespace(
                #[trigger] r[i][j],
            ) by {
                if i < w.len() - 1 {
                    assert(r[i] == w[i]);
                } else {
                    assert(r[i] == w.last().push(c));
                    if j < w.last().len() {
                        assert(r[i][j] == w[w.len() - 1][j]);
                    }
                }
            }
        }
    }
}

/// A non-empty text ending in a non-whitespace character has at least one word.
pub proof fn lemma_words_nonempty_when_last_word(s: Seq<char>)
    requires
        s.len() > 0,
        !spec_is_whitespace(s.last()),
    ensures
        words(s).len() > 0,
    decreases s.len(),
{
}

// ---------------------------------------------------------------------------
// Executable operations
// ---------------------------------------------------------------------------

/// The characters of a string slice, in order.
pub fn to_chars(s: &str) -> (v: Vec<char>)
    ensures
        v@ == s@,
{
    let mut v: Vec<char> = Vec::new();
    for c in it: s.chars()
        invariant
            it.seq() == s@,
            v@ == it.seq().take(it.index() as int),
    {
        v.push(c);
    }
    v
}

/// Appends every character of `v[from..to]` to `out`.
pub fn push_chars(out: &mut String, v: &Vec<char>, from: usize, to: usize)
    requires
        from <= to <= v.len(),
    ensures
        final(out)@ == old(out)@ + v@.subrange(from as int, to as int),
{
    let mut i = from;
    while i < to
        invariant
            from <= i <= to <= v.len(),
            out@ == old(out)@ + v@.subrange(from as int, i as int),
        decreases to - i,
    {
        push_char(out, v[i]);
        assert(v@.subrange(from as int, i + 1) =~= v@.subrange(from as int, i as int).push(v@[i as int]));
        i += 1;
    }
}

/// A string holding the characters of `v`.
pub fn from_chars(v: &Vec<char>) -> (s: String)
    ensures
        s@ == v@,
{
    let mut s = String::new();
    push_chars(&mut s, v, 0, v.len());
    assert(v@.subrange(0, v.len() as int) =~= v@);
    s
}

/// Splits on Unicode whitespace and drops empty pieces (`str::split_whitespace`).
pub fn split_whitespace(s: &str) -> (r: Vec<String>)
    ensures
        views(r@) == words(s@),
{
    let chars = to_chars(s);
    let mut out: Vec<String> = Vec::new();
    let mut cur = String::new();
    let mut in_word = false;
    let mut i: usize = 0;
    while i < chars.len()
        invariant
            chars@ == s@,
            i <= chars.len(),
            in_word <==> cur@.len() > 0,
            words(s@.take(i as int)) == views(out@) + if in_word {
                seq![cur@]
            } else {
                Seq::empty()
            },
            in_word <==> (i > 0 && !spec_is_whitespace(s@[i - 1])),
        decreases chars.len() - i,
    {
        let c = chars[i];
        let ghost prev = words(s@.take(i as int));
        assert(s@.take(i + 1).drop_last() =~= s@.take(i as int));
        if is_whitespace(c) {
            if in_word {
                let ghost before = out@;
                let ghost done_view = cur@;
                out.push(cur);
                cur = String::new();
                in_word = false;
                assert(views(out@) =~= views(before).push(done_view));
                assert(views(out@) + Seq::<Seq<char>>::empty() =~= views(out@));
            } else {
                assert(views(out@) + Seq::<Seq<char>>::empty() =~= views(out@));
            }
        } else {
            if in_word {
                assert(prev.drop_last() =~= views(out@));
            } else {
                assert(views(out@) + Seq::<Seq<char>>::empty() =~= views(out@));
            }
            let ghost old_cur = cur@;
            let was_in = in_word;
            push_char(&mut cur, c);
            in_word = true;
            if was_in {
                assert(prev.last() == old_cur);
                assert(words(s@.take(i + 1)) == prev.drop_last().push(old_cur.push(c)));
                assert(prev.drop_last().push(old_cur.push(c)) =~= views(out@) + seq![cur@]);
            } else {
                assert(old_cur.push(c) =~= seq![c]);
                assert(words(s@.take(i + 1)) == prev.push(seq![c]));
                assert(prev.push(seq![c]) =~= views(out@) + seq![cur@]);
            }
        }
        i += 1;
    }
    assert(s@.take(chars.len() as int) =~= s@);
    if in_word {
        let ghost before = out@;
        let ghost last = cur@;
        out.push(cur);
        assert(views(out@) =~= views(before).push(last));
    } else {
        assert(views(out@) + Seq::<Seq<char>>::empty() =~= views(out@));
    }
    out
}

/// Concatenates `parts` with `sep` between consecutive parts (`[String]::join`).
pub fn join_strings(parts: &Vec<String>, sep: &str) -> (r: String)
    ensures
        r@ == join(views(parts@), sep@),
{
    let mut r = String::new();
    let mut i: usize = 0;
    while i < parts.len()
        invariant
            i <= parts.len(),
            r@ == join(views(parts@.take(i as int)), sep@),
        decreases parts.len() - i,
    {
        proof {
            assert(views(parts@.take(i + 1)) =~= views(parts@.take(i as int)).push(parts@[i as int]@));
            lemma_join_push(views(parts@.take(i as int)), sep@, parts@[i as int]@);
        }
        if i > 0 {
            r.append(sep);
        }
        r.append(parts[i].as_str());
        i += 1;
    }
    assert(parts@.take(parts.len() as int) =~= parts@);
    r
}

/// Collapses whitespace runs of `s` into `sep` and drops leading and
/// trailing whitespace, in one pass.
pub fn collapse_whitespace_chars(s: &Vec<char>, sep: &str) -> (r: String)
    ensures
        r@ == collapse_whitespace(s@, sep@),
{
    let mut r = String::new();
    let mut any_word = false;
    let mut in_word = false;
    let mut i: usize = 0;
    while i < s.len()
        invariant
            i <= s.len(),
            r@ == join(words(s@.take(i as int)), sep@),
            any_word <==> words(s@.take(i as int)).len() > 0,
            in_word <==> (i > 0 && !spec_is_whitespace(s@[i - 1])),
        decreases s.len() - i,
    {
        let c = s[i];
        let ghost prev = words(s@.take(i as int));
        assert(s@.take(i + 1).drop_last() =~= s@.take(i as int));
        if is_whitespace(c) {
            in_word = false;
        } else {
            if in_word {
                proof {
                    lemma_words_nonempty_when_last_word(s@.take(i as int));
                    lemma_join_extend_last(prev, sep@, c);
                }
            } else {
                proof {
                    lemma_join_push(prev, sep@, seq![c]);
                }
                if any_word {
                    r.append(sep);
                }
            }
            push_char(&mut r, c);
            in_word = true;
            any_word = true;
        }
        i += 1;
    }
    assert(s@.take(s.len() as int) =~= s@);
    r
}

/// Index of the first occurrence of `c` in `s`, if any (`str::find` counted in characters).
pub open spec fn first_index(s: Seq<char>, c: char) -> Option<int>
    decreases s.len(),
{
    if s.len() == 0 {
        None
    } else if s[0] == c {
        Some(0)
    } else {
        match first_index(s.drop_first(), c) {
            Some(i) => Some(i + 1),
            None => None,
        }
    }
}

/// Index of the last occurrence of `c` in `s`, if any (`str::rfind` counted in characters).
pub open spec fn last_index(s: Seq<char>, c: char) -> Option<int>
    decreases s.len(),
{
    if s.len() == 0 {
        None
    } else if s.last() == c {
        Some(s.len() - 1)
    } else {
        last_index(s.drop_last(), c)
    }
}

/// Position `i` of `v[lo..hi]` is the first occurrence of `c` there.
pub proof fn lemma_first_index_at(s: Seq<char>, c: char, i: int)
    requires
        0 <= i < s.len(),
        s[i] == c,
        forall|k: int| 0 <= k < i ==> s[k] != c,
    ensures
        first_index(s, c) == Some(i),
    decreases i,
{
    if i > 0 {
        lemma_first_index_at(s.drop_first(), c, i - 1);
    }
}

/// No occurrence of `c` gives `None`.
pub proof fn lemma_first_index_none(s: Seq<char>, c: char)
    requires
        forall|k: int| 0 <= k < s.len() ==> s[k] != c,
    ensures
        first_index(s, c) is None,
    decreases s.len(),
{
    if s.len() > 0 {
        lemma_first_index_none(s.drop_first(), c);
    }
}

/// Position `i` is the last occurrence of `c` in `s`.
pub proof fn lemma_last_index_at(s: Seq<char>, c: char, i: int)
    requires
        0 <= i < s.len(),
        s[i] == c,
        forall|k: int| i < k < s.len() ==> s[k] != c,
    ensures
        last_index(s, c) == Some(i),
    decreases s.len(),
{
    if i < s.len() - 1 {
        lemma_last_index_at(s.drop_last(), c, i);
    }
}

/// No occurrence of `c` gives `None`.
pub proof fn lemma_last_index_none(s: Seq<char>, c: char)
    requires
        forall|k: int| 0 <= k < s.len() ==> s[k] != c,
    ensures
        last_index(s, c) is None,
    decreases s.len(),
{
    if s.len() > 0 {
        lemma_last_index_none(s.drop_last(), c);
    }
}

/// What `first_index` returns is the position of the first `c`.
pub proof fn lemma_first_index_props(s: Seq<char>, c: char)
    ensures
        match first_index(s, c) {
            Some(i) => 0 <= i < s.len() && s[i] == c && forall|k: int| 0 <= k < i ==> s[k] != c,
            None => forall|k: int| 0 <= k < s.len() ==> s[k] != c,
        },
    decreases s.len(),
{
    if s.len() > 0 {
        lemma_first_index_props(s.drop_first(), c);
        if s[0] != c {
            match first_index(s.drop_first(), c) {
                Some(i) => {
                    assert forall|k: int| 0 <= k < i + 1 implies s[k] != c by {
                        if k > 0 {
                            assert(s[k] == s.drop_first()[k - 1]);
                        }
                    }
                },
                None => {
                    assert forall|k: int| 0 <= k < s.len() implies s[k] != c by {
                        if k > 0 {
                            assert(s[k] == s.drop_first()[k - 1]);
                        }
                    }
                },
            }
        }
    }
}

/// What `last_index` returns is the position of the last `c`.
pub proof fn lemma_last_index_props(s: Seq<char>, c: char)
    ensures
        match last_index(s, c) {
            Some(i) => 0 <= i < s.len() && s[i] == c && forall|k: int| i < k < s.len() ==> s[k] != c,
            None => forall|k: int| 0 <= k < s.len() ==> s[k] != c,
        },
    decreases s.len(),
{
    if s.len() > 0 {
        lemma_last_index_props(s.drop_last(), c);
        if s.last() != c {
            match last_index(s.drop_last(), c) {
                Some(i) => {
                    assert(s[i] == s.drop_last()[i]);
                    assert forall|k: int| i < k < s.len() implies s[k] != c by {
                        if k < s.len() - 1 {
                            assert(s[k] == s.drop_last()[k]);
                        }
                    }
                },
                None => {
                    assert forall|k: int| 0 <= k < s.len() implies s[k] != c by {
                        if k < s.len() - 1 {
                            assert(s[k] == s.drop_last()[k]);
                        }
                    }
                },
            }
        }
    }
}

/// The first occurrence of `c` in `v[lo..hi]`, as an index into `v`.
pub fn find_char(v: &Vec<char>, lo: usize, hi: usize, c: char) -> (r: Option<usize>)
    requires
        lo <= hi <= v.len(),
    ensures
        match r {
            Some(i) => lo <= i < hi && first_index(v@.subrange(lo as int, hi as int), c) == Some(
                i - lo,
            ),
            None => first_index(v@.subrange(lo as int, hi as int), c) is None,
        },
{
    let mut i = lo;
    while i < hi
        invariant
            lo <= i <= hi <= v.len(),
            forall|k: int| lo <= k < i ==> v@[k] != c,
        decreases hi - i,
    {
        if v[i] == c {
            proof {
                lemma_first_index_at(v@.subrange(lo as int, hi as int), c, i - lo);
            }
            return Some(i);
        }
        i += 1;
    }
    proof {
        lemma_first_index_none(v@.subrange(lo as int, hi as int), c);
    }
    None
}

/// The last occurrence of `c` in `v[lo..hi]`, as an index into `v`.
pub fn rfind_char(v: &Vec<char>, lo: usize, hi: usize, c: char) -> (r: Option<usize>)
    requires
        lo <= hi <= v.len(),
    ensures
        match r {
            Some(i) => lo <= i < hi && last_index(v@.subrange(lo as int, hi as int), c) == Some(
                i - lo,
            ),
            None => last_index(v@.subrange(lo as int, hi as int), c) is None,
        },
{
    let mut i = hi;
    while i > lo
        invariant
            lo <= i <= hi <= v.len(),
            forall|k: int| i <= k < hi ==> v@[k] != c,
        decreases i - lo,
    {
        if v[i - 1] == c {
            proof {
                lemma_last_index_at(v@.subrange(lo as int, hi as int), c, i - 1 - lo);
            }
            return Some(i - 1);
        }
        i -= 1;
    }
    proof {
        lemma_last_index_none(v@.subrange(lo as int, hi as int), c);
    }
    None
}

/// Bounds of `v[lo..hi]` with leading and trailing whitespace removed.
pub fn trim_bounds(v: &Vec<char>, lo: usize, hi: usize) -> (r: (usize, usize))
    requires
        lo <= hi <= v.len(),
    ensures
        lo <= r.0 <= r.1 <= hi,
        v@.subrange(r.0 as int, r.1 as int) == trim(v@.subrange(lo as int, hi as int)),
{
    let ghost s = v@.subrange(lo as int, hi as int);
    let mut a = lo;
    while a < hi && is_whitespace(v[a])
        invariant
            lo <= a <= hi <= v.len(),
            s == v@.subrange(lo as int, hi as int),
            leading_ws(s) == (a - lo) + leading_ws(v@.subrange(a as int, hi as int)),
        decreases hi - a,
    {
        assert(v@.subrange(a as int, hi as int).drop_first() =~= v@.subrange(a + 1, hi as int));
        a += 1;
    }
    if a == hi {
        assert(v@.subrange(a as int, hi as int).len() == 0);
        assert(v@.subrange(hi as int, hi as int) =~= Seq::<char>::empty());
        return (hi, hi);
    }
    let mut b = hi;
    while b > a && is_whitespace(v[b - 1])
        invariant
            lo <= a < b <= hi <= v.len(),
            !spec_is_whitespace(v@[a as int]),
            s == v@.subrange(lo as int, hi as int),
            trailing_ws(s) == (hi - b) + trailing_ws(v@.subrange(lo as int, b as int)),
        decreases b - a,
    {
        assert(v@.subrange(lo as int, b as int).drop_last() =~= v@.subrange(lo as int, b - 1));
        assert(b - 1 != a);
        b -= 1;
    }
    assert(leading_ws(v@.subrange(a as int, hi as int)) == 0);
    assert(b > a);
    assert(trailing_ws(v@.subrange(lo as int, b as int)) == 0);
    assert(s.subrange(a - lo, s.len() - trailing_ws(s)) =~= v@.subrange(a as int, b as int));
    (a, b)
}

/// Whether `v[lo..hi]` starts with `pat`.
pub fn starts_with_at(v: &Vec<char>, lo: usize, hi: usize, pat: &str) -> (r: bool)
    requires
        lo <= hi <= v.len(),
    ensures
        r == has_prefix(v@.subrange(lo as int, hi as int), pat@),
{
    let p = to_chars(pat);
    if p.len() > hi - lo {
        return false;
    }
    let mut k: usize = 0;
    while k < p.len()
        invariant
            p@ == pat@,
            p.len() <= hi - lo,
            lo <= hi <= v.len(),
            k <= p.len(),
            forall|j: int| 0 <= j < k ==> v@[lo + j] == p@[j],
        decreases p.len() - k,
    {
        if v[lo + k] != p[k] {
            assert(v@.subrange(lo as int, hi as int).subrange(0, p.len() as int)[k as int] != p@[k as int]);
            return false;
        }
        k += 1;
    }
    assert(v@.subrange(lo as int, hi as int).subrange(0, p.len() as int) =~= p@);
    true
}

/// Whether `v[lo..hi]` ends with `pat`.
pub fn ends_with_at(v: &Vec<char>, lo: usize, hi: usize, pat: &str) -> (r: bool)
    requires
        lo <= hi <= v.len(),
    ensures
        r == has_suffix(v@.subrange(lo as int, hi as int), pat@),
{
    let p = to_chars(pat);
    if p.len() > hi - lo {
        return false;
    }
    let start = hi - p.len();
    let mut k: usize = 0;
    while k < p.len()
        invariant
            p@ == pat@,
            p.len() <= hi - lo,
            start == hi - p.len(),
            lo <= hi <= v.len(),
            k <= p.len(),
            forall|j: int| 0 <= j < k ==> v@[start + j] == p@[j],
        decreases p.len() - k,
    {
        if v[start + k] != p[k] {
            let ghost s = v@.subrange(lo as int, hi as int);
            assert(s.subrange(s.len() - p.len(), s.len() as int)[k as int] != p@[k as int]);
            return false;
        }
        k += 1;
    }
    let ghost s = v@.subrange(lo as int, hi as int);
    assert(s.subrange(s.len() - p.len(), s.len() as int) =~= p@);
    true
}

/// A string holding `v[lo..hi]`.
pub fn substring(v: &Vec<char>, lo: usize, hi: usize) -> (s: String)
    requires
        lo <= hi <= v.len(),
    ensures
        s@ == v@.subrange(lo as int, hi as int),
{
    let mut s = String::new();
    push_chars(&mut s, v, lo, hi);
    s
}

/// Whether `needle` occurs in `hay` at position `i` (exec).
pub fn occurs_at_exec(hay: &Vec<char>, needle: &Vec<char>, i: usize) -> (r: bool)
    requires
        i <= hay.len(),
    ensures
        r == occurs_at(hay@, needle@, i as int),
{
    if needle.len() > hay.len() - i {
        return false;
    }
    let mut k: usize = 0;
    while k < needle.len()
        invariant
            i <= hay.len(),
            needle.len() <= hay.len() - i,
            k <= needle.len(),
            forall|j: int| 0 <= j < k ==> hay@[i + j] == needle@[j],
        decreases needle.len() - k,
    {
        if hay[i + k] != needle[k] {
            assert(hay@.subrange(i as int, i + needle.len())[k as int] != needle@[k as int]);
            return false;
        }
        k += 1;
    }
    assert(hay@.subrange(i as int, i + needle.len()) =~= needle@);
    true
}

/// Whether `needle` occurs anywhere in `hay` (`str::contains`).
pub fn contains_chars(hay: &Vec<char>, needle: &Vec<char>) -> (r: bool)
    ensures
        r == contains_seq(hay@, needle@),
{
    let mut i: usize = 0;
    while i < hay.len()
        invariant
            i <= hay.len(),
            forall|j: int| 0 <= j < i ==> !occurs_at(hay@, needle@, j),
        decreases hay.len() - i,
    {
        if occurs_at_exec(hay, needle, i) {
            return true;
        }
        i += 1;
    }
    if occurs_at_exec(hay, needle, hay.len()) {
        return true;
    }
    assert forall|j: int| !occurs_at(hay@, needle@, j) by {
        if 0 <= j && j < hay.len() {
        } else if j == hay.len() {
        }
    }
    false
}

/// Whether `needle` occurs anywhere in `hay`.
pub fn contains_str(hay: &str, needle: &str) -> (r: bool)
    ensures
        r == contains_seq(hay@, needle@),
{
    let h = to_chars(hay);
    let n = to_chars(needle);
    contains_chars(&h, &n)
}

/// Whether `hay` starts with `prefix`.
pub fn starts_with_str(hay: &str, prefix: &str) -> (r: bool)
    ensures
        r == has_prefix(hay@, prefix@),
{
    let h = to_chars(hay);
    assert(h@.subrange(0, h.len() as int) =~= h@);
    starts_with_at(&h, 0, h.len(), prefix)
}

/// Whether `hay` ends with `suffix`.
pub fn ends_with_str(hay: &str, suffix: &str) -> (r: bool)
    ensures
        r == has_suffix(hay@, suffix@),
{
    let h = to_chars(hay);
    assert(h@.subrange(0, h.len() as int) =~= h@);
    ends_with_at(&h, 0, h.len(), suffix)
}

/// `s` with every leftmost non-overlapping occurrence of `pat` replaced by
/// `rep` (`str::replace`); an empty pattern leaves `s` unchanged here, which
/// is what `str::replace` does when the replacement is empty too.
pub open spec fn replace_all(s: Seq<char>, pat: Seq<char>, rep: Seq<char>) -> Seq<char>
    decreases s.len(),
{
    if pat.len() == 0 || s.len() == 0 {
        s
    } else if s.len() >= pat.len() && s.take(pat.len() as int) == pat {
        rep + replace_all(s.skip(pat.len() as int), pat, rep)
    } else {
        seq![s[0]] + replace_all(s.skip(1), pat, rep)
    }
}

/// Replaces every leftmost non-overlapping occurrence of `pat` by `rep`.
/// Callers pass a non-empty pattern or an empty replacement.
pub fn replace_str(s: &str, pat: &str, rep: &str) -> (r: String)
    requires
        pat@.len() > 0 || rep@.len() == 0,
    ensures
        r@ == replace_all(s@, pat@, rep@),
{
    let v = to_chars(s);
    let p = to_chars(pat);
    let mut out = String::new();
    if p.len() == 0 {
        return from_chars(&v);
    }
    let mut i: usize = 0;
    assert(s@.skip(0) =~= s@);
    assert(out@ + s@ =~= s@) by {
        assert(out@ =~= Seq::<char>::empty());
    }
    while i < v.len()
        invariant
            v@ == s@,
            p@ == pat@,
            p.len() > 0,
            i <= v.len(),
            replace_all(s@, pat@, rep@) == out@ + replace_all(s@.skip(i as int), pat@, rep@),
        decreases v.len() - i,
    {
        let ghost rest = s@.skip(i as int);
        if occurs_at_exec(&v, &p, i) {
            assert(rest.take(p.len() as int) =~= v@.subrange(i as int, i + p.len()));
            assert(rest.skip(p.len() as int) =~= s@.skip(i + p.len()));
            let ghost before = out@;
            out.append(rep);
            assert(before + (rep@ + replace_all(s@.skip(i + p.len()), pat@, rep@)) =~= out@
                + replace_all(s@.skip(i + p.len()), pat@, rep@));
            i += p.len();
        } else {
            proof {
                if rest.len() >= p.len() {
                    assert(rest.take(p.len() as int) =~= v@.subrange(i as int, i + p.len()));
                }
            }
            assert(rest.skip(1) =~= s@.skip(i + 1));
            assert(rest[0] == v@[i as int]);
            let ghost before = out@;
            push_char(&mut out, v[i]);
            assert(before + (seq![v@[i as int]] + replace_all(s@.skip(i + 1), pat@, rep@)) =~= out@
                + replace_all(s@.skip(i + 1), pat@, rep@));
            i += 1;
        }
    }
    assert(s@.skip(v.len() as int) =~= Seq::<char>::empty());
    assert(out@ + Seq::<char>::empty() =~= out@);
    out
}

/// Number of bytes in the UTF-8 encoding of `s`, as `str::len` reports it.
pub open spec fn byte_len(s: Seq<char>) -> usize {
    vstd::utf8::encode_utf8(s).len() as usize
}

/// Appends the decimal rendering of `n`.
pub fn push_decimal(out: &mut String, n: u64)
    ensures
        final(out)@ == old(out)@ + decimal(n as nat),
    decreases n,
{
    if n >= 10 {
        push_decimal(out, n / 10);
    }
    let d = n % 10;
    let c = if d == 0 {
        '0'
    } else if d == 1 {
        '1'
    } else if d == 2 {
        '2'
    } else if d == 3 {
        '3'
    } else if d == 4 {
        '4'
    } else if d == 5 {
        '5'
    } else if d == 6 {
        '6'
    } else if d == 7 {
        '7'
    } else if d == 8 {
        '8'
    } else {
        '9'
    };
    let ghost before = out@;
    push_char(out, c);
    proof {
        if n >= 10 {
            assert(out@ =~= old(out)@ + decimal((n / 10) as nat).push(digit_char((n % 10) as nat)));
        } else {
            assert(out@ =~= old(out)@ + seq![digit_char(n as nat)]);
        }
    }
}

/// Appends the decimal rendering of a signed integer (with `-` when negative).
pub fn push_int(out: &mut String, n: i64)
    ensures
        final(out)@ == old(out)@ + int_decimal(n as int),
{
    if n < 0 {
        push_char(out, '-');
        let m: u64 = if n == i64::MIN {
            9223372036854775808u64
        } else {
            (-n) as u64
        };
        push_decimal(out, m);
        assert(out@ =~= old(out)@ + int_decimal(n as int));
    } else {
        push_decimal(out, n as u64);
    }
}

/// The decimal rendering of a signed integer (`i32::to_string`).
pub fn int_to_string(n: i64) -> (r: String)
    ensures
        r@ == int_decimal(n as int),
{
    let mut r = String::new();
    push_int(&mut r, n);
    r
}

/// A string holding `s` without leading and trailing whitespace (`str::trim`).
pub fn trim_str(s: &str) -> (r: String)
    ensures
        r@ == trim(s@),
{
    let v = to_chars(s);
    let (a, b) = trim_bounds(&v, 0, v.len());
    assert(v@.subrange(0, v.len() as int) =~= s@);
    substring(&v, a, b)
}

// ---------------------------------------------------------------------------
// Splitting on a separator character
// ---------------------------------------------------------------------------

/// The pieces of `s` between occurrences of `sep` (`str::split` with a
/// `char` pattern): one more piece than there are separators.
pub open spec fn split_on(s: Seq<char>, sep: char) -> Seq<Seq<char>>
    decreases s.len(),
{
    if s.len() == 0 {
        seq![Seq::empty()]
    } else {
        let r = split_on(s.drop_last(), sep);
        if s.last() == sep {
            r.push(Seq::empty())
        } else {
            r.update(r.len() - 1, r.last().push(s.last()))
        }
    }
}

/// `split_on` never yields an empty list.
pub proof fn lemma_split_on_nonempty(s: Seq<char>, sep: char)
    ensures
        split_on(s, sep).len() >= 1,
    decreases s.len(),
{
    if s.len() > 0 {
        lemma_split_on_nonempty(s.drop_last(), sep);
    }
}

/// Splitting at a separator splits the parts on either side of it.
pub proof fn lemma_split_on_around(a: Seq<char>, sep: char, b: Seq<char>)
    ensures
        split_on(a + seq![sep] + b, sep) == split_on(a, sep) + split_on(b, sep),
    decreases b.len(),
{
    lemma_split_on_nonempty(a, sep);
    if b.len() == 0 {
        assert(a + seq![sep] + b =~= a.push(sep));
        assert((a + seq![sep] + b).drop_last() =~= a);
        assert(split_on(a, sep).push(Seq::empty()) =~= split_on(a, sep) + seq![Seq::<char>::empty()]);
    } else {
        let b0 = b.drop_last();
        lemma_split_on_around(a, sep, b0);
        lemma_split_on_nonempty(b0, sep);
        let whole = a + seq![sep] + b;
        assert(whole.drop_last() =~= a + seq![sep] + b0);
        assert(whole.last() == b.last());
        let l = split_on(a, sep);
        let r0 = split_on(b0, sep);
        if b.last() == sep {
            assert((l + r0).push(Seq::empty()) =~= l + r0.push(Seq::empty()));
        } else {
            assert((l + r0).update((l + r0).len() - 1, (l + r0).last().push(b.last())) =~= l + r0.update(
                r0.len() - 1,
                r0.last().push(b.last()),
            ));
        }
    }
}

/// A text without the separator is one piece.
pub proof fn lemma_split_on_without(s: Seq<char>, sep: char)
    requires
        !s.contains(sep),
    ensures
        split_on(s, sep) == seq![s],
    decreases s.len(),
{
    if s.len() > 0 {
        let s0 = s.drop_last();
        assert(!s0.contains(sep)) by {
            if s0.contains(sep) {
                let k = choose|k: int| 0 <= k < s0.len() && s0[k] == sep;
                assert(s[k] == sep);
            }
        }
        lemma_split_on_without(s0, sep);
        assert(s.last() != sep) by {
            assert(s[s.len() - 1] == s.last());
        }
        assert(s0.push(s.last()) =~= s);
        assert(seq![s0].update(0, s0.push(s.last())) =~= seq![s]);
    } else {
        assert(s =~= Seq::<char>::empty());
    }
}

/// `s` has no whitespace at either end.
pub open spec fn is_trimmed(s: Seq<char>) -> bool {
    s.len() > 0 ==> !spec_is_whitespace(s[0]) && !spec_is_whitespace(s.last())
}

/// Leading whitespace is unchanged by what follows, unless all of `s` is.
proof fn lemma_leading_ws_append(s: Seq<char>, t: Seq<char>)
    requires
        leading_ws(s) < s.len(),
    ensures
        leading_ws(s + t) == leading_ws(s),
    decreases s.len(),
{
    if spec_is_whitespace(s[0]) {
        assert((s + t).drop_first() =~= s.drop_first() + t);
        lemma_leading_ws_append(s.drop_first(), t);
    }
}

/// Trailing whitespace is unchanged by what precedes, unless all of `s` is.
proof fn lemma_trailing_ws_prepend(t: Seq<char>, s: Seq<char>)
    requires
        trailing_ws(s) < s.len(),
    ensures
        trailing_ws(t + s) == trailing_ws(s),
    decreases s.len(),
{
    assert((t + s).last() == s.last());
    if spec_is_whitespace(s.last()) {
        assert((t + s).drop_last() =~= t + s.drop_last());
        lemma_trailing_ws_prepend(t, s.drop_last());
    }
}

/// Whitespace counts never exceed the length.
proof fn lemma_ws_bounds(s: Seq<char>)
    ensures
        leading_ws(s) <= s.len(),
        trailing_ws(s) <= s.len(),
        s.len() > 0 && !spec_is_whitespace(s[0]) ==> leading_ws(s) == 0,
        s.len() > 0 && !spec_is_whitespace(s.last()) ==> trailing_ws(s) == 0,
    decreases s.len(),
{
    if s.len() > 0 {
        lemma_ws_bounds(s.drop_first());
        lemma_ws_bounds(s.drop_last());
    }
}

/// A text with no whitespace at either end trims to itself.
pub proof fn lemma_trim_trimmed(s: Seq<char>)
    requires
        is_trimmed(s),
    ensures
        trim(s) == s,
{
    lemma_ws_bounds(s);
    if s.len() > 0 {
        assert(s.subrange(0, s.len() as int) =~= s);
    } else {
        assert(s =~= Seq::<char>::empty());
    }
}

/// Trimming ignores a space added at either end.
pub proof fn lemma_trim_spaces(s: Seq<char>)
    ensures
        trim(s.push(' ')) == trim(s),
        trim(seq![' '] + s) == trim(s),
{
    lemma_trim_space_after(s);
    lemma_trim_space_before(s);
}

/// Trimming ignores a space added at the end.
proof fn lemma_trim_space_after(s: Seq<char>)
    ensures
        trim(s.push(' ')) == trim(s),
{
    lemma_ws_bounds(s);
    let e = s.push(' ');
    assert(spec_is_whitespace(' '));
    assert(e.last() == ' ');
    assert(e.drop_last() =~= s);
    if leading_ws(s) == s.len() {
        lemma_all_ws_leading(s, e);
    } else {
        lemma_leading_ws_append(s, seq![' ']);
        assert(s + seq![' '] =~= e);
        assert(trailing_ws(e) == 1 + trailing_ws(s));
        lemma_trailing_below(s);
        lemma_ws_disjoint(s);
        assert(e.subrange(leading_ws(s) as int, e.len() - trailing_ws(e)) =~= s.subrange(
            leading_ws(s) as int,
            s.len() - trailing_ws(s),
        ));
    }
}

/// Trimming ignores a space added at the start.
proof fn lemma_trim_space_before(s: Seq<char>)
    ensures
        trim(seq![' '] + s) == trim(s),
{
    lemma_ws_bounds(s);
    let f = seq![' '] + s;
    assert(spec_is_whitespace(' '));
    assert(f[0] == ' ');
    assert(f.drop_first() =~= s);
    assert(leading_ws(f) == 1 + leading_ws(s));
    if leading_ws(s) < s.len() {
        lemma_trailing_below(s);
        lemma_ws_disjoint(s);
        lemma_trailing_ws_prepend(seq![' '], s);
        assert(f.subrange(leading_ws(f) as int, f.len() - trailing_ws(f)) =~= s.subrange(
            leading_ws(s) as int,
            s.len() - trailing_ws(s),
        ));
    }
}

/// In a text that is not all whitespace, leading and trailing whitespace
/// do not overlap.
proof fn lemma_ws_disjoint(s: Seq<char>)
    requires
        leading_ws(s) < s.len(),
    ensures
        leading_ws(s) + trailing_ws(s) <= s.len(),
    decreases s.len(),
{
    lemma_ws_bounds(s);
    if spec_is_whitespace(s.last()) {
        if s.len() == 1 {
            assert(s[0] == s.last());
        } else {
            lemma_leading_prefix(s);
            let d = s.drop_last();
            lemma_leading_ws_append(d, seq![s.last()]);
            assert(d + seq![s.last()] =~= s);
            lemma_ws_disjoint(d);
        }
    }
}

/// A text all of whitespace stays so with a space appended.
proof fn lemma_all_ws_leading(s: Seq<char>, e: Seq<char>)
    requires
        leading_ws(s) == s.len(),
        e == s.push(' '),
    ensures
        leading_ws(e) == e.len(),
    decreases s.len(),
{
    assert(spec_is_whitespace(' '));
    if s.len() == 0 {
        assert(e[0] == ' ');
        assert(e.drop_first() =~= Seq::<char>::empty());
        assert(leading_ws(e.drop_first()) == 0);
    } else {
        assert(e[0] == s[0]);
        assert(spec_is_whitespace(s[0]));
        assert(e.drop_first() =~= s.drop_first().push(' '));
        lemma_all_ws_leading(s.drop_first(), e.drop_first());
    }
}

/// A text that is not all whitespace has fewer trailing whitespace
/// characters than characters.
proof fn lemma_trailing_below(s: Seq<char>)
    requires
        leading_ws(s) < s.len(),
    ensures
        trailing_ws(s) < s.len(),
    decreases s.len(),
{
    if spec_is_whitespace(s.last()) {
        if s.len() == 1 {
            assert(s[0] == s.last());
        } else {
            assert(leading_ws(s.drop_last()) < s.drop_last().len()) by {
                lemma_leading_prefix(s);
            }
            lemma_trailing_below(s.drop_last());
        }
    } else {
        lemma_ws_bounds(s);
    }
}

/// Leading whitespace of a text whose last character is whitespace, when
/// not all of it is whitespace, stays within the text without that character.
proof fn lemma_leading_prefix(s: Seq<char>)
    requires
        s.len() >= 2,
        leading_ws(s) < s.len(),
        spec_is_whitespace(s.last()),
    ensures
        leading_ws(s.drop_last()) < s.drop_last().len(),
    decreases s.len(),
{
    assert(s.drop_last()[0] == s[0]);
    if spec_is_whitespace(s[0]) {
        let t = s.drop_first();
        assert(t.last() == s.last());
        assert(leading_ws(s) == 1 + leading_ws(t));
        assert(s.drop_last().drop_first() =~= t.drop_last());
        assert(leading_ws(s.drop_last()) == 1 + leading_ws(t.drop_last()));
        if s.len() == 2 {
            assert(t.len() == 1);
            assert(t[0] == s.last());
            assert(t.drop_first().len() == 0);
            assert(leading_ws(t) == 1 + leading_ws(t.drop_first()));
            assert(false);
        } else {
            lemma_leading_prefix(t);
        }
    } else {
        assert(leading_ws(s.drop_last()) == 0);
    }
}

/// Joining non-empty pieces without `|` and without whitespace at their
/// ends by ` | `, then splitting at `|` and trimming each piece, gives the
/// pieces back.
pub proof fn lemma_split_trim_join(xs: Seq<Seq<char>>)
    requires
        forall|i: int| 0 <= i < xs.len() ==> (#[trigger] xs[i]).len() > 0 && is_trimmed(xs[i]) && !xs[i].contains('|'),
    ensures
        xs.len() > 0 ==> split_on(join(xs, " | "@), '|').map_values(|p: Seq<char>| trim(p)) == xs,
    decreases xs.len(),
{
    reveal_strlit(" | ");
    if xs.len() == 1 {
        lemma_split_on_without(xs[0], '|');
        lemma_trim_trimmed(xs[0]);
        assert(seq![xs[0]].map_values(|p: Seq<char>| trim(p)) =~= xs);
    } else if xs.len() > 1 {
        let init = xs.drop_last();
        let x = xs.last();
        lemma_split_trim_join(init);
        let a = join(init, " | "@);
        assert(join(xs, " | "@) == a + " | "@ + x);
        assert(" | "@ =~= seq![' ', '|', ' ']);
        assert(a + " | "@ + x =~= a.push(' ') + seq!['|'] + (seq![' '] + x));
        lemma_split_on_around(a.push(' '), '|', seq![' '] + x);
        assert(!(seq![' '] + x).contains('|')) by {
            if (seq![' '] + x).contains('|') {
                let k = choose|k: int| 0 <= k < (seq![' '] + x).len() && (seq![' '] + x)[k] == '|';
                assert(x[k - 1] == '|');
            }
        }
        lemma_split_on_without(seq![' '] + x, '|');
        lemma_split_on_nonempty(a, '|');
        assert(a.push(' ').drop_last() =~= a);
        assert(a.push(' ').last() == ' ');
        let pa = split_on(a, '|');
        let pa2 = split_on(a.push(' '), '|');
        assert(pa2 == pa.update(pa.len() - 1, pa.last().push(' ')));
        lemma_trim_spaces(pa.last());
        lemma_trim_spaces(x);
        lemma_trim_trimmed(x);
        assert(pa2.map_values(|p: Seq<char>| trim(p)) =~= pa.map_values(|p: Seq<char>| trim(p)));
        assert((pa2 + seq![seq![' '] + x]).map_values(|p: Seq<char>| trim(p)) =~= pa2.map_values(
            |p: Seq<char>| trim(p),
        ).push(x));
        assert(init.push(x) =~= xs);
    }
}


/// The trimmed pieces of `parts` that are not empty, in order.
pub open spec fn nonempty_trimmed(parts: Seq<Seq<char>>) -> Seq<Seq<char>>
    decreases parts.len(),
{
    if parts.len() == 0 {
        Seq::empty()
    } else {
        let rest = nonempty_trimmed(parts.drop_last());
        if trim(parts.last()).len() > 0 {
            rest.push(trim(parts.last()))
        } else {
            rest
        }
    }
}

/// The pieces of `s` between occurrences of `sep`.
pub fn split_char(s: &str, sep: char) -> (r: Vec<String>)
    ensures
        views(r@) == split_on(s@, sep),
{
    let v = to_chars(s);
    let mut parts: Vec<String> = Vec::new();
    let mut start: usize = 0;
    let mut i: usize = 0;
    assert(views(parts@) =~= Seq::<Seq<char>>::empty());
    assert(v@.take(0) =~= Seq::<char>::empty());
    assert(v@.subrange(0, 0) =~= Seq::<char>::empty());
    assert(views(parts@).push(v@.subrange(0, 0)) =~= split_on(v@.take(0), sep));
    while i < v.len()
        invariant
            v@ == s@,
            start <= i <= v.len(),
            views(parts@).push(v@.subrange(start as int, i as int)) == split_on(v@.take(i as int), sep),
        decreases v.len() - i,
    {
        let ghost before = views(parts@).push(v@.subrange(start as int, i as int));
        assert(v@.take(i + 1).drop_last() =~= v@.take(i as int));
        proof {
            lemma_split_on_nonempty(v@.take(i as int), sep);
        }
        if v[i] == sep {
            parts.push(substring(&v, start, i));
            start = i + 1;
            assert(v@.subrange(start as int, (i + 1) as int) =~= Seq::<char>::empty());
            assert(views(parts@) =~= before);
        } else {
            assert(v@.subrange(start as int, (i + 1) as int) =~= v@.subrange(start as int, i as int).push(v@[i as int]));
        }
        assert(views(parts@).push(v@.subrange(start as int, (i + 1) as int)) =~= split_on(v@.take(i + 1), sep));
        i += 1;
    }
    parts.push(substring(&v, start, v.len()));
    assert(v@.take(v.len() as int) =~= v@);
    assert(views(parts@) =~= split_on(v@, sep));
    parts
}

/// The non-empty trimmed pieces of `s` between occurrences of `sep`
/// (`s.split(sep).map(str::trim).filter(|p| !p.is_empty())`).
pub fn trimmed_pieces(s: &str, sep: char) -> (r: Vec<String>)
    ensures
        views(r@) == nonempty_trimmed(split_on(s@, sep)),
{
    let parts = split_char(s, sep);
    let mut r: Vec<String> = Vec::new();
    let mut i: usize = 0;
    while i < parts.len()
        invariant
            i <= parts.len(),
            views(parts@) == split_on(s@, sep),
            views(r@) == nonempty_trimmed(views(parts@).take(i as int)),
        decreases parts.len() - i,
    {
        assert(views(parts@).take(i + 1).drop_last() =~= views(parts@).take(i as int));
        let t = trim_str(parts[i].as_str());
        let tc = to_chars(t.as_str());
        if tc.len() > 0 {
            r.push(t);
            assert(views(r@) =~= nonempty_trimmed(views(parts@).take(i + 1)));
        }
        i += 1;
    }
    assert(views(parts@).take(parts.len() as int) =~= views(parts@));
    r
}

/// The first position from `j` on where `needle` occurs in `hay`.
pub open spec fn occurrence_from(hay: Seq<char>, needle: Seq<char>, j: int) -> Option<int>
    decreases hay.len() + 1 - j,
{
    if j < 0 || j + needle.len() > hay.len() {
        None
    } else if occurs_at(hay, needle, j) {
        Some(j)
    } else {
        occurrence_from(hay, needle, j + 1)
    }
}

/// The first position from `from` on where `needle` occurs in `hay`.
pub fn find_seq(hay: &Vec<char>, needle: &Vec<char>, from: usize) -> (r: Option<usize>)
    requires
        from <= hay.len(),
    ensures
        match r {
            Some(k) => occurrence_from(hay@, needle@, from as int) == Some(k as int) && k + needle.len() <= hay.len(),
            None => occurrence_from(hay@, needle@, from as int) is None,
        },
{
    let mut j = from;
    while needle.len() <= hay.len() - j
        invariant
            from <= j <= hay.len(),
            occurrence_from(hay@, needle@, from as int) == occurrence_from(hay@, needle@, j as int),
        decreases hay.len() - j,
    {
        if needle.len() == 0 {
            assert(hay@.subrange(j as int, j as int) =~= needle@);
            return Some(j);
        }
        if occurs_at_exec(hay, needle, j) {
            return Some(j);
        }
        j += 1;
    }
    None
}

} // verus!
