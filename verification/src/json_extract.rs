//! Recovering the JSON payload from a chat model's free-form reply: code
//! fences and surrounding prose are cut away before the text is parsed.

use vstd::prelude::*;
use crate::text::{
    find_char, first_index, has_prefix, has_suffix, last_index, lemma_first_index_props,
    rfind_char, starts_with_at,
    ends_with_at, substring, to_chars, trim, trim_bounds,
};

verus! {

/// The three backticks that open and close a markdown code block.
pub open spec fn fence() -> Seq<char> {
    seq!['`', '`', '`']
}

/// A code-block opener tagged as JSON.
pub open spec fn fence_json() -> Seq<char> {
    seq!['`', '`', '`', 'j', 's', 'o', 'n']
}

/// The reply trimmed, with a leading "```json" or "```" and a trailing
/// "```" removed (each followed by another trim).
pub open spec fn strip_code_fences(content: Seq<char>) -> Seq<char> {
    let c1 = trim(content);
    let c2 = if has_prefix(c1, fence_json()) {
        trim(c1.skip(7))
    } else if has_prefix(c1, fence()) {
        trim(c1.skip(3))
    } else {
        c1
    };
    if has_suffix(c2, fence()) {
        trim(c2.take(c2.len() - 3))
    } else {
        c2
    }
}

/// Scans `s` from position `i` with the given brace depth and string state,
/// returning the index of the brace that brings the depth back to zero.
/// Inside a string a backslash escapes the next character; braces inside
/// strings do not count.
pub open spec fn object_end(s: Seq<char>, i: int, depth: int, in_string: bool, escaped: bool) -> Option<int>
    decreases s.len() - i,
{
    if i < 0 || i >= s.len() {
        None
    } else {
        let c = s[i];
        if escaped {
            object_end(s, i + 1, depth, in_string, false)
        } else if c == '\\' && in_string {
            object_end(s, i + 1, depth, in_string, true)
        } else if c == '"' {
            object_end(s, i + 1, depth, !in_string, false)
        } else if c == '{' && !in_string {
            object_end(s, i + 1, depth + 1, in_string, false)
        } else if c == '}' && !in_string {
            if depth - 1 == 0 {
                Some(i)
            } else {
                object_end(s, i + 1, depth - 1, in_string, false)
            }
        } else {
            object_end(s, i + 1, depth, in_string, false)
        }
    }
}

/// What `extract_json_from_response` returns: after stripping code fences,
/// the first complete JSON object (from the first `{` to its matching `}`),
/// or the whole stripped text when there is none.
pub open spec fn extracted_json(content: Seq<char>) -> Seq<char> {
    let c = strip_code_fences(content);
    match first_index(c, '{') {
        Some(start) => match object_end(c, start, 0, false, false) {
            Some(end) => c.subrange(start, end + 1),
            None => c,
        },
        None => c,
    }
}

/// What `extract_json_array` returns: the text from the first `[` through
/// the last `]` when both exist in that order, else the whole text.
pub open spec fn json_array_slice(s: Seq<char>) -> Seq<char> {
    match (first_index(s, '['), last_index(s, ']')) {
        (Some(a), Some(b)) => if b >= a {
            s.subrange(a, b + 1)
        } else {
            s
        },
        _ => s,
    }
}

/// Bounds of `v` once the reply is trimmed and its code fences removed.
fn code_fence_bounds(v: &Vec<char>) -> (r: (usize, usize))
    ensures
        r.0 <= r.1 <= v.len(),
        v@.subrange(r.0 as int, r.1 as int) == strip_code_fences(v@),
{
    let fj = "```json";
    let f = "```";
    proof {
        reveal_strlit("```json");
        reveal_strlit("```");
        assert(fj@ =~= fence_json());
        assert(f@ =~= fence());
    }
    let (lo1, hi1) = trim_bounds(v, 0, v.len());
    assert(v@.subrange(0, v.len() as int) =~= v@);
    let ghost c1 = v@.subrange(lo1 as int, hi1 as int);
    let (lo2, hi2) = if starts_with_at(v, lo1, hi1, fj) {
        assert(c1.skip(7) =~= v@.subrange(lo1 + 7, hi1 as int));
        trim_bounds(v, lo1 + 7, hi1)
    } else if starts_with_at(v, lo1, hi1, f) {
        assert(c1.skip(3) =~= v@.subrange(lo1 + 3, hi1 as int));
        trim_bounds(v, lo1 + 3, hi1)
    } else {
        (lo1, hi1)
    };
    let ghost c2 = v@.subrange(lo2 as int, hi2 as int);
    if ends_with_at(v, lo2, hi2, f) {
        assert(c2.take(c2.len() - 3) =~= v@.subrange(lo2 as int, hi2 - 3));
        trim_bounds(v, lo2, hi2 - 3)
    } else {
        (lo2, hi2)
    }
}

/// The first complete JSON object of `v[lo..hi]`, or all of it.
fn first_object(v: &Vec<char>, lo: usize, hi: usize) -> (r: String)
    requires
        lo <= hi <= v.len(),
    ensures
        r@ == ({
            let c = v@.subrange(lo as int, hi as int);
            match first_index(c, '{') {
                Some(start) => match object_end(c, start, 0, false, false) {
                    Some(end) => c.subrange(start, end + 1),
                    None => c,
                },
                None => c,
            }
        }),
{
    let ghost c = v@.subrange(lo as int, hi as int);
    match find_char(v, lo, hi, '{') {
        Some(start) => {
            proof {
                lemma_first_index_props(c, '{');
                assert(v@[start as int] == '{');
            }
            let mut depth: usize = 0;
            let mut in_string = false;
            let mut escaped = false;
            let mut i = start;
            while i < hi
                invariant
                    lo <= start <= i <= hi <= v.len(),
                    c == v@.subrange(lo as int, hi as int),
                    first_index(c, '{') == Some(start - lo),
                    v@[start as int] == '{',
                    depth <= i - start,
                    i == start ==> depth == 0 && !in_string && !escaped,
                    i > start ==> depth > 0,
                    object_end(c, start - lo, 0, false, false) == object_end(
                        c,
                        i - lo,
                        depth as int,
                        in_string,
                        escaped,
                    ),
                decreases hi - i,
            {
                let ch = v[i];
                assert(c[i - lo] == ch);
                if escaped {
                    escaped = false;
                } else if ch == '\\' && in_string {
                    escaped = true;
                } else if ch == '"' {
                    in_string = !in_string;
                } else if ch == '{' && !in_string {
                    depth = depth + 1;
                } else if ch == '}' && !in_string {
                    if depth <= 1 {
                        assert(depth == 1);
                        assert(object_end(c, i - lo, 1, false, false) == Some(i - lo));
                        assert(c.subrange(start - lo, i - lo + 1) =~= v@.subrange(
                            start as int,
                            i + 1,
                        ));
                        return substring(v, start, i + 1);
                    }
                    depth = depth - 1;
                }
                i += 1;
            }
            assert(object_end(c, hi - lo, depth as int, in_string, escaped) is None);
            substring(v, lo, hi)
        },
        None => substring(v, lo, hi),
    }
}

/// Extracts JSON from an AI response, handling cases where the AI adds extra
/// text or markdown code blocks around it.
pub fn extract_json_from_response(content: &str) -> (r: String)
    ensures
        r@ == extracted_json(content@),
{
    let v = to_chars(content);
    let (lo, hi) = code_fence_bounds(&v);
    first_object(&v, lo, hi)
}

/// Extracts the JSON array between the first `[` and the last `]`, or returns
/// the text unchanged when there is no such pair.
pub fn extract_json_array(s: &str) -> (r: String)
    ensures
        r@ == json_array_slice(s@),
{
    let v = to_chars(s);
    assert(v@.subrange(0, v.len() as int) =~= s@);
    if let Some(start) = find_char(&v, 0, v.len(), '[') {
        if let Some(end) = rfind_char(&v, 0, v.len(), ']') {
            if end >= start {
                return substring(&v, start, end + 1);
            }
        }
    }
    substring(&v, 0, v.len())
}

} // verus!
