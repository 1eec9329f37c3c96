//! Chart colours: `#rgb` / `#rrggbb` hex codes read into red, green and
//! blue components.

use vstd::prelude::*;
use vstd::utf8::encode_utf8;
use vstd::string::StringSliceAdditionalSpecFns;
use crate::text::{from_chars, to_chars};

verus! {

/// `s` without its leading `#` characters.
pub open spec fn strip_hashes(s: Seq<char>) -> Seq<char>
    decreases s.len(),
{
    if s.len() > 0 && s[0] == '#' {
        strip_hashes(s.skip(1))
    } else {
        s
    }
}

/// Each character of `s` written twice.
pub open spec fn doubled(s: Seq<char>) -> Seq<char> {
    Seq::new(2 * s.len(), |k: int| s[k / 2])
}

/// The six-digit form of a code: the code without leading `#`, each
/// character doubled when it takes three bytes.
pub open spec fn expanded(hex: Seq<char>) -> Seq<char> {
    let h = strip_hashes(hex);
    if encode_utf8(h).len() == 3 {
        doubled(h)
    } else {
        h
    }
}

/// The value of a hexadecimal digit byte.
pub open spec fn hex_digit(b: u8) -> Option<u8> {
    if 48 <= b <= 57 {
        Some((b - 48) as u8)
    } else if 97 <= b <= 102 {
        Some((b - 87) as u8)
    } else if 65 <= b <= 70 {
        Some((b - 55) as u8)
    } else {
        None
    }
}

/// A two-byte component read as base-16 digits after an optional `+`,
/// or 0 when it is not a number.
pub open spec fn component(b0: u8, b1: u8) -> u8 {
    match (hex_digit(b0), hex_digit(b1)) {
        (Some(x), Some(y)) => (16 * x + y) as u8,
        (None, Some(y)) => if b0 == 43 {
            y
        } else {
            0
        },
        _ => 0,
    }
}

/// The colour of a code: the three two-byte components of its six-byte
/// form, or black when it does not take six bytes.
pub open spec fn rgb_of(hex: Seq<char>) -> (u8, u8, u8) {
    let b = encode_utf8(expanded(hex));
    if b.len() == 6 {
        (component(b[0], b[1]), component(b[2], b[3]), component(b[4], b[5]))
    } else {
        (0, 0, 0)
    }
}

/// Some first characters of `s` take exactly `n` bytes.
pub open spec fn is_boundary(s: Seq<char>, n: nat) -> bool {
    exists|k: int| 0 <= k <= s.len() && encode_utf8(s.take(k)).len() == n
}

/// The components of a six-byte code can be cut out at whole characters.
pub open spec fn components_at_boundaries(hex: Seq<char>) -> bool {
    let e = expanded(hex);
    encode_utf8(e).len() == 6 ==> is_boundary(e, 2) && is_boundary(e, 4)
}

fn hex_digit_exec(b: u8) -> (r: Option<u8>)
    ensures
        r == hex_digit(b),
{
    if 48 <= b && b <= 57 {
        Some(b - 48)
    } else if 97 <= b && b <= 102 {
        Some(b - 87)
    } else if 65 <= b && b <= 70 {
        Some(b - 55)
    } else {
        None
    }
}

fn component_exec(b0: u8, b1: u8) -> (r: u8)
    ensures
        r == component(b0, b1),
{
    match (hex_digit_exec(b0), hex_digit_exec(b1)) {
        (Some(x), Some(y)) => 16 * x + y,
        (None, Some(y)) => if b0 == 43 {
            y
        } else {
            0
        },
        _ => 0,
    }
}

/// Reads a `#rgb` or `#rrggbb` code (leading `#` optional) into red, green
/// and blue; a component that is not hexadecimal reads as 0, and a code of
/// another length as black.
pub fn hex_to_rgb(hex: &str) -> (r: (u8, u8, u8))
    requires
        components_at_boundaries(hex@),
    ensures
        r == rgb_of(hex@),
{
    let chars = to_chars(hex);
    let mut start: usize = 0;
    assert(chars@.skip(0) =~= chars@);
    while start < chars.len() && chars[start] == '#'
        invariant
            start <= chars@.len(),
            strip_hashes(chars@) == strip_hashes(chars@.skip(start as int)),
        decreases chars.len() - start,
    {
        assert(chars@.skip(start as int).skip(1) =~= chars@.skip(start + 1));
        start += 1;
    }
    let mut rest: Vec<char> = Vec::new();
    let mut i: usize = start;
    while i < chars.len()
        invariant
            start <= i <= chars@.len(),
            rest@ == chars@.subrange(start as int, i as int),
        decreases chars.len() - i,
    {
        rest.push(chars[i]);
        assert(rest@ =~= chars@.subrange(start as int, i + 1));
        i += 1;
    }
    assert(rest@ =~= chars@.skip(start as int));
    assert(rest@ == strip_hashes(chars@));
    let h = from_chars(&rest);
    let hs = h.as_str();
    let hlen = hs.as_bytes().len();
    assert(hlen == encode_utf8(strip_hashes(hex@)).len()) by {
        assert(hs@ == strip_hashes(hex@));
        assert(hs.spec_bytes() == encode_utf8(hs@));
    }
    let e = if hlen == 3 {
        let mut d: Vec<char> = Vec::new();
        let mut j: usize = 0;
        while j < rest.len()
            invariant
                j <= rest@.len(),
                d@ =~= Seq::new(2 * j as nat, |k: int| rest@[k / 2]),
            decreases rest.len() - j,
        {
            d.push(rest[j]);
            d.push(rest[j]);
            assert(d@ =~= Seq::new(2 * (j + 1) as nat, |k: int| rest@[k / 2]));
            j += 1;
        }
        assert(d@ =~= doubled(rest@));
        from_chars(&d)
    } else {
        h
    };
    assert(e@ == expanded(hex@));
    let b = e.as_str().as_bytes();
    if b.len() == 6 {
        (component_exec(b[0], b[1]), component_exec(b[2], b[3]), component_exec(b[4], b[5]))
    } else {
        (0, 0, 0)
    }
}

} // verus!
