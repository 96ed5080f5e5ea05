//! The template filters: truncating text at a character boundary, and
//! rendering a post's timestamp under a format string.

use vstd::prelude::*;

use crate::timestamp::format_rfc3339;
use crate::timestamp::rfc3339_formatted;

verus! {

/// `b` does not continue a UTF-8 character: it is an ASCII byte or the
/// leading byte of a multi-byte character.
pub open spec fn spec_char_boundary(b: u8) -> bool {
    b < 0x80 || b >= 0xC0
}

pub fn is_utf8_char_boundary(ch: u8) -> (r: bool)
    ensures
        r == spec_char_boundary(ch),
{
    ch < 0x80 || ch >= 0xC0
}

/// The first character boundary in `s` at or after `i`, up to `ub`; `ub`
/// where none occurs before it.
pub open spec fn first_boundary(s: Seq<u8>, i: int, ub: int) -> int
    decreases ub - i,
{
    if i >= ub {
        ub
    } else if spec_char_boundary(s[i]) {
        i
    } else {
        first_boundary(s, i + 1, ub)
    }
}

/// The nearest character boundary at or after `index`, looking at most
/// three bytes ahead; past the end of `s` the length itself.
pub open spec fn spec_ceil_char_boundary(s: Seq<u8>, index: int) -> int {
    if index > s.len() {
        s.len() as int
    } else {
        let ub = if index + 4 <= s.len() {
            index + 4
        } else {
            s.len() as int
        };
        first_boundary(s, index, ub)
    }
}

/// The nearest character boundary of the UTF-8 text `bytes` at or after
/// `index`.
pub fn ceil_char_boundary(bytes: &Vec<u8>, index: usize) -> (r: usize)
    ensures
        r == spec_ceil_char_boundary(bytes@, index as int),
        r <= bytes@.len(),
{
    let n = bytes.len();
    if index > n {
        return n;
    }
    let ub = if n - index >= 4 {
        index + 4
    } else {
        n
    };
    let mut i: usize = index;
    while i < ub
        invariant
            index <= i <= ub <= n,
            n == bytes@.len(),
            ub as int == if index + 4 <= bytes@.len() {
                index + 4
            } else {
                bytes@.len() as int
            },
            first_boundary(bytes@, index as int, ub as int) == first_boundary(
                bytes@,
                i as int,
                ub as int,
            ),
        decreases ub - i,
    {
        if is_utf8_char_boundary(bytes[i]) {
            proof {
                assert(first_boundary(bytes@, i as int, ub as int) == i as int);
                assert(spec_ceil_char_boundary(bytes@, index as int) == i as int);
            }
            return i;
        }
        i = i + 1;
    }
    proof {
        assert(first_boundary(bytes@, i as int, ub as int) == ub as int);
    }
    ub
}

/// The truncated form of a text: the text itself where it is shorter than
/// `len` bytes, else its prefix up to the nearest character boundary at or
/// after `len`; three dots always follow.
pub open spec fn spec_truncate(s: Seq<u8>, len: int) -> Seq<u8> {
    let cut = if s.len() < len {
        s.len() as int
    } else {
        spec_ceil_char_boundary(s, len)
    };
    s.subrange(0, cut) + seq![46u8, 46u8, 46u8]
}

/// Truncates the UTF-8 text `bytes` to roughly `len` bytes — never
/// splitting a character — and appends `...`.
pub fn truncate(bytes: &Vec<u8>, len: usize) -> (r: Vec<u8>)
    ensures
        r@ == spec_truncate(bytes@, len as int),
{
    let cut = if bytes.len() < len {
        bytes.len()
    } else {
        ceil_char_boundary(bytes, len)
    };
    let mut out: Vec<u8> = Vec::new();
    let mut i: usize = 0;
    while i < cut
        invariant
            i <= cut <= bytes@.len(),
            out@.len() == i,
            forall|k: int| 0 <= k < i ==> out@[k] == bytes@[k],
        decreases cut - i,
    {
        out.push(bytes[i]);
        i = i + 1;
    }
    out.push(46);
    out.push(46);
    out.push(46);
    proof {
        assert(out@ =~= spec_truncate(bytes@, len as int));
    }
    out
}

/// Renders an RFC 3339 timestamp under a `chrono` format string; a
/// timestamp or format string that is rejected renders as `<invalid
/// date>`.
pub fn fmt_timestamp(timestamp: &str, format: &str) -> (r: String)
    ensures
        match rfc3339_formatted(timestamp@, format@) {
            Option::Some(s) => r@ == s,
            Option::None => r@ == "<invalid date>"@,
        },
{
    match format_rfc3339(timestamp, format) {
        Option::Some(s) => s,
        Option::None => String::from_str("<invalid date>"),
    }
}

} // verus!
