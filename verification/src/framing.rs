//! Cutting one transport buffer into event payloads.
//!
//! A buffer is UTF-8 text. Its outer white space is trimmed, the rest is split
//! at every blank line, and each piece must start with the field prefix
//! `data: `; what follows the prefix is the payload. Everything here works on
//! the bytes of the text: the separator and the prefix are ASCII, so a cut
//! never falls inside a character.

use vstd::prelude::*;
use vstd::slice::*;

verus! {

/// An ASCII white-space byte: space, tab, line feed, vertical tab, form feed
/// or carriage return.
pub open spec fn is_ascii_space(b: u8) -> bool {
    b == 0x20 || (0x09 <= b && b <= 0x0D)
}

/// The UTF-8 encoding of U+0085 or U+00A0.
pub open spec fn is_two_byte_space(b0: u8, b1: u8) -> bool {
    b0 == 0xC2 && (b1 == 0x85 || b1 == 0xA0)
}

/// The UTF-8 encoding of U+1680, U+2000 to U+200A, U+2028, U+2029, U+202F,
/// U+205F or U+3000.
pub open spec fn is_three_byte_space(b0: u8, b1: u8, b2: u8) -> bool {
    ||| (b0 == 0xE1 && b1 == 0x9A && b2 == 0x80)
    ||| (b0 == 0xE2 && b1 == 0x80 && ((0x80 <= b2 && b2 <= 0x8A) || b2 == 0xA8 || b2 == 0xA9
        || b2 == 0xAF))
    ||| (b0 == 0xE2 && b1 == 0x81 && b2 == 0x9F)
    ||| (b0 == 0xE3 && b1 == 0x80 && b2 == 0x80)
}

/// The number of bytes of the white-space character that starts at index `i`
/// of `s`, and 0 where none starts there.
pub open spec fn space_at(s: Seq<u8>, i: int) -> int {
    if 0 <= i && i < s.len() && is_ascii_space(s[i]) {
        1
    } else if 0 <= i && i + 1 < s.len() && is_two_byte_space(s[i], s[i + 1]) {
        2
    } else if 0 <= i && i + 2 < s.len() && is_three_byte_space(s[i], s[i + 1], s[i + 2]) {
        3
    } else {
        0
    }
}

/// The number of bytes of the white-space character that ends just before
/// index `j` of `s` and starts at `lo` or later, and 0 where there is none.
pub open spec fn space_before(s: Seq<u8>, lo: int, j: int) -> int {
    if 0 <= lo && lo <= j - 1 && j <= s.len() && is_ascii_space(s[j - 1]) {
        1
    } else if 0 <= lo && lo <= j - 2 && j <= s.len() && is_two_byte_space(s[j - 2], s[j - 1]) {
        2
    } else if 0 <= lo && lo <= j - 3 && j <= s.len() && is_three_byte_space(
        s[j - 3],
        s[j - 2],
        s[j - 1],
    ) {
        3
    } else {
        0
    }
}

/// The first index at or after `i` where no white-space character starts.
pub open spec fn content_start(s: Seq<u8>, i: int) -> int
    decreases s.len() - i,
{
    if space_at(s, i) > 0 {
        content_start(s, i + space_at(s, i))
    } else {
        i
    }
}

/// The last index at or before `j` before which no white-space character ends,
/// looking no further back than `lo`.
pub open spec fn content_end(s: Seq<u8>, lo: int, j: int) -> int
    decreases j - lo,
{
    if space_before(s, lo, j) > 0 {
        content_end(s, lo, j - space_before(s, lo, j))
    } else {
        j
    }
}

/// `s` without the white-space characters at its two ends.
pub open spec fn trimmed(s: Seq<u8>) -> Seq<u8> {
    let lo = content_start(s, 0);
    s.subrange(lo, content_end(s, lo, s.len() as int))
}

/// The line feed that, doubled, separates two events.
pub const LINE_FEED: u8 = 0x0A;

/// The pieces of `s` from index `start` on, when the text up to `i` holds no
/// separator that starts at `start` or later: the text is cut at each blank
/// line, found from left to right, and the blank line belongs to no piece.
pub open spec fn split_from(s: Seq<u8>, start: int, i: int) -> Seq<Seq<u8>>
    decreases s.len() - i,
{
    if i + 1 >= s.len() {
        seq![s.subrange(start, s.len() as int)]
    } else if s[i] == LINE_FEED && s[i + 1] == LINE_FEED {
        seq![s.subrange(start, i)] + split_from(s, i + 2, i + 2)
    } else {
        split_from(s, start, i + 1)
    }
}

/// The pieces between the blank lines of `s`. There is always at least one.
pub open spec fn split_events(s: Seq<u8>) -> Seq<Seq<u8>> {
    split_from(s, 0, 0)
}

/// The field prefix of an event, `data: `.
pub open spec fn field_prefix() -> Seq<u8> {
    seq![0x64u8, 0x61u8, 0x74u8, 0x61u8, 0x3Au8, 0x20u8]
}

/// The payload that ends a stream, `[DONE]`.
pub open spec fn sentinel() -> Seq<u8> {
    seq![0x5Bu8, 0x44u8, 0x4Fu8, 0x4Eu8, 0x45u8, 0x5Du8]
}

/// What follows the field prefix in an event, or `None` where the event is
/// shorter than seven bytes or does not start with the prefix.
pub open spec fn event_payload(event: Seq<u8>) -> Option<Seq<u8>> {
    if event.len() >= 7 && event.take(6) == field_prefix() {
        Some(event.skip(6))
    } else {
        None
    }
}

/// The byte sequences that a vector of byte vectors holds.
pub open spec fn byte_views(v: Seq<Vec<u8>>) -> Seq<Seq<u8>> {
    v.map_values(|x: Vec<u8>| x@)
}

fn ascii_space(b: u8) -> (r: bool)
    ensures
        r == is_ascii_space(b),
{
    b == 0x20 || (0x09 <= b && b <= 0x0D)
}

fn two_byte_space(b0: u8, b1: u8) -> (r: bool)
    ensures
        r == is_two_byte_space(b0, b1),
{
    b0 == 0xC2 && (b1 == 0x85 || b1 == 0xA0)
}

fn three_byte_space(b0: u8, b1: u8, b2: u8) -> (r: bool)
    ensures
        r == is_three_byte_space(b0, b1, b2),
{
    (b0 == 0xE1 && b1 == 0x9A && b2 == 0x80) || (b0 == 0xE2 && b1 == 0x80 && ((0x80 <= b2 && b2
        <= 0x8A) || b2 == 0xA8 || b2 == 0xA9 || b2 == 0xAF)) || (b0 == 0xE2 && b1 == 0x81 && b2
        == 0x9F) || (b0 == 0xE3 && b1 == 0x80 && b2 == 0x80)
}

fn leading_space(s: &[u8], i: usize) -> (w: usize)
    requires
        i <= s@.len(),
    ensures
        w == space_at(s@, i as int),
        i + w <= s@.len(),
{
    let n: usize = s.len();
    if i < n && ascii_space(s[i]) {
        1
    } else if n - i >= 2 && two_byte_space(s[i], s[i + 1]) {
        2
    } else if n - i >= 3 && three_byte_space(s[i], s[i + 1], s[i + 2]) {
        3
    } else {
        0
    }
}

fn trailing_space(s: &[u8], lo: usize, j: usize) -> (w: usize)
    requires
        lo <= j,
        j <= s@.len(),
    ensures
        w == space_before(s@, lo as int, j as int),
        lo + w <= j,
{
    if j - lo >= 1 && ascii_space(s[j - 1]) {
        1
    } else if j - lo >= 2 && two_byte_space(s[j - 2], s[j - 1]) {
        2
    } else if j - lo >= 3 && three_byte_space(s[j - 3], s[j - 2], s[j - 1]) {
        3
    } else {
        0
    }
}

/// Removes the white space at both ends of a buffer.
pub fn trim_whitespace(s: &[u8]) -> (r: &[u8])
    ensures
        r@ == trimmed(s@),
{
    let n: usize = s.len();
    let mut lo: usize = 0;
    let mut w: usize = leading_space(s, lo);
    while w > 0
        invariant
            lo <= n,
            n == s@.len(),
            w == space_at(s@, lo as int),
            lo + w <= n,
            content_start(s@, 0) == content_start(s@, lo as int),
        decreases n - lo,
    {
        lo = lo + w;
        w = leading_space(s, lo);
    }
    let mut hi: usize = n;
    let mut v: usize = trailing_space(s, lo, hi);
    while v > 0
        invariant
            lo <= hi,
            hi <= n,
            n == s@.len(),
            v == space_before(s@, lo as int, hi as int),
            lo + v <= hi,
            content_end(s@, lo as int, n as int) == content_end(s@, lo as int, hi as int),
        decreases hi - lo,
    {
        hi = hi - v;
        v = trailing_space(s, lo, hi);
    }
    slice_subrange(s, lo, hi)
}

/// Cuts a buffer at its blank lines.
pub fn split_events_of(s: &[u8]) -> (r: Vec<Vec<u8>>)
    ensures
        byte_views(r@) == split_events(s@),
{
    let n: usize = s.len();
    let mut out: Vec<Vec<u8>> = Vec::new();
    let mut start: usize = 0;
    let mut i: usize = 0;
    while n - i >= 2
        invariant
            start <= i,
            i <= n,
            n == s@.len(),
            split_events(s@) == byte_views(out@) + split_from(s@, start as int, i as int),
        decreases n - i,
    {
        if s[i] == LINE_FEED && s[i + 1] == LINE_FEED {
            let piece: Vec<u8> = slice_to_vec(slice_subrange(s, start, i));
            out.push(piece);
            i = i + 2;
            start = i;
        } else {
            i = i + 1;
        }
    }
    let piece: Vec<u8> = slice_to_vec(slice_subrange(s, start, n));
    out.push(piece);
    out
}

/// Strips the field prefix from an event.
pub fn payload_of(event: &[u8]) -> (r: Option<&[u8]>)
    ensures
        match r {
            Some(p) => event_payload(event@) == Some(p@),
            None => event_payload(event@) is None,
        },
{
    if event.len() >= 7 && event[0] == 0x64 && event[1] == 0x61 && event[2] == 0x74 && event[3]
        == 0x61 && event[4] == 0x3A && event[5] == 0x20 {
        assert(event@.take(6) =~= field_prefix());
        Some(slice_subrange(event, 6, event.len()))
    } else {
        None
    }
}

/// Whether a payload is the one that ends a stream.
pub fn is_sentinel(payload: &[u8]) -> (r: bool)
    ensures
        r == (payload@ == sentinel()),
{
    if payload.len() == 6 && payload[0] == 0x5B && payload[1] == 0x44 && payload[2] == 0x4F
        && payload[3] == 0x4E && payload[4] == 0x45 && payload[5] == 0x5D {
        assert(payload@ =~= sentinel());
        true
    } else {
        false
    }
}

} // verus!
