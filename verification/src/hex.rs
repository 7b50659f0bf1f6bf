//! HEX colour codes.

use crate::text::{chars_of, drop_leading, lemma_drop_leading, trim, trimmed};
use vstd::prelude::*;
use vstd::utf8::{encode_utf8, is_char_boundary};

verus! {

/// The message for a code of the wrong length.
pub const LENGTH_MESSAGE: &'static str = "HEX должен быть 3 или 6 символов";

/// The message for a pair that is no number in base 16.
pub const DIGIT_MESSAGE: &'static str = "invalid digit found in string";

/// What is left of a code once white space and the leading `#` signs are gone.
pub open spec fn code(s: Seq<char>) -> Seq<char> {
    drop_leading(trimmed(s), |c: char| c == '#')
}

/// The value of an ASCII hexadecimal digit.
pub open spec fn digit_value(b: u8) -> Option<u8> {
    if 0x30 <= b <= 0x39 {
        Some((b - 0x30) as u8)
    } else if 0x41 <= b <= 0x46 {
        Some((b - 0x41 + 10) as u8)
    } else if 0x61 <= b <= 0x66 {
        Some((b - 0x61 + 10) as u8)
    } else {
        None
    }
}

/// The number that two bytes of a code stand for: two digits, or a plus sign and a digit.
pub open spec fn pair_value(hi: u8, lo: u8) -> Option<u8> {
    match (digit_value(hi), digit_value(lo)) {
        (Some(h), Some(l)) => Some((16 * h + l) as u8),
        (None, Some(l)) => if hi == 0x2b {
            Some(l)
        } else {
            None
        },
        _ => None,
    }
}

/// The six bytes that a code is read from: a code of three bytes has each of them doubled.
pub open spec fn six_bytes(b: Seq<u8>) -> Seq<u8> {
    if b.len() == 3 {
        seq![b[0], b[0], b[1], b[1], b[2], b[2]]
    } else {
        b
    }
}

/// The colour that a HEX code stands for, or the message that refuses it.
pub open spec fn hex_color(s: Seq<char>) -> Result<(u8, u8, u8), Seq<char>> {
    let b = encode_utf8(code(s));
    if b.len() != 3 && b.len() != 6 {
        Err(LENGTH_MESSAGE@)
    } else {
        let d = six_bytes(b);
        match (pair_value(d[0], d[1]), pair_value(d[2], d[3]), pair_value(d[4], d[5])) {
            (Some(r), Some(g), Some(b)) => Ok((r, g, b)),
            _ => Err(DIGIT_MESSAGE@),
        }
    }
}

/// Whether no character of the code lies across a place at which the code is cut: a code
/// of three bytes is cut at each byte; one of six bytes is cut in the middle only once
/// its first pair has been read.
pub open spec fn cuts_between_chars(s: Seq<char>) -> bool {
    let b = encode_utf8(code(s));
    &&& b.len() == 3 ==> is_char_boundary(b, 1) && is_char_boundary(b, 2)
    &&& b.len() == 6 ==> is_char_boundary(b, 2) && (pair_value(b[0], b[1]) is Some
        ==> is_char_boundary(b, 4))
}

/// What [`hex_to_rgb`] returns, with the message seen as its characters.
pub open spec fn rgb_view(r: Result<(u8, u8, u8), String>) -> Result<(u8, u8, u8), Seq<char>> {
    match r {
        Ok(rgb) => Ok(rgb),
        Err(e) => Err(e@),
    }
}

fn digit(b: u8) -> (r: Option<u8>)
    ensures
        r == digit_value(b),
{
    if 0x30 <= b && b <= 0x39 {
        Some(b - 0x30)
    } else if 0x41 <= b && b <= 0x46 {
        Some(b - 0x41 + 10)
    } else if 0x61 <= b && b <= 0x66 {
        Some(b - 0x61 + 10)
    } else {
        None
    }
}

fn pair(hi: u8, lo: u8) -> (r: Option<u8>)
    ensures
        r == pair_value(hi, lo),
{
    match (digit(hi), digit(lo)) {
        (Some(h), Some(l)) => Some(16 * h + l),
        (None, Some(l)) => if hi == 0x2b {
            Some(l)
        } else {
            None
        },
        _ => None,
    }
}

/// The part of `s` that holds the digits.
fn strip(s: &str) -> (r: &str)
    ensures
        r@ == code(s@),
{
    let t = trim(s);
    let v = chars_of(t);
    let ghost p = |c: char| c == '#';
    let mut i: usize = 0;
    while i < v.len() && v[i] == '#'
        invariant
            i <= v.len(),
            v@ == t@,
            p == (|c: char| c == '#'),
            forall|m: int| 0 <= m < i ==> p(#[trigger] t@[m]),
        decreases v.len() - i,
    {
        i += 1;
    }
    proof {
        lemma_drop_leading(t@, p, i as int);
        assert(t@.skip(i as int) == t@.subrange(i as int, t@.len() as int));
    }
    t.substring_char(i, v.len())
}

/// Whether `hex_str` can be handed to [`hex_to_rgb`].
pub fn is_cut_between_chars(hex_str: &str) -> (r: bool)
    ensures
        r == cuts_between_chars(hex_str@),
{
    let s = strip(hex_str);
    let b = s.as_bytes();
    if b.len() == 3 {
        s.is_char_boundary(1) && s.is_char_boundary(2)
    } else if b.len() == 6 {
        s.is_char_boundary(2) && (pair(b[0], b[1]).is_none() || s.is_char_boundary(4))
    } else {
        true
    }
}

/// Reads a HEX colour code: white space around it and `#` signs before it do not count,
/// and three digits stand for six, each of them doubled.
pub fn hex_to_rgb(hex_str: &str) -> (r: Result<(u8, u8, u8), String>)
    requires
        cuts_between_chars(hex_str@),
    ensures
        rgb_view(r) == hex_color(hex_str@),
{
    let s = strip(hex_str);
    let b = s.as_bytes();
    if b.len() != 3 && b.len() != 6 {
        return Err(LENGTH_MESSAGE.to_string());
    }
    let pairs = if b.len() == 3 {
        (pair(b[0], b[0]), pair(b[1], b[1]), pair(b[2], b[2]))
    } else {
        (pair(b[0], b[1]), pair(b[2], b[3]), pair(b[4], b[5]))
    };
    match pairs {
        (Some(r), Some(g), Some(b)) => Ok((r, g, b)),
        _ => Err(DIGIT_MESSAGE.to_string()),
    }
}

} // verus!
