//! What holds of HEX codes.

use crate::clipboard_laws::lemma_drop_leading_split;
use crate::hex::{
    code, cuts_between_chars, digit_value, hex_color, pair_value, rgb_view, six_bytes, DIGIT_MESSAGE,
    LENGTH_MESSAGE,
};
use crate::key_laws::law_trimmed_is_the_middle;
use crate::text::{
    drop_leading, drop_trailing, is_white_space, lemma_drop_leading, trimmed,
};
use vstd::prelude::*;
use vstd::utf8::{
    encode_scalar, encode_utf8, encode_utf8_first_scalar, encode_utf8_valid_utf8, is_ascii_chars, is_ascii_chars_encode_utf8,
    is_char_boundary, is_char_boundary_iff_not_is_continuation_byte, is_continuation_byte,
    pop_first_scalar,
};

verus! {

/// What satisfies `p` at the front is dropped, however much there is of it.
proof fn lemma_drop_leading_past(a: Seq<char>, s: Seq<char>, p: spec_fn(char) -> bool)
    requires
        forall|i: int| 0 <= i < a.len() ==> p(#[trigger] a[i]),
    ensures
        drop_leading(a + s, p) == drop_leading(s, p),
    decreases a.len(),
{
    if a.len() == 0 {
        assert(a + s == s);
    } else {
        assert(p(a[0]));
        assert((a + s).drop_first() == a.drop_first() + s);
        lemma_drop_leading_past(a.drop_first(), s, p);
    }
}

/// The same at the end.
proof fn lemma_drop_trailing_past(s: Seq<char>, b: Seq<char>, p: spec_fn(char) -> bool)
    requires
        forall|i: int| 0 <= i < b.len() ==> p(#[trigger] b[i]),
    ensures
        drop_trailing(s + b, p) == drop_trailing(s, p),
    decreases b.len(),
{
    if b.len() == 0 {
        assert(s + b == s);
    } else {
        assert(p(b.last()));
        assert((s + b).drop_last() == s + b.drop_last());
        lemma_drop_trailing_past(s, b.drop_last(), p);
    }
}

/// Dropping at the front does not reach past a character that stays.
proof fn lemma_drop_leading_within(s: Seq<char>, b: Seq<char>, p: spec_fn(char) -> bool, k: int)
    requires
        0 <= k < s.len(),
        !p(s[k]),
    ensures
        drop_leading(s + b, p) == drop_leading(s, p) + b,
    decreases s.len(),
{
    if p(s[0]) {
        assert((s + b).drop_first() == s.drop_first() + b);
        lemma_drop_leading_within(s.drop_first(), b, p, k - 1);
    }
}

/// Dropping at the end does not reach past a character that stays.
proof fn lemma_drop_trailing_within(a: Seq<char>, s: Seq<char>, p: spec_fn(char) -> bool, k: int)
    requires
        0 <= k < s.len(),
        !p(s[k]),
    ensures
        drop_trailing(a + s, p) == a + drop_trailing(s, p),
    decreases s.len(),
{
    if p(s.last()) {
        assert((a + s).drop_last() == a + s.drop_last());
        lemma_drop_trailing_within(a, s.drop_last(), p, k);
    }
}

/// A text of white space alone has nothing left when it is trimmed.
proof fn lemma_trimmed_blank(s: Seq<char>)
    requires
        forall|i: int| 0 <= i < s.len() ==> is_white_space(#[trigger] s[i]),
    ensures
        trimmed(s) == Seq::<char>::empty(),
{
    let p = |c: char| is_white_space(c);
    lemma_drop_leading(s, p, s.len() as int);
    assert(s.skip(s.len() as int) == Seq::<char>::empty());
}

/// White space around a text does not count when it is trimmed.
proof fn lemma_trimmed_padded(a: Seq<char>, s: Seq<char>, b: Seq<char>)
    requires
        forall|i: int| 0 <= i < a.len() ==> is_white_space(#[trigger] a[i]),
        forall|i: int| 0 <= i < b.len() ==> is_white_space(#[trigger] b[i]),
    ensures
        trimmed(a + s + b) == trimmed(s),
{
    let p = |c: char| is_white_space(c);
    if exists|k: int| 0 <= k < s.len() && !is_white_space(#[trigger] s[k]) {
        let k = choose|k: int| 0 <= k < s.len() && !is_white_space(#[trigger] s[k]);
        assert(a + s + b == a + (s + b));
        lemma_drop_leading_past(a, s + b, p);
        lemma_drop_leading_within(s, b, p, k);
        lemma_drop_trailing_past(drop_leading(s, p), b, p);
    } else {
        lemma_trimmed_blank(s);
        let t = a + s + b;
        assert forall|i: int| 0 <= i < t.len() implies is_white_space(#[trigger] t[i]) by {
            if i < a.len() {
                assert(t[i] == a[i]);
            } else if i < a.len() + s.len() {
                assert(t[i] == s[i - a.len()]);
            } else {
                assert(t[i] == b[i - a.len() - s.len()]);
            }
        }
        lemma_trimmed_blank(t);
    }
}

/// White space around a code does not count: the same colour is read, the same message is
/// given, and the one can be read where the other can.
pub proof fn law_white_space_around_is_ignored(a: Seq<char>, s: Seq<char>, b: Seq<char>)
    requires
        forall|i: int| 0 <= i < a.len() ==> is_white_space(#[trigger] a[i]),
        forall|i: int| 0 <= i < b.len() ==> is_white_space(#[trigger] b[i]),
    ensures
        code(a + s + b) == code(s),
        hex_color(a + s + b) == hex_color(s),
        cuts_between_chars(a + s + b) == cuts_between_chars(s),
{
    lemma_trimmed_padded(a, s, b);
}

/// The `#` signs before a code do not count, where no white space follows them: the same
/// colour is read, the same message is given, and the one can be read where the other can.
pub proof fn law_hashes_before_are_ignored(h: Seq<char>, s: Seq<char>)
    requires
        forall|i: int| 0 <= i < h.len() ==> #[trigger] h[i] == '#',
        s.len() == 0 || !is_white_space(s[0]),
    ensures
        code(h + s) == code(s),
        hex_color(h + s) == hex_color(s),
        cuts_between_chars(h + s) == cuts_between_chars(s),
{
    let p = |c: char| is_white_space(c);
    let q = |c: char| c == '#';
    if h.len() == 0 {
        assert(h + s == s);
    } else {
        assert(h[0] == '#');
        assert(h[h.len() - 1] == '#');
        assert(drop_leading(h + s, p) == h + s);
        if s.len() == 0 {
            assert(h + s == h);
            assert(drop_trailing(h, p) == h);
            assert(trimmed(s) == s);
            assert(trimmed(h + s) == h + s);
        } else {
            lemma_drop_trailing_within(h, s, p, 0);
        }
        assert(trimmed(h + s) == h + trimmed(s));
        lemma_drop_leading_past(h, trimmed(s), q);
    }
}

/// Whether `c` is an ASCII hexadecimal digit.
pub open spec fn is_hex_digit(c: char) -> bool {
    '0' <= c <= '9' || 'A' <= c <= 'F' || 'a' <= c <= 'f'
}

/// The value of a hexadecimal digit.
pub open spec fn value(c: char) -> int {
    if '0' <= c <= '9' {
        c as int - 48
    } else if 'A' <= c <= 'F' {
        c as int - 55
    } else {
        c as int - 87
    }
}

/// A text of hexadecimal digits is its own code, byte by byte.
proof fn lemma_digits_code(s: Seq<char>)
    requires
        forall|i: int| 0 <= i < s.len() ==> is_hex_digit(#[trigger] s[i]),
    ensures
        code(s) == s,
        encode_utf8(s).len() == s.len(),
        forall|i: int| 0 <= i < s.len() ==> encode_utf8(s)[i] == #[trigger] s[i] as u8,
{
    let p = |c: char| is_white_space(c);
    let q = |c: char| c == '#';
    if s.len() > 0 {
        assert(is_hex_digit(s[0]) && is_hex_digit(s[s.len() - 1]));
    }
    assert(trimmed(s) == s);
    assert(is_ascii_chars(s));
    is_ascii_chars_encode_utf8(s);
}

/// Six digits are the channels, two digits to each, the more significant first.
pub proof fn law_six_digits(s: Seq<char>)
    requires
        s.len() == 6,
        forall|i: int| 0 <= i < s.len() ==> is_hex_digit(#[trigger] s[i]),
    ensures
        hex_color(s) == Ok::<(u8, u8, u8), Seq<char>>(
            (
                (16 * value(s[0]) + value(s[1])) as u8,
                (16 * value(s[2]) + value(s[3])) as u8,
                (16 * value(s[4]) + value(s[5])) as u8,
            ),
        ),
{
    lemma_digits_code(s);
    assert(is_hex_digit(s[0]) && is_hex_digit(s[1]) && is_hex_digit(s[2]) && is_hex_digit(s[3])
        && is_hex_digit(s[4]) && is_hex_digit(s[5]));
}

/// Three digits stand for six, each of them doubled.
pub proof fn law_three_digits_are_doubled(s: Seq<char>)
    requires
        s.len() == 3,
        forall|i: int| 0 <= i < s.len() ==> is_hex_digit(#[trigger] s[i]),
    ensures
        hex_color(s) == hex_color(seq![s[0], s[0], s[1], s[1], s[2], s[2]]),
        hex_color(s) is Ok,
{
    lemma_digits_code(s);
    assert(is_hex_digit(s[0]) && is_hex_digit(s[1]) && is_hex_digit(s[2]));
    law_six_digits(seq![s[0], s[0], s[1], s[1], s[2], s[2]]);
}

/// The hexadecimal digit of `n`, in upper case.
pub open spec fn upper_digit(n: int) -> char {
    if n < 10 {
        (48 + n) as char
    } else {
        (55 + n) as char
    }
}

/// The code of a colour, in upper case and with a `#`.
pub open spec fn upper_code(rgb: (u8, u8, u8)) -> Seq<char> {
    seq![
        '#',
        upper_digit((rgb.0 / 16) as int),
        upper_digit((rgb.0 % 16) as int),
        upper_digit((rgb.1 / 16) as int),
        upper_digit((rgb.1 % 16) as int),
        upper_digit((rgb.2 / 16) as int),
        upper_digit((rgb.2 % 16) as int),
    ]
}

proof fn lemma_upper_digit(n: int)
    requires
        0 <= n < 16,
    ensures
        is_hex_digit(upper_digit(n)),
        value(upper_digit(n)) == n,
{
}

/// Every colour has a code that is read as that colour.
pub proof fn law_every_color_has_a_code(rgb: (u8, u8, u8))
    ensures
        hex_color(upper_code(rgb)) == Ok::<(u8, u8, u8), Seq<char>>(rgb),
{
    let s = upper_code(rgb);
    let h = seq!['#'];
    let t = s.drop_first();
    assert(s == h + t);
    lemma_upper_digit((rgb.0 / 16) as int);
    lemma_upper_digit((rgb.0 % 16) as int);
    lemma_upper_digit((rgb.1 / 16) as int);
    lemma_upper_digit((rgb.1 % 16) as int);
    lemma_upper_digit((rgb.2 / 16) as int);
    lemma_upper_digit((rgb.2 % 16) as int);
    assert(forall|i: int| 0 <= i < t.len() ==> is_hex_digit(#[trigger] t[i]));
    law_hashes_before_are_ignored(h, t);
    law_six_digits(t);
}

/// Whether two characters are one but for the case of an ASCII letter.
pub open spec fn same_but_case(c: char, d: char) -> bool {
    ||| c == d
    ||| 'a' <= c <= 'z' && c as int == d as int + 32
    ||| 'a' <= d <= 'z' && d as int == c as int + 32
}

/// Whether two texts are one but for the case of their ASCII letters.
pub open spec fn texts_same_but_case(s: Seq<char>, t: Seq<char>) -> bool {
    &&& s.len() == t.len()
    &&& forall|i: int| #![trigger s[i]] #![trigger t[i]] 0 <= i < s.len() ==> same_but_case(s[i], t[i])
}

proof fn lemma_case_drop_leading(s: Seq<char>, t: Seq<char>, p: spec_fn(char) -> bool)
    requires
        texts_same_but_case(s, t),
        forall|c: char, d: char| #[trigger] same_but_case(c, d) ==> p(c) == p(d),
    ensures
        texts_same_but_case(drop_leading(s, p), drop_leading(t, p)),
    decreases s.len(),
{
    if s.len() > 0 {
        assert(same_but_case(s[0], t[0]));
        lemma_case_drop_leading(s.drop_first(), t.drop_first(), p);
    }
}

proof fn lemma_case_drop_trailing(s: Seq<char>, t: Seq<char>, p: spec_fn(char) -> bool)
    requires
        texts_same_but_case(s, t),
        forall|c: char, d: char| #[trigger] same_but_case(c, d) ==> p(c) == p(d),
    ensures
        texts_same_but_case(drop_trailing(s, p), drop_trailing(t, p)),
    decreases s.len(),
{
    if s.len() > 0 {
        assert(same_but_case(s[s.len() - 1], t[t.len() - 1]));
        lemma_case_drop_trailing(s.drop_last(), t.drop_last(), p);
    }
}

/// The byte of an ASCII character is the character.
proof fn lemma_ascii_scalar(c: u32)
    requires
        c <= 0x7f,
    ensures
        encode_scalar(c) == seq![c as u8],
{
    assert((c & 0x7f) as u8 == c as u8) by (bit_vector)
        requires
            c <= 0x7f,
    ;
}

/// Whether two bytes count alike in a code.
spec fn bytes_alike(x: u8, y: u8) -> bool {
    &&& digit_value(x) == digit_value(y)
    &&& x == 0x2b <==> y == 0x2b
    &&& is_continuation_byte(x) == is_continuation_byte(y)
}

proof fn lemma_case_encode(s: Seq<char>, t: Seq<char>)
    requires
        texts_same_but_case(s, t),
    ensures
        encode_utf8(s).len() == encode_utf8(t).len(),
        forall|i: int|
            0 <= i < encode_utf8(s).len() ==> bytes_alike(
                #[trigger] encode_utf8(s)[i],
                encode_utf8(t)[i],
            ),
    decreases s.len(),
{
    if s.len() > 0 {
        let (c, d) = (s[0] as u32, t[0] as u32);
        assert(same_but_case(s[0], t[0]));
        lemma_case_encode(s.drop_first(), t.drop_first());
        if s[0] != t[0] {
            lemma_ascii_scalar(c);
            lemma_ascii_scalar(d);
        }
        let (x, y) = (encode_scalar(c), encode_scalar(d));
        let (u, v) = (encode_utf8(s.drop_first()), encode_utf8(t.drop_first()));
        assert(encode_utf8(s) == x + u && encode_utf8(t) == y + v);
        assert forall|i: int| 0 <= i < (x + u).len() implies bytes_alike(
            #[trigger] encode_utf8(s)[i],
            encode_utf8(t)[i],
        ) by {
            if i >= x.len() {
                assert(bytes_alike(u[i - x.len()], v[i - x.len()]));
            }
        }
    }
}

/// The case of ASCII letters does not count: the same colour is read, the same message is
/// given, and the one can be read where the other can.
pub proof fn law_case_is_ignored(s: Seq<char>, t: Seq<char>)
    requires
        texts_same_but_case(s, t),
    ensures
        hex_color(s) == hex_color(t),
        cuts_between_chars(s) == cuts_between_chars(t),
{
    let p = |c: char| is_white_space(c);
    let q = |c: char| c == '#';
    lemma_case_drop_leading(s, t, p);
    lemma_case_drop_trailing(drop_leading(s, p), drop_leading(t, p), p);
    lemma_case_drop_leading(trimmed(s), trimmed(t), q);
    lemma_case_encode(code(s), code(t));
    let (x, y) = (encode_utf8(code(s)), encode_utf8(code(t)));
    encode_utf8_valid_utf8(code(s));
    encode_utf8_valid_utf8(code(t));
    assert forall|i: int| 0 <= i < x.len() implies is_char_boundary(x, i) == is_char_boundary(
        y,
        i,
    ) by {
        assert(bytes_alike(x[i], y[i]));
        is_char_boundary_iff_not_is_continuation_byte(x, i);
        is_char_boundary_iff_not_is_continuation_byte(y, i);
    }
    if x.len() == 3 || x.len() == 6 {
        assert forall|i: int| 0 <= i < 6 implies bytes_alike(
            #[trigger] six_bytes(x)[i],
            six_bytes(y)[i],
        ) by {
            if x.len() == 3 {
                assert(bytes_alike(x[0], y[0]) && bytes_alike(x[1], y[1]) && bytes_alike(x[2], y[2]));
            } else {
                assert(bytes_alike(x[i], y[i]));
            }
        }
        let (d, e) = (six_bytes(x), six_bytes(y));
        assert(bytes_alike(d[0], e[0]) && bytes_alike(d[1], e[1]) && bytes_alike(d[2], e[2])
            && bytes_alike(d[3], e[3]) && bytes_alike(d[4], e[4]) && bytes_alike(d[5], e[5]));
    }
}

/// A character is its number.
proof fn lemma_char_code(c: char)
    ensures
        c as int == (c as u32) as int,
{
}

/// A text whose bytes are all ASCII consists of ASCII characters.
proof fn lemma_ascii_bytes(s: Seq<char>)
    requires
        forall|i: int| 0 <= i < encode_utf8(s).len() ==> #[trigger] encode_utf8(s)[i] <= 0x7f,
    ensures
        is_ascii_chars(s),
    decreases s.len(),
{
    if s.len() > 0 {
        let c = s[0] as u32;
        let (x, u) = (encode_scalar(c), encode_utf8(s.drop_first()));
        assert(encode_utf8(s) == x + u);
        assert(x[0] == encode_utf8(s)[0]);
        assert(0xc0 | ((c >> 6) & 0x1f) as u8 > 0x7f) by (bit_vector);
        assert(0xe0 | ((c >> 12) & 0x0f) as u8 > 0x7f) by (bit_vector);
        assert(0xf0 | ((c >> 18) & 0x7) as u8 > 0x7f) by (bit_vector);
        assert(c <= 0x7f);
        assert forall|i: int| 0 <= i < u.len() implies #[trigger] u[i] <= 0x7f by {
            assert(u[i] == encode_utf8(s)[i + x.len()]);
        }
        lemma_ascii_bytes(s.drop_first());
        assert forall|i: int| 0 <= i < s.len() implies '\0' <= #[trigger] s[i] <= '\u{7f}' by {
            if i > 0 {
                assert(s[i] == s.drop_first()[i - 1]);
            } else {
                lemma_char_code(s[0]);
            }
        }
    }
}

/// A code of ASCII bytes is cut between its characters.
proof fn lemma_ascii_bytes_are_cut(s: Seq<char>)
    requires
        forall|i: int|
            0 <= i < encode_utf8(code(s)).len() ==> #[trigger] encode_utf8(code(s))[i] <= 0x7f,
    ensures
        cuts_between_chars(s),
{
    let b = encode_utf8(code(s));
    encode_utf8_valid_utf8(code(s));
    assert forall|i: int| 0 <= i < b.len() implies is_char_boundary(b, i) by {
        assert(b[i] <= 0x7f);
        is_char_boundary_iff_not_is_continuation_byte(b, i);
    }
}

/// A code that is read as a colour is ASCII.
pub proof fn lemma_colors_are_ascii(s: Seq<char>)
    requires
        hex_color(s) is Ok,
    ensures
        is_ascii_chars(code(s)),
        forall|i: int|
            0 <= i < encode_utf8(code(s)).len() ==> #[trigger] encode_utf8(code(s))[i] <= 0x7f,
{
    let b = encode_utf8(code(s));
    let d = six_bytes(b);
    assert(pair_value(d[0], d[1]) is Some && pair_value(d[2], d[3]) is Some && pair_value(
        d[4],
        d[5],
    ) is Some);
    assert forall|i: int| 0 <= i < b.len() implies #[trigger] b[i] <= 0x7f by {
        if b.len() == 3 {
            assert(d[2 * i] == b[i]);
        } else {
            assert(d[i] == b[i]);
        }
    }
    lemma_ascii_bytes(code(s));
}

/// A code that is read as a colour is cut between its characters.
pub proof fn law_colors_are_cut_between_chars(s: Seq<char>)
    requires
        hex_color(s) is Ok,
    ensures
        cuts_between_chars(s),
{
    lemma_colors_are_ascii(s);
    lemma_ascii_bytes_are_cut(s);
}

/// What is left of an ASCII text is ASCII.
proof fn lemma_ascii_drop(s: Seq<char>, p: spec_fn(char) -> bool)
    requires
        is_ascii_chars(s),
    ensures
        is_ascii_chars(drop_leading(s, p)),
        is_ascii_chars(drop_trailing(s, p)),
    decreases s.len(),
{
    if s.len() > 0 {
        lemma_ascii_drop(s.drop_first(), p);
        lemma_ascii_drop(s.drop_last(), p);
    }
}

/// An ASCII text is cut between its characters.
pub proof fn law_ascii_is_cut_between_chars(s: Seq<char>)
    requires
        is_ascii_chars(s),
    ensures
        cuts_between_chars(s),
{
    let p = |c: char| is_white_space(c);
    let q = |c: char| c == '#';
    lemma_ascii_drop(s, p);
    lemma_ascii_drop(drop_leading(s, p), p);
    lemma_ascii_drop(trimmed(s), q);
    let b = encode_utf8(code(s));
    is_ascii_chars_encode_utf8(code(s));
    assert forall|i: int| 0 <= i < b.len() implies #[trigger] b[i] <= 0x7f by {
        assert(code(s)[i] as u8 == b[i]);
    }
    lemma_ascii_bytes_are_cut(s);
}

/// Whether two characters can be read as a channel: two digits, or a plus sign and a digit.
pub open spec fn is_pair(hi: char, lo: char) -> bool {
    (is_hex_digit(hi) || hi == '+') && is_hex_digit(lo)
}

/// The channel that two characters stand for; a plus sign counts nothing.
pub open spec fn channel(hi: char, lo: char) -> int {
    (if hi == '+' {
        0
    } else {
        16 * value(hi)
    }) + value(lo)
}

/// A pair of bytes is read as the pair of characters that they are.
proof fn lemma_pair_of_chars(hi: char, lo: char)
    requires
        hi <= '\u{7f}',
        lo <= '\u{7f}',
    ensures
        pair_value(hi as u8, lo as u8) is Some <==> is_pair(hi, lo),
        is_pair(hi, lo) ==> pair_value(hi as u8, lo as u8)->Some_0 == channel(hi, lo),
{
}

/// Which codes are read, and as what: three digits, each doubled, or three pairs of digits,
/// in each of which a plus sign may take the place of the first digit. No other code is.
pub proof fn law_codes_that_are_read(s: Seq<char>)
    ensures
        ({
            let c = code(s);
            let three = c.len() == 3 && forall|i: int| 0 <= i < 3 ==> is_hex_digit(#[trigger] c[i]);
            let six = c.len() == 6 && is_pair(c[0], c[1]) && is_pair(c[2], c[3]) && is_pair(
                c[4],
                c[5],
            );
            &&& hex_color(s) is Ok <==> three || six
            &&& three ==> hex_color(s)->Ok_0.0 == 17 * value(c[0]) && hex_color(s)->Ok_0.1 == 17
                * value(c[1]) && hex_color(s)->Ok_0.2 == 17 * value(c[2])
            &&& six ==> hex_color(s)->Ok_0.0 == channel(c[0], c[1]) && hex_color(s)->Ok_0.1
                == channel(c[2], c[3]) && hex_color(s)->Ok_0.2 == channel(c[4], c[5])
        }),
{
    let c = code(s);
    let b = encode_utf8(c);
    let three = c.len() == 3 && forall|i: int| 0 <= i < 3 ==> is_hex_digit(#[trigger] c[i]);
    let six = c.len() == 6 && is_pair(c[0], c[1]) && is_pair(c[2], c[3]) && is_pair(c[4], c[5]);
    if hex_color(s) is Ok {
        lemma_colors_are_ascii(s);
    }
    if three {
        assert(is_hex_digit(c[0]) && is_hex_digit(c[1]) && is_hex_digit(c[2]));
    }
    if hex_color(s) is Ok || three || six {
        assert(is_ascii_chars(c));
        is_ascii_chars_encode_utf8(c);
        assert(b.len() == c.len());
        if c.len() == 3 {
            assert(c[0] as u8 == b[0] && c[1] as u8 == b[1] && c[2] as u8 == b[2]);
            lemma_pair_of_chars(c[0], c[0]);
            lemma_pair_of_chars(c[1], c[1]);
            lemma_pair_of_chars(c[2], c[2]);
        } else {
            assert(c[0] as u8 == b[0] && c[1] as u8 == b[1] && c[2] as u8 == b[2] && c[3] as u8
                == b[3] && c[4] as u8 == b[4] && c[5] as u8 == b[5]);
            lemma_pair_of_chars(c[0], c[1]);
            lemma_pair_of_chars(c[2], c[3]);
            lemma_pair_of_chars(c[4], c[5]);
        }
    }
}

/// Why a code is refused: for its length in bytes, where that is neither three nor six, and
/// otherwise for a digit.
pub proof fn law_refusals_are_told(s: Seq<char>)
    ensures
        encode_utf8(code(s)).len() != 3 && encode_utf8(code(s)).len() != 6 ==> hex_color(s)
            == Err::<(u8, u8, u8), Seq<char>>(LENGTH_MESSAGE@),
        (encode_utf8(code(s)).len() == 3 || encode_utf8(code(s)).len() == 6) && hex_color(s) is Err
            ==> hex_color(s) == Err::<(u8, u8, u8), Seq<char>>(DIGIT_MESSAGE@),
{
}

/// The code in a text is what is left of it without white space at either end and without
/// the `#` signs that then stand in front.
pub proof fn law_code_is_what_is_left(s: Seq<char>)
    ensures
        exists|a: Seq<char>, h: Seq<char>, b: Seq<char>|
            {
                &&& #[trigger] (a + (h + code(s)) + b) == s
                &&& forall|i: int| 0 <= i < a.len() ==> is_white_space(#[trigger] a[i])
                &&& forall|i: int| 0 <= i < b.len() ==> is_white_space(#[trigger] b[i])
                &&& forall|i: int| 0 <= i < h.len() ==> #[trigger] h[i] == '#'
                &&& (h + code(s)).len() > 0 ==> !is_white_space((h + code(s))[0])
                    && !is_white_space((h + code(s)).last())
            },
        code(s).len() > 0 ==> code(s)[0] != '#',
{
    let q = |c: char| c == '#';
    let t = trimmed(s);
    law_trimmed_is_the_middle(s);
    let (a, b) = choose|a: Seq<char>, b: Seq<char>|
        {
            &&& #[trigger] (a + trimmed(s) + b) == s
            &&& forall|i: int| 0 <= i < a.len() ==> is_white_space(#[trigger] a[i])
            &&& forall|i: int| 0 <= i < b.len() ==> is_white_space(#[trigger] b[i])
        };
    let k = lemma_drop_leading_split(t, q);
    let h = t.take(k);
    assert(h + code(s) == t);
    assert(a + (h + code(s)) + b == s);
    assert forall|i: int| 0 <= i < h.len() implies #[trigger] h[i] == '#' by {
        assert(q(t[i]));
    }
}

/// Whether the first `n` bytes of a text are whole characters.
pub open spec fn cut_falls_between(s: Seq<char>, n: int) -> bool {
    exists|k: int| 0 <= k <= s.len() && #[trigger] encode_utf8(s.take(k)).len() == n
}

proof fn lemma_boundary_is_cut(s: Seq<char>, n: int)
    ensures
        is_char_boundary(encode_utf8(s), n) == cut_falls_between(s, n),
    decreases s.len(),
{
    let b = encode_utf8(s);
    encode_utf8_valid_utf8(s);
    assert(s.take(0) == Seq::<char>::empty());
    assert(encode_utf8(s.take(0)).len() == 0);
    if n == 0 {
        assert(cut_falls_between(s, n));
    } else if s.len() > 0 {
        let t = s.drop_first();
        let m = encode_scalar(s[0] as u32).len() as int;
        encode_utf8_first_scalar(s);
        assert(pop_first_scalar(b) =~= encode_utf8(t));
        lemma_boundary_is_cut(t, n - m);
        assert forall|k: int| 1 <= k <= s.len() implies #[trigger] encode_utf8(s.take(k)).len()
            == m + encode_utf8(t.take(k - 1)).len() by {
            assert(s.take(k).drop_first() =~= t.take(k - 1));
        }
        if cut_falls_between(t, n - m) {
            let k = choose|k: int| 0 <= k <= t.len() && #[trigger] encode_utf8(t.take(k)).len() == n
                - m;
            assert(encode_utf8(s.take(k + 1)).len() == n);
        }
        if cut_falls_between(s, n) {
            let k = choose|k: int| 0 <= k <= s.len() && #[trigger] encode_utf8(s.take(k)).len()
                == n;
            assert(k >= 1);
            assert(encode_utf8(t.take(k - 1)).len() == n - m);
        }
        if n < 0 || b.len() < n {
            if cut_falls_between(s, n) {
                let k = choose|k: int| 0 <= k <= s.len() && #[trigger] encode_utf8(s.take(k)).len()
                    == n;
                lemma_front_is_shorter(s, k);
            }
        }
    } else {
        assert forall|k: int| 0 <= k <= s.len() implies #[trigger] encode_utf8(s.take(k)).len()
            == 0 by {
            assert(s.take(k) == Seq::<char>::empty());
        }
    }
}

proof fn lemma_front_is_shorter(s: Seq<char>, k: int)
    requires
        0 <= k <= s.len(),
    ensures
        encode_utf8(s.take(k)).len() <= encode_utf8(s).len(),
    decreases s.len(),
{
    if k == 0 {
        assert(s.take(0) == Seq::<char>::empty());
    } else {
        assert(s.take(k).drop_first() =~= s.drop_first().take(k - 1));
        lemma_front_is_shorter(s.drop_first(), k - 1);
    }
}

/// Two bytes at the front of a text that are read as a pair are its first two characters.
proof fn lemma_first_pair(c: Seq<char>)
    requires
        encode_utf8(c).len() >= 2,
    ensures
        pair_value(encode_utf8(c)[0], encode_utf8(c)[1]) is Some <==> c.len() >= 2 && is_pair(
            c[0],
            c[1],
        ),
{
    let b = encode_utf8(c);
    lemma_first_char(c);
    if c[0] <= '\u{7f}' {
        let t = c.drop_first();
        assert(b == seq![c[0] as u8] + encode_utf8(t));
        assert(b[1] == encode_utf8(t)[0]);
        lemma_first_char(t);
        assert(t[0] == c[1]);
        if c[1] <= '\u{7f}' {
            lemma_pair_of_chars(c[0], c[1]);
        }
    }
}

/// A first character that is ASCII is the first byte, and any other starts with a greater one.
proof fn lemma_first_char(c: Seq<char>)
    requires
        encode_utf8(c).len() > 0,
    ensures
        c.len() > 0,
        c[0] <= '\u{7f}' ==> encode_utf8(c) == seq![c[0] as u8] + encode_utf8(c.drop_first()),
        c[0] > '\u{7f}' ==> encode_utf8(c)[0] > 0x7f,
{
    let n = c[0] as u32;
    lemma_char_code(c[0]);
    if n <= 0x7f {
        lemma_ascii_scalar(n);
    } else {
        assert(0xc0 | ((n >> 6) & 0x1f) as u8 > 0x7f) by (bit_vector);
        assert(0xe0 | ((n >> 12) & 0x0f) as u8 > 0x7f) by (bit_vector);
        assert(0xf0 | ((n >> 18) & 0x7) as u8 > 0x7f) by (bit_vector);
        assert(encode_utf8(c)[0] == encode_scalar(n)[0]);
    }
}

/// Which codes can be read at all: of one of three bytes each byte must be a character; one of
/// six bytes must fall apart behind the second byte, and behind the fourth where its first two
/// characters can be read as a channel. A code of another length can always be read, to be
/// refused.
pub proof fn law_codes_are_cut_between_chars(s: Seq<char>)
    ensures
        ({
            let c = code(s);
            let n = encode_utf8(c).len();
            cuts_between_chars(s) <==> {
                &&& n == 3 ==> cut_falls_between(c, 1) && cut_falls_between(c, 2)
                &&& n == 6 ==> cut_falls_between(c, 2) && (c.len() >= 2 && is_pair(c[0], c[1])
                    ==> cut_falls_between(c, 4))
            }
        }),
{
    let c = code(s);
    lemma_boundary_is_cut(c, 1);
    lemma_boundary_is_cut(c, 2);
    lemma_boundary_is_cut(c, 4);
    if encode_utf8(c).len() == 6 {
        lemma_first_pair(c);
    }
}

/// What is read of a code is seen as it is.
pub proof fn law_colors_are_seen_whole(rgb: (u8, u8, u8), message: String)
    ensures
        rgb_view(Ok(rgb)) == Ok::<(u8, u8, u8), Seq<char>>(rgb),
        rgb_view(Err(message)) == Err::<(u8, u8, u8), Seq<char>>(message@),
{
}

} // verus!
