//! What holds of the texts that go to the clipboard and come from it.

use crate::app::{AppView, Field};
use crate::clipboard::{cmyk_text, first_line, is_code_char, pasted_code, rgb_text};
use crate::hex::{code, hex_color, pair_value, six_bytes};
use crate::hex_laws::lemma_colors_are_ascii;
use crate::reading::{
    after_spaces, all_digits, is_digit, is_numeral, labelled, law_decimal_reads_back,
    lemma_after_spaces, lemma_labelled, lemma_leading_digits, listed, number,
};
use crate::text::{decimal, drop_leading, drop_trailing, is_white_space, trimmed};
use vstd::prelude::*;
use vstd::utf8::{encode_utf8, is_ascii_chars_encode_utf8};

verus! {

/// What is kept by a filter satisfies it.
proof fn lemma_filter_keeps(s: Seq<char>, p: spec_fn(char) -> bool)
    ensures
        forall|i: int| 0 <= i < s.filter(p).len() ==> p(#[trigger] s.filter(p)[i]),
    decreases s.len(),
{
    reveal(Seq::filter);
    if s.len() > 0 {
        lemma_filter_keeps(s.drop_last(), p);
    }
}

/// A filter keeps a text that satisfies it throughout.
proof fn lemma_filter_all(s: Seq<char>, p: spec_fn(char) -> bool)
    requires
        forall|i: int| 0 <= i < s.len() ==> p(#[trigger] s[i]),
    ensures
        s.filter(p) == s,
    decreases s.len(),
{
    reveal(Seq::filter);
    if s.len() > 0 {
        assert(p(s[s.len() - 1]));
        lemma_filter_all(s.drop_last(), p);
        assert(s.drop_last().push(s.last()) == s);
    }
}

/// A text without line feeds is its own first line.
proof fn lemma_first_line_all(s: Seq<char>)
    requires
        forall|i: int| 0 <= i < s.len() ==> #[trigger] s[i] != '\n',
    ensures
        first_line(s) == s,
    decreases s.len(),
{
    if s.len() > 0 {
        assert(s[0] != '\n');
        lemma_first_line_all(s.drop_first());
        assert(seq![s[0]] + s.drop_first() == s);
    }
}

/// A text of hexadecimal digits and `#` signs is pasted as it is.
pub proof fn law_codes_are_pasted_whole(s: Seq<char>)
    requires
        forall|i: int| 0 <= i < s.len() ==> is_code_char(#[trigger] s[i]),
    ensures
        pasted_code(s) == s,
{
    lemma_first_line_all(s);
    lemma_filter_all(s, |c: char| is_code_char(c));
}

/// A paste adds to the field in focus, behind what is there, and adds hexadecimal digits
/// and `#` signs alone.
pub proof fn law_paste_adds_code_chars(v: AppView, text: Seq<char>)
    ensures
        v.with_pasted(text).field(v.focus) == v.field(v.focus) + pasted_code(text),
        forall|i: int|
            0 <= i < pasted_code(text).len() ==> is_code_char(#[trigger] pasted_code(text)[i]),
        forall|f: Field| f != v.focus ==> #[trigger] v.with_pasted(text).field(f) == v.field(f),
{
    lemma_filter_keeps(first_line(text), |c: char| is_code_char(c));
    if pasted_code(text).len() == 0 {
        assert(v.field(v.focus) + pasted_code(text) == v.field(v.focus));
    }
}

/// A text without line feeds in front of another goes into its first line.
proof fn lemma_first_line_within(a: Seq<char>, b: Seq<char>)
    requires
        forall|i: int| 0 <= i < a.len() ==> #[trigger] a[i] != '\n',
    ensures
        first_line(a + b) == a + first_line(b),
    decreases a.len(),
{
    if a.len() == 0 {
        assert(a + b == b);
        assert(a + first_line(b) == first_line(b));
    } else {
        assert((a + b)[0] == a[0]);
        assert((a + b).drop_first() == a.drop_first() + b);
        lemma_first_line_within(a.drop_first(), b);
        assert(seq![a[0]] + (a.drop_first() + first_line(b)) == a + first_line(b));
    }
}

/// A filter works on each part of a text.
proof fn lemma_filter_parts(a: Seq<char>, b: Seq<char>, p: spec_fn(char) -> bool)
    ensures
        (a + b).filter(p) == a.filter(p) + b.filter(p),
    decreases b.len(),
{
    reveal(Seq::filter);
    if b.len() == 0 {
        assert(a + b == a);
    } else {
        assert((a + b).drop_last() == a + b.drop_last());
        lemma_filter_parts(a, b.drop_last(), p);
        assert((a + b).last() == b.last());
    }
}

/// A character that cannot stand in a code does not count in a paste, wherever it stands in
/// the first line.
pub proof fn law_other_chars_are_not_pasted(a: Seq<char>, c: char, b: Seq<char>)
    requires
        !('0' <= c <= '9' || 'A' <= c <= 'F' || 'a' <= c <= 'f' || c == '#' || c == '\n'),
    ensures
        pasted_code(a + seq![c] + b) == pasted_code(a + b),
{
    let p = |x: char| is_code_char(x);
    if exists|i: int| 0 <= i < a.len() && #[trigger] a[i] == '\n' {
        lemma_first_line_ends(a, seq![c] + b);
        lemma_first_line_ends(a, b);
        assert(a + seq![c] + b == a + (seq![c] + b));
    } else {
        let one = seq![c];
        assert(one + b == seq![c] + b);
        lemma_first_line_within(a, b);
        lemma_first_line_within(a, one + b);
        lemma_first_line_within(one, b);
        assert(a + one + b == a + (one + b));
        let rest = first_line(b);
        lemma_filter_parts(a, rest, p);
        lemma_filter_parts(a, one + rest, p);
        lemma_filter_parts(one, rest, p);
        assert(one.filter(p) == Seq::<char>::empty()) by {
            reveal(Seq::filter);
            reveal_with_fuel(Seq::filter, 2);
            assert(one.drop_last() == Seq::<char>::empty());
            assert(!p(one.last()));
        }
        assert(Seq::<char>::empty() + rest.filter(p) == rest.filter(p));
    }
}

/// Behind a line feed in a text nothing counts for its first line.
proof fn lemma_first_line_ends(a: Seq<char>, b: Seq<char>)
    requires
        exists|i: int| 0 <= i < a.len() && #[trigger] a[i] == '\n',
    ensures
        first_line(a + b) == first_line(a),
    decreases a.len(),
{
    let i = choose|i: int| 0 <= i < a.len() && #[trigger] a[i] == '\n';
    assert((a + b)[0] == a[0]);
    if a[0] != '\n' {
        assert((a + b).drop_first() == a.drop_first() + b);
        assert(a.drop_first()[i - 1] == '\n');
        lemma_first_line_ends(a.drop_first(), b);
    }
}

/// Nothing behind a line feed is pasted.
pub proof fn law_later_lines_are_not_pasted(a: Seq<char>, b: Seq<char>)
    ensures
        pasted_code(a + seq!['\n'] + b) == pasted_code(a),
{
    if exists|i: int| 0 <= i < a.len() && #[trigger] a[i] == '\n' {
        lemma_first_line_ends(a, seq!['\n'] + b);
        assert(a + seq!['\n'] + b == a + (seq!['\n'] + b));
    } else {
        let t = seq!['\n'] + b;
        assert(a + seq!['\n'] + b == a + t);
        lemma_first_line_within(a, t);
        assert(first_line(t) == Seq::<char>::empty());
        lemma_first_line_all(a);
        assert(a + Seq::<char>::empty() == a);
    }
}

/// What [`drop_leading`] drops satisfies the predicate; the rest is the end of the text.
pub proof fn lemma_drop_leading_split(s: Seq<char>, p: spec_fn(char) -> bool) -> (k: int)
    ensures
        0 <= k <= s.len(),
        forall|i: int| 0 <= i < k ==> p(#[trigger] s[i]),
        k < s.len() ==> !p(s[k]),
        drop_leading(s, p) == s.skip(k),
    decreases s.len(),
{
    if s.len() > 0 && p(s[0]) {
        let t = s.drop_first();
        let k = lemma_drop_leading_split(t, p);
        assert forall|i: int| 0 <= i < k + 1 implies p(#[trigger] s[i]) by {
            if i > 0 {
                assert(s[i] == t[i - 1]);
            }
        }
        assert(t.skip(k) == s.skip(k + 1));
        k + 1
    } else {
        assert(s.skip(0) == s);
        0
    }
}

/// What [`drop_trailing`] drops satisfies the predicate; the rest is the front of the text.
pub proof fn lemma_drop_trailing_split(s: Seq<char>, p: spec_fn(char) -> bool) -> (k: int)
    ensures
        0 <= k <= s.len(),
        forall|i: int| k <= i < s.len() ==> p(#[trigger] s[i]),
        k > 0 ==> !p(s[k - 1]),
        drop_trailing(s, p) == s.take(k),
    decreases s.len(),
{
    if s.len() > 0 && p(s.last()) {
        let t = s.drop_last();
        let k = lemma_drop_trailing_split(t, p);
        assert forall|i: int| k <= i < s.len() implies p(#[trigger] s[i]) by {
            if i < t.len() {
                assert(s[i] == t[i]);
            }
        }
        assert(t.take(k) == s.take(k));
        k
    } else {
        assert(s.take(s.len() as int) == s);
        s.len() as int
    }
}

/// The HEX code that is copied out of one state, where it is read as a colour and holds no
/// plus sign, is pasted whole into an empty field of another and read there as the same
/// colour.
pub proof fn law_copied_code_pastes_back(v: AppView, w: AppView)
    requires
        hex_color(v.hex_input) is Ok,
        forall|i: int| 0 <= i < v.hex_input.len() ==> #[trigger] v.hex_input[i] != '+',
        w.focus == Field::Hex,
        w.hex_input.len() == 0,
    ensures
        w.with_pasted(trimmed(v.hex_input)).hex_input == trimmed(v.hex_input),
        hex_color(w.with_pasted(trimmed(v.hex_input)).hex_input) == hex_color(v.hex_input),
{
    let s = v.hex_input;
    let t = trimmed(s);
    let u = code(s);
    let b = encode_utf8(u);
    let d = six_bytes(b);
    lemma_colors_are_ascii(s);
    is_ascii_chars_encode_utf8(u);
    let k = lemma_drop_leading_split(t, |c: char| c == '#');
    assert(pair_value(d[0], d[1]) is Some && pair_value(d[2], d[3]) is Some && pair_value(
        d[4],
        d[5],
    ) is Some);
    lemma_trimmed_contains(s);
    assert forall|i: int| 0 <= i < t.len() implies is_code_char(#[trigger] t[i]) by {
        if i >= k {
            let j = i - k;
            assert(u[j] == t[i]);
            assert(u[j] as u8 == b[j]);
            assert(s.contains(t[i]));
            if b.len() == 3 {
                assert(d[2 * j] == b[j]);
            } else {
                assert(d[j] == b[j]);
            }
        }
    }
    law_codes_are_pasted_whole(t);
    assert(Seq::<char>::empty() + t == t);
    assert(w.hex_input == Seq::<char>::empty());
    if t.len() > 0 {
        assert(is_code_char(t[0]) && is_code_char(t[t.len() - 1]));
    }
    assert(trimmed(t) == t);
}

/// Trimming adds no character.
proof fn lemma_trimmed_contains(s: Seq<char>)
    ensures
        forall|i: int| 0 <= i < trimmed(s).len() ==> s.contains(#[trigger] trimmed(s)[i]),
{
    let p = |c: char| is_white_space(c);
    let k = lemma_drop_leading_split(s, p);
    let j = lemma_drop_trailing_split(drop_leading(s, p), p);
    assert forall|i: int| 0 <= i < trimmed(s).len() implies s.contains(
        #[trigger] trimmed(s)[i],
    ) by {
        assert(trimmed(s)[i] == s[i + k]);
    }
}

proof fn lemma_decimal_digits(n: nat)
    ensures
        all_digits(decimal(n)),
        decimal(n).len() > 0,
    decreases n,
{
    if n >= 10 {
        lemma_decimal_digits(n / 10);
    }
}

proof fn lemma_decimal_injective(m: nat, n: nat)
    requires
        decimal(m) == decimal(n),
    ensures
        m == n,
    decreases m,
{
    let (a, b) = (decimal(m), decimal(n));
    assert(a.last() == (48 + m % 10) as char);
    assert(b.last() == (48 + n % 10) as char);
    assert(m % 10 == n % 10);
    lemma_decimal_digits(m / 10);
    lemma_decimal_digits(n / 10);
    if m >= 10 && n >= 10 {
        assert(a.drop_last() == decimal(m / 10));
        assert(b.drop_last() == decimal(n / 10));
        lemma_decimal_injective(m / 10, n / 10);
    } else {
        assert(m >= 10 ==> a.len() > 1);
        assert(n >= 10 ==> b.len() > 1);
    }
}

/// Two texts that start with digits and go on with one separator agree in both parts.
proof fn lemma_split_at_separator(
    a: Seq<char>,
    x: Seq<char>,
    b: Seq<char>,
    y: Seq<char>,
    sep: Seq<char>,
)
    requires
        all_digits(a),
        all_digits(b),
        sep.len() > 0,
        !is_digit(sep[0]),
        a + sep + x == b + sep + y,
    ensures
        a == b,
        x == y,
{
    let (s, t) = (a + sep + x, b + sep + y);
    if a.len() < b.len() {
        assert(s[a.len() as int] == sep[0]);
        assert(t[a.len() as int] == b[a.len() as int]);
    } else if b.len() < a.len() {
        assert(t[b.len() as int] == sep[0]);
        assert(s[b.len() as int] == a[b.len() as int]);
    }
    assert(a == s.take(a.len() as int));
    assert(b == t.take(b.len() as int));
    assert(x == s.skip((a.len() + sep.len()) as int));
    assert(y == t.skip((b.len() + sep.len()) as int));
}

/// Three numbers can be read back from a text that sets them apart.
proof fn lemma_three_numbers(
    p: (u8, u8, u8),
    q: (u8, u8, u8),
    s1: Seq<char>,
    s2: Seq<char>,
    s3: Seq<char>,
)
    requires
        s2.len() > 0 && !is_digit(s2[0]),
        s3.len() > 0 && !is_digit(s3[0]),
        s1 + decimal(p.0 as nat) + s2 + decimal(p.1 as nat) + s3 + decimal(p.2 as nat) == s1
            + decimal(q.0 as nat) + s2 + decimal(q.1 as nat) + s3 + decimal(q.2 as nat),
    ensures
        p == q,
{
    let (a, b, c) = (decimal(p.0 as nat), decimal(p.1 as nat), decimal(p.2 as nat));
    let (x, y, z) = (decimal(q.0 as nat), decimal(q.1 as nat), decimal(q.2 as nat));
    lemma_decimal_digits(p.0 as nat);
    lemma_decimal_digits(p.1 as nat);
    lemma_decimal_digits(q.0 as nat);
    lemma_decimal_digits(q.1 as nat);
    lemma_rest(s1, a, s2, b, s3, c);
    lemma_rest(s1, x, s2, y, s3, z);
    lemma_split_at_separator(a, b + s3 + c, x, y + s3 + z, s2);
    lemma_split_at_separator(b, c, y, z, s3);
    lemma_decimal_injective(p.0 as nat, q.0 as nat);
    lemma_decimal_injective(p.1 as nat, q.1 as nat);
    lemma_decimal_injective(p.2 as nat, q.2 as nat);
}

proof fn lemma_rest(
    s1: Seq<char>,
    a: Seq<char>,
    s2: Seq<char>,
    b: Seq<char>,
    s3: Seq<char>,
    c: Seq<char>,
)
    ensures
        (s1 + a + s2 + b + s3 + c).skip(s1.len() as int) == a + s2 + (b + s3 + c),
{
    assert(s1 + a + s2 + b + s3 + c =~= s1 + (a + s2 + (b + s3 + c)));
    let t = a + s2 + (b + s3 + c);
    assert((s1 + t).skip(s1.len() as int) =~= t);
}

/// Four numbers can be read back from a text that sets them apart.
proof fn lemma_four_numbers(
    p: (u8, u8, u8, u8),
    q: (u8, u8, u8, u8),
    s1: Seq<char>,
    s2: Seq<char>,
    s3: Seq<char>,
    s4: Seq<char>,
)
    requires
        s2.len() > 0 && !is_digit(s2[0]),
        s3.len() > 0 && !is_digit(s3[0]),
        s4.len() > 0 && !is_digit(s4[0]),
        s1 + decimal(p.0 as nat) + s2 + decimal(p.1 as nat) + s3 + decimal(p.2 as nat) + s4
            + decimal(p.3 as nat) == s1 + decimal(q.0 as nat) + s2 + decimal(q.1 as nat) + s3
            + decimal(q.2 as nat) + s4 + decimal(q.3 as nat),
    ensures
        p == q,
{
    let (a, b) = (decimal(p.0 as nat), decimal(p.1 as nat));
    let (c, d) = (decimal(p.2 as nat), decimal(p.3 as nat));
    let (w, x) = (decimal(q.0 as nat), decimal(q.1 as nat));
    let (y, z) = (decimal(q.2 as nat), decimal(q.3 as nat));
    lemma_decimal_digits(p.0 as nat);
    lemma_decimal_digits(p.1 as nat);
    lemma_decimal_digits(p.2 as nat);
    lemma_decimal_digits(q.0 as nat);
    lemma_decimal_digits(q.1 as nat);
    lemma_decimal_digits(q.2 as nat);
    assert(s1 + a + s2 + b + s3 + c + s4 + d =~= s1 + a + s2 + b + s3 + (c + s4 + d));
    assert(s1 + w + s2 + x + s3 + y + s4 + z =~= s1 + w + s2 + x + s3 + (y + s4 + z));
    lemma_rest(s1, a, s2, b, s3, c + s4 + d);
    lemma_rest(s1, w, s2, x, s3, y + s4 + z);
    lemma_split_at_separator(a, b + s3 + (c + s4 + d), w, x + s3 + (y + s4 + z), s2);
    lemma_split_at_separator(b, c + s4 + d, x, y + s4 + z, s3);
    lemma_split_at_separator(c, d, y, z, s4);
    lemma_decimal_injective(p.0 as nat, q.0 as nat);
    lemma_decimal_injective(p.1 as nat, q.1 as nat);
    lemma_decimal_injective(p.2 as nat, q.2 as nat);
    lemma_decimal_injective(p.3 as nat, q.3 as nat);
}

/// A copied colour has each channel behind its own label, a channel to a line.
pub proof fn law_copied_channels_are_labelled(p: (u8, u8, u8))
    ensures
        labelled(rgb_text(p, false), 'R') == p.0,
        labelled(rgb_text(p, false), 'G') == p.1,
        labelled(rgb_text(p, false), 'B') == p.2,
        exists|r: Seq<char>, g: Seq<char>, b: Seq<char>|
            #![trigger is_numeral(r, p.0 as int), is_numeral(g, p.1 as int), is_numeral(b, p.2 as int)]
            is_numeral(r, p.0 as int) && is_numeral(g, p.1 as int) && is_numeral(b, p.2 as int)
                && rgb_text(p, false) == seq!['R', ' '] + r + seq!['\n', 'G', ' '] + g + seq![
                '\n',
                'B',
                ' ',
            ] + b,
{
    reveal_strlit("R ");
    reveal_strlit("\nG ");
    reveal_strlit("\nB ");
    assert("R "@ =~= seq!['R', ' ']);
    assert("\nG "@ =~= seq!['\n', 'G', ' ']);
    assert("\nB "@ =~= seq!['\n', 'B', ' ']);
    law_decimal_reads_back(p.0 as nat);
    law_decimal_reads_back(p.1 as nat);
    law_decimal_reads_back(p.2 as nat);
    let (a, b, c) = (decimal(p.0 as nat), decimal(p.1 as nat), decimal(p.2 as nat));
    lemma_three_lines('R', a, 'G', b, 'B', c);
}

/// Three labelled lines can be read back.
proof fn lemma_three_lines(
    l: char,
    a: Seq<char>,
    m: char,
    b: Seq<char>,
    n: char,
    c: Seq<char>,
)
    requires
        all_digits(a) && all_digits(b) && all_digits(c),
        is_label(l) && is_label(m) && is_label(n),
        l != m && l != n && m != n,
    ensures
        ({
            let s = seq![l, ' '] + a + seq!['\n', m, ' '] + b + seq!['\n', n, ' '] + c;
            labelled(s, l) == number(a) && labelled(s, m) == number(b) && labelled(s, n) == number(
                c,
            )
        }),
{
    let e = Seq::<char>::empty();
    let s = seq![l, ' '] + a + seq!['\n', m, ' '] + b + seq!['\n', n, ' '] + c;
    let rest1 = seq!['\n', m, ' '] + b + seq!['\n', n, ' '] + c;
    assert(s =~= e + seq![l, ' '] + a + rest1);
    lemma_labelled(e, l, a, rest1);
    let pre2 = seq![l, ' '] + a + seq!['\n'];
    let rest2 = seq!['\n', n, ' '] + c;
    assert(s =~= pre2 + seq![m, ' '] + b + rest2);
    assert forall|i: int| 0 <= i < pre2.len() implies #[trigger] pre2[i] != m by {
        if 2 <= i < 2 + a.len() {
            assert(is_digit(a[i - 2]));
        }
    }
    lemma_labelled(pre2, m, b, rest2);
    let pre3 = pre2 + seq![m, ' '] + b + seq!['\n'];
    assert(s =~= pre3 + seq![n, ' '] + c + e);
    assert forall|i: int| 0 <= i < pre3.len() implies #[trigger] pre3[i] != n by {
        let j = i - pre2.len() - 2;
        if 2 <= i < 2 + a.len() {
            assert(is_digit(a[i - 2]));
        } else if 0 <= j < b.len() {
            assert(pre3[i] == b[j]);
        }
    }
    lemma_labelled(pre3, n, c, e);
}

/// Whether `c` can be told from digits, spaces and line feeds.
spec fn is_label(c: char) -> bool {
    !is_digit(c) && c != ' ' && c != '\n'
}

/// A colour that is copied on one line lists its channels in order.
pub proof fn law_copied_channels_are_listed(p: (u8, u8, u8))
    ensures
        listed(rgb_text(p, true), 1) == p.0,
        listed(rgb_text(p, true), 2) == p.1,
        listed(rgb_text(p, true), 3) == p.2,
        exists|r: Seq<char>, g: Seq<char>, b: Seq<char>|
            #![trigger is_numeral(r, p.0 as int), is_numeral(g, p.1 as int), is_numeral(b, p.2 as int)]
            is_numeral(r, p.0 as int) && is_numeral(g, p.1 as int) && is_numeral(b, p.2 as int)
                && rgb_text(p, true) == seq!['R', 'G', 'B', ':', ' '] + r + seq![',', ' '] + g
                + seq![',', ' '] + b,
{
    reveal_strlit("RGB: ");
    reveal_strlit(", ");
    assert("RGB: "@ =~= seq!['R', 'G', 'B', ':', ' ']);
    assert(", "@ =~= seq![',', ' ']);
    law_decimal_reads_back(p.0 as nat);
    law_decimal_reads_back(p.1 as nat);
    law_decimal_reads_back(p.2 as nat);
    let (a, b, c) = (decimal(p.0 as nat), decimal(p.1 as nat), decimal(p.2 as nat));
    let s = rgb_text(p, true);
    let sep = seq![',', ' '];
    let e = Seq::<char>::empty();
    let t1 = a + sep + (b + sep + c);
    let head = seq!['R', 'G', 'B', ':'];
    assert(s =~= head + seq![' '] + t1);
    lemma_after_spaces(s, 0, head, t1);
    lemma_list_item(s, 1, a, b + sep + c);
    lemma_list_item(s, 2, b, c);
    assert(c + e == c);
    lemma_leading_digits(c, e);
}

/// A number in a list, and what stands behind it.
proof fn lemma_list_item(s: Seq<char>, n: nat, d: Seq<char>, rest: Seq<char>)
    requires
        all_digits(d),
        after_spaces(s, n) == d + seq![',', ' '] + rest,
    ensures
        listed(s, n) == number(d),
        after_spaces(s, n + 1) == rest,
{
    let tail = seq![',', ' '] + rest;
    assert(d + seq![',', ' '] + rest =~= d + tail);
    lemma_leading_digits(d, tail);
    let a = d + seq![','];
    assert(d + seq![',', ' '] + rest =~= a + seq![' '] + rest);
    assert forall|i: int| 0 <= i < a.len() implies #[trigger] a[i] != ' ' by {
        if i < d.len() {
            assert(is_digit(d[i]));
        }
    }
    lemma_after_spaces(s, n, a, rest);
}

/// Copied inks have each ink behind its own label, an ink to a line.
pub proof fn law_copied_inks_are_labelled(p: (u8, u8, u8, u8))
    ensures
        labelled(cmyk_text(p, false), 'C') == p.0,
        labelled(cmyk_text(p, false), 'M') == p.1,
        labelled(cmyk_text(p, false), 'Y') == p.2,
        labelled(cmyk_text(p, false), 'K') == p.3,
        exists|c: Seq<char>, m: Seq<char>, y: Seq<char>, k: Seq<char>|
            #![trigger is_numeral(c, p.0 as int), is_numeral(m, p.1 as int), is_numeral(y, p.2 as int), is_numeral(k, p.3 as int)]
            is_numeral(c, p.0 as int) && is_numeral(m, p.1 as int) && is_numeral(y, p.2 as int)
                && is_numeral(k, p.3 as int) && cmyk_text(p, false) == seq!['C', ' '] + c + seq![
                '\n',
                'M',
                ' ',
            ] + m + seq!['\n', 'Y', ' '] + y + seq!['\n', 'K', ' '] + k,
{
    reveal_strlit("C ");
    reveal_strlit("\nM ");
    reveal_strlit("\nY ");
    reveal_strlit("\nK ");
    assert("C "@ =~= seq!['C', ' ']);
    assert("\nM "@ =~= seq!['\n', 'M', ' ']);
    assert("\nY "@ =~= seq!['\n', 'Y', ' ']);
    assert("\nK "@ =~= seq!['\n', 'K', ' ']);
    law_decimal_reads_back(p.0 as nat);
    law_decimal_reads_back(p.1 as nat);
    law_decimal_reads_back(p.2 as nat);
    law_decimal_reads_back(p.3 as nat);
    lemma_four_lines(
        decimal(p.0 as nat),
        decimal(p.1 as nat),
        decimal(p.2 as nat),
        decimal(p.3 as nat),
    );
}

/// The four lines of inks can be read back.
proof fn lemma_four_lines(c: Seq<char>, m: Seq<char>, y: Seq<char>, k: Seq<char>)
    requires
        all_digits(c) && all_digits(m) && all_digits(y) && all_digits(k),
    ensures
        ({
            let s = seq!['C', ' '] + c + seq!['\n', 'M', ' '] + m + seq!['\n', 'Y', ' '] + y + seq![
                '\n',
                'K',
                ' ',
            ] + k;
            labelled(s, 'C') == number(c) && labelled(s, 'M') == number(m) && labelled(s, 'Y')
                == number(y) && labelled(s, 'K') == number(k)
        }),
{
    let e = Seq::<char>::empty();
    let s = seq!['C', ' '] + c + seq!['\n', 'M', ' '] + m + seq!['\n', 'Y', ' '] + y + seq![
        '\n',
        'K',
        ' ',
    ] + k;
    let rest1 = seq!['\n', 'M', ' '] + m + seq!['\n', 'Y', ' '] + y + seq!['\n', 'K', ' '] + k;
    assert(s =~= e + seq!['C', ' '] + c + rest1);
    lemma_labelled(e, 'C', c, rest1);
    let pre2 = seq!['C', ' '] + c + seq!['\n'];
    let rest2 = seq!['\n', 'Y', ' '] + y + seq!['\n', 'K', ' '] + k;
    assert(s =~= pre2 + seq!['M', ' '] + m + rest2);
    assert forall|i: int| 0 <= i < pre2.len() implies #[trigger] pre2[i] != 'M' && pre2[i] != 'Y'
        && pre2[i] != 'K' by {
        if 2 <= i < 2 + c.len() {
            assert(is_digit(c[i - 2]));
        }
    }
    lemma_labelled(pre2, 'M', m, rest2);
    let pre3 = pre2 + seq!['M', ' '] + m + seq!['\n'];
    let rest3 = seq!['\n', 'K', ' '] + k;
    assert(s =~= pre3 + seq!['Y', ' '] + y + rest3);
    assert forall|i: int| 0 <= i < pre3.len() implies #[trigger] pre3[i] != 'Y' && pre3[i]
        != 'K' by {
        let j = i - pre2.len() - 2;
        if i < pre2.len() {
            assert(pre3[i] == pre2[i]);
        } else if 0 <= j < m.len() {
            assert(pre3[i] == m[j]);
        }
    }
    lemma_labelled(pre3, 'Y', y, rest3);
    let pre4 = pre3 + seq!['Y', ' '] + y + seq!['\n'];
    assert(s =~= pre4 + seq!['K', ' '] + k + e);
    assert forall|i: int| 0 <= i < pre4.len() implies #[trigger] pre4[i] != 'K' by {
        let j = i - pre3.len() - 2;
        if i < pre3.len() {
            assert(pre4[i] == pre3[i]);
        } else if 0 <= j < y.len() {
            assert(pre4[i] == y[j]);
        }
    }
    lemma_labelled(pre4, 'K', k, e);
}

/// Inks that are copied on one line are listed in the order of their name.
pub proof fn law_copied_inks_are_listed(p: (u8, u8, u8, u8))
    ensures
        listed(cmyk_text(p, true), 1) == p.0,
        listed(cmyk_text(p, true), 2) == p.1,
        listed(cmyk_text(p, true), 3) == p.2,
        listed(cmyk_text(p, true), 4) == p.3,
        exists|c: Seq<char>, m: Seq<char>, y: Seq<char>, k: Seq<char>|
            #![trigger is_numeral(c, p.0 as int), is_numeral(m, p.1 as int), is_numeral(y, p.2 as int), is_numeral(k, p.3 as int)]
            is_numeral(c, p.0 as int) && is_numeral(m, p.1 as int) && is_numeral(y, p.2 as int)
                && is_numeral(k, p.3 as int) && cmyk_text(p, true) == seq![
                'C',
                'M',
                'Y',
                'K',
                ':',
                ' ',
            ] + c + seq![',', ' '] + m + seq![',', ' '] + y + seq![',', ' '] + k,
{
    reveal_strlit("CMYK: ");
    reveal_strlit(", ");
    assert("CMYK: "@ =~= seq!['C', 'M', 'Y', 'K', ':', ' ']);
    assert(", "@ =~= seq![',', ' ']);
    law_decimal_reads_back(p.0 as nat);
    law_decimal_reads_back(p.1 as nat);
    law_decimal_reads_back(p.2 as nat);
    law_decimal_reads_back(p.3 as nat);
    let (c, m) = (decimal(p.0 as nat), decimal(p.1 as nat));
    let (y, k) = (decimal(p.2 as nat), decimal(p.3 as nat));
    let s = cmyk_text(p, true);
    let sep = seq![',', ' '];
    let e = Seq::<char>::empty();
    let t1 = c + sep + (m + sep + (y + sep + k));
    let head = seq!['C', 'M', 'Y', 'K', ':'];
    assert(s =~= head + seq![' '] + t1);
    lemma_after_spaces(s, 0, head, t1);
    lemma_list_item(s, 1, c, m + sep + (y + sep + k));
    lemma_list_item(s, 2, m, y + sep + k);
    lemma_list_item(s, 3, y, k);
    assert(k + e == k);
    lemma_leading_digits(k, e);
}

/// A copied colour can be read back: no two colours give one text, in either form.
pub proof fn law_copied_color_is_unambiguous(p: (u8, u8, u8), q: (u8, u8, u8), one_line: bool)
    requires
        rgb_text(p, one_line) == rgb_text(q, one_line),
    ensures
        p == q,
{
    reveal_strlit(", ");
    reveal_strlit("\nG ");
    reveal_strlit("\nB ");
    if one_line {
        lemma_three_numbers(p, q, "RGB: "@, ", "@, ", "@);
    } else {
        lemma_three_numbers(p, q, "R "@, "\nG "@, "\nB "@);
    }
}

/// Copied inks can be read back: no two sets of inks give one text, in either form.
pub proof fn law_copied_inks_are_unambiguous(
    p: (u8, u8, u8, u8),
    q: (u8, u8, u8, u8),
    one_line: bool,
)
    requires
        cmyk_text(p, one_line) == cmyk_text(q, one_line),
    ensures
        p == q,
{
    reveal_strlit(", ");
    reveal_strlit("\nM ");
    reveal_strlit("\nY ");
    reveal_strlit("\nK ");
    if one_line {
        lemma_four_numbers(p, q, "CMYK: "@, ", "@, ", "@, ", "@);
    } else {
        lemma_four_numbers(p, q, "C "@, "\nM "@, "\nY "@, "\nK "@);
    }
}

} // verus!
