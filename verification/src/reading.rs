//! Reading numbers back from texts.

use crate::text::decimal;
use vstd::prelude::*;

verus! {

/// Whether `c` is a decimal digit.
pub open spec fn is_digit(c: char) -> bool {
    '0' <= c <= '9'
}

/// Whether `s` consists of decimal digits.
pub open spec fn all_digits(s: Seq<char>) -> bool {
    forall|i: int| 0 <= i < s.len() ==> is_digit(#[trigger] s[i])
}

/// The number that a text of digits stands for.
pub open spec fn number(s: Seq<char>) -> int
    decreases s.len(),
{
    if s.len() == 0 {
        0
    } else {
        10 * number(s.drop_last()) + (s.last() as int - 48)
    }
}

/// Whether `s` is how `n` is written: in digits, without a zero in front.
pub open spec fn is_numeral(s: Seq<char>, n: int) -> bool {
    &&& s.len() > 0
    &&& all_digits(s)
    &&& number(s) == n
    &&& s.len() > 1 ==> s[0] != '0'
}

/// The digits at the front of `s`.
pub open spec fn leading_digits(s: Seq<char>) -> Seq<char>
    decreases s.len(),
{
    if s.len() > 0 && is_digit(s[0]) {
        seq![s[0]] + leading_digits(s.drop_first())
    } else {
        Seq::empty()
    }
}

/// What stands in `s` behind the first `c`.
pub open spec fn after(s: Seq<char>, c: char) -> Seq<char>
    decreases s.len(),
{
    if s.len() == 0 {
        Seq::empty()
    } else if s[0] == c {
        s.drop_first()
    } else {
        after(s.drop_first(), c)
    }
}

/// What stands in `s` before the first `c`.
pub open spec fn before(s: Seq<char>, c: char) -> Seq<char>
    decreases s.len(),
{
    if s.len() == 0 || s[0] == c {
        Seq::empty()
    } else {
        seq![s[0]] + before(s.drop_first(), c)
    }
}

/// What stands in `s` behind its first `n` spaces.
pub open spec fn after_spaces(s: Seq<char>, n: nat) -> Seq<char>
    decreases n,
{
    if n == 0 {
        s
    } else {
        after_spaces(after(s, ' '), (n - 1) as nat)
    }
}

/// The number behind a label: behind the first `label` and the space that follows it.
pub open spec fn labelled(s: Seq<char>, label: char) -> int {
    number(leading_digits(after(after(s, label), ' ')))
}

/// The number behind the first `n` spaces.
pub open spec fn listed(s: Seq<char>, n: nat) -> int {
    number(leading_digits(after_spaces(s, n)))
}

/// The number behind the first `n` spaces, up to the percent sign that ends it.
pub open spec fn listed_percent(s: Seq<char>, n: nat) -> int {
    number(before(after_spaces(s, n), '%'))
}

/// A decimal number is written as a numeral: it can be read back.
pub proof fn law_decimal_reads_back(n: nat)
    ensures
        is_numeral(decimal(n), n as int),
    decreases n,
{
    let s = decimal(n);
    if n >= 10 {
        law_decimal_reads_back(n / 10);
        let t = decimal(n / 10);
        let c = (48 + n % 10) as char;
        assert(s == t.push(c));
        assert(s.drop_last() == t);
        assert(c as int == 48 + n % 10);
        assert(number(s) == 10 * number(t) + n % 10);
        assert(all_digits(s)) by {
            assert forall|i: int| 0 <= i < s.len() implies is_digit(#[trigger] s[i]) by {
                if i < t.len() {
                    assert(is_digit(t[i]));
                }
            }
        }
        assert(s[0] == t[0]);
        if t.len() == 1 && t[0] == '0' {
            assert(t.drop_last() == Seq::<char>::empty());
            assert(number(t.drop_last()) == 0);
        }
    } else {
        assert(s.drop_last() == Seq::<char>::empty());
        assert(number(s.drop_last()) == 0);
    }
}

pub proof fn lemma_after(a: Seq<char>, c: char, b: Seq<char>)
    requires
        forall|i: int| 0 <= i < a.len() ==> #[trigger] a[i] != c,
    ensures
        after(a + seq![c] + b, c) == b,
    decreases a.len(),
{
    let s = a + seq![c] + b;
    if a.len() == 0 {
        assert(s.drop_first() == b);
    } else {
        assert(s[0] == a[0]);
        assert(s.drop_first() == a.drop_first() + seq![c] + b);
        lemma_after(a.drop_first(), c, b);
    }
}

pub proof fn lemma_before(a: Seq<char>, c: char, b: Seq<char>)
    requires
        forall|i: int| 0 <= i < a.len() ==> #[trigger] a[i] != c,
    ensures
        before(a + seq![c] + b, c) == a,
    decreases a.len(),
{
    let s = a + seq![c] + b;
    if a.len() > 0 {
        assert(s[0] == a[0]);
        assert(s.drop_first() == a.drop_first() + seq![c] + b);
        lemma_before(a.drop_first(), c, b);
        assert(seq![a[0]] + a.drop_first() == a);
    }
}

pub proof fn lemma_leading_digits(d: Seq<char>, rest: Seq<char>)
    requires
        all_digits(d),
        rest.len() == 0 || !is_digit(rest[0]),
    ensures
        leading_digits(d + rest) == d,
    decreases d.len(),
{
    if d.len() == 0 {
        assert(d + rest == rest);
    } else {
        assert((d + rest)[0] == d[0]);
        assert((d + rest).drop_first() == d.drop_first() + rest);
        lemma_leading_digits(d.drop_first(), rest);
        assert(seq![d[0]] + d.drop_first() == d);
    }
}

/// The number behind a label that does not occur before.
pub proof fn lemma_labelled(a: Seq<char>, label: char, d: Seq<char>, rest: Seq<char>)
    requires
        forall|i: int| 0 <= i < a.len() ==> #[trigger] a[i] != label,
        all_digits(d),
        rest.len() == 0 || !is_digit(rest[0]),
    ensures
        labelled(a + seq![label, ' '] + d + rest, label) == number(d),
{
    let t = seq![' '] + (d + rest);
    assert(a + seq![label, ' '] + d + rest == a + seq![label] + t);
    lemma_after(a, label, t);
    assert(t == Seq::<char>::empty() + seq![' '] + (d + rest));
    lemma_after(Seq::empty(), ' ', d + rest);
    lemma_leading_digits(d, rest);
}

/// What stands behind one space more.
pub proof fn lemma_after_spaces(s: Seq<char>, n: nat, a: Seq<char>, b: Seq<char>)
    requires
        after_spaces(s, n) == a + seq![' '] + b,
        forall|i: int| 0 <= i < a.len() ==> #[trigger] a[i] != ' ',
    ensures
        after_spaces(s, n + 1) == b,
{
    lemma_after(a, ' ', b);
    lemma_after_spaces_more(s, n);
}

proof fn lemma_after_spaces_more(s: Seq<char>, n: nat)
    ensures
        after_spaces(s, n + 1) == after(after_spaces(s, n), ' '),
    decreases n,
{
    if n == 0 {
        reveal_with_fuel(after_spaces, 2);
    } else {
        lemma_after_spaces_more(after(s, ' '), (n - 1) as nat);
    }
}

} // verus!
