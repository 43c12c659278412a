//! Text: digits, words and lines.

use vstd::prelude::*;

use crate::calibrate::{hex_char, hexadecimal};
use crate::text::{
    all_digits, decimal, digit_char, digits_value, free_of, has_prefix, is_digit, is_space,
    parsed_unsigned, split_on, trimmed, trimmed_back, trimmed_front, unsigned_body,
};

verus! {

/// The character of a digit is a digit with that value.
pub proof fn lemma_digit_char(d: nat)
    requires
        d < 10,
    ensures
        is_digit(digit_char(d)),
        digits_value(seq![digit_char(d)]) == d,
{
    reveal_with_fuel(digits_value, 2);
    assert(seq![digit_char(d)].drop_last() =~= Seq::<char>::empty());
}

/// A digit more makes ten of each unit and adds its own value; a number is read with or without a
/// plus in front, and nothing but digits is a number.
pub proof fn lemma_digits(s: Seq<char>, c: char, max: nat)
    ensures
        is_digit(c) ==> digits_value(s.push(c)) == 10 * digits_value(s) + (c as int - 48),
        digits_value(Seq::empty()) == 0,
        parsed_unsigned(Seq::empty(), max) is None,
        s.len() > 0 && all_digits(s) ==> unsigned_body(s) == s && unsigned_body(seq!['+'] + s) == s,
        s.len() > 0 && all_digits(s) ==> parsed_unsigned(seq!['+'] + s, max) == parsed_unsigned(s, max),
        parsed_unsigned(s, max) matches Some(n) ==> n <= max,
{
    assert(s.push(c).drop_last() =~= s);
    let t = seq!['+'] + s;
    assert(t.subrange(1, t.len() as int) =~= s);
    if s.len() > 0 && all_digits(s) {
        assert(is_digit(s[0]));
    }
    if all_digits(s) {
        assert(unsigned_body(t) == s);
    }
    assert(unsigned_body(Seq::<char>::empty()).len() == 0);
}

/// Numbers in base sixteen: one digit below sixteen, otherwise the digits of the sixteenth and one
/// more; different numbers are written differently.
pub proof fn lemma_hexadecimal(a: nat, b: nat)
    ensures
        a < 10 ==> hex_char(a) as int == 48 + a,
        10 <= a < 16 ==> hex_char(a) as int == 97 + a - 10,
        hexadecimal(a) == hexadecimal(b) ==> a == b,
        hexadecimal(a).len() >= 1,
    decreases a + b,
{
    lemma_hex_length(a);
    lemma_hex_length(b);
    if hexadecimal(a) == hexadecimal(b) {
        assert(hexadecimal(a).last() == hexadecimal(b).last());
        assert(hex_char(a % 16) == hexadecimal(a).last());
        assert(hex_char(b % 16) == hexadecimal(b).last());
        assert(a % 16 == b % 16);
        if a >= 16 {
            assert(b >= 16);
            lemma_hexadecimal(a / 16, b / 16);
            assert(hexadecimal(a).drop_last() =~= hexadecimal(a / 16));
            assert(hexadecimal(b).drop_last() =~= hexadecimal(b / 16));
        }
    }
}

proof fn lemma_hex_length(a: nat)
    ensures
        hexadecimal(a).len() >= 1,
        a >= 16 <==> hexadecimal(a).len() >= 2,
        hexadecimal(a).last() == hex_char(a % 16),
    decreases a,
{
    if a >= 16 {
        lemma_hex_length(a / 16);
    }
}

/// Trimming leaves a part of the text without space at either end, and takes away only spaces.
pub proof fn lemma_trimmed(s: Seq<char>)
    ensures
        trimmed(s).len() > 0 ==> !is_space(trimmed(s)[0]) && !is_space(trimmed(s).last()),
        exists|i: int, j: int|
            0 <= i <= j <= s.len() && #[trigger] s.subrange(i, j) == trimmed(s) && (forall|k: int|
                0 <= k < i || j <= k < s.len() ==> is_space(#[trigger] s[k])),
{
    let f = trimmed_front(s);
    lemma_trimmed_front(s);
    lemma_trimmed_back(f);
    let i = choose|i: int|
        0 <= i <= s.len() && #[trigger] s.subrange(i, s.len() as int) == f && (forall|k: int|
            0 <= k < i ==> is_space(#[trigger] s[k]));
    let j = choose|j: int|
        0 <= j <= f.len() && #[trigger] f.subrange(0, j) == trimmed(s) && (forall|k: int|
            j <= k < f.len() ==> is_space(#[trigger] f[k]));
    assert(s.subrange(i, i + j) =~= f.subrange(0, j));
    assert forall|k: int| 0 <= k < i || i + j <= k < s.len() implies is_space(#[trigger] s[k]) by {
        if k >= i + j {
            assert(f[k - i] == s[k]);
        }
    }
    if trimmed(s).len() > 0 {
        assert(trimmed(s)[0] == f[0]);
    }
}

proof fn lemma_trimmed_front(s: Seq<char>)
    ensures
        trimmed_front(s).len() > 0 ==> !is_space(trimmed_front(s)[0]),
        exists|i: int|
            0 <= i <= s.len() && #[trigger] s.subrange(i, s.len() as int) == trimmed_front(s) && (
            forall|k: int| 0 <= k < i ==> is_space(#[trigger] s[k])),
    decreases s.len(),
{
    if s.len() > 0 && is_space(s[0]) {
        let t = s.subrange(1, s.len() as int);
        lemma_trimmed_front(t);
        let i = choose|i: int|
            0 <= i <= t.len() && #[trigger] t.subrange(i, t.len() as int) == trimmed_front(t) && (
            forall|k: int| 0 <= k < i ==> is_space(#[trigger] t[k]));
        assert(s.subrange(i + 1, s.len() as int) =~= t.subrange(i, t.len() as int));
        assert forall|k: int| 0 <= k < i + 1 implies is_space(#[trigger] s[k]) by {
            if k > 0 {
                assert(t[k - 1] == s[k]);
            }
        }
    } else {
        assert(s.subrange(0, s.len() as int) =~= s);
    }
}

proof fn lemma_trimmed_back(s: Seq<char>)
    ensures
        trimmed_back(s).len() > 0 ==> !is_space(trimmed_back(s).last()),
        exists|j: int|
            0 <= j <= s.len() && #[trigger] s.subrange(0, j) == trimmed_back(s) && (forall|k: int|
                j <= k < s.len() ==> is_space(#[trigger] s[k])),
    decreases s.len(),
{
    if s.len() > 0 && is_space(s.last()) {
        let t = s.drop_last();
        lemma_trimmed_back(t);
        let j = choose|j: int|
            0 <= j <= t.len() && #[trigger] t.subrange(0, j) == trimmed_back(t) && (forall|k: int|
                j <= k < t.len() ==> is_space(#[trigger] t[k]));
        assert(s.subrange(0, j) =~= t.subrange(0, j));
        assert forall|k: int| j <= k < s.len() implies is_space(#[trigger] s[k]) by {
            if k < t.len() {
                assert(t[k] == s[k]);
            }
        }
    } else {
        assert(s.subrange(0, s.len() as int) =~= s);
    }
}

/// The pieces with the separator between them.
pub open spec fn joined(parts: Seq<Seq<char>>, sep: char) -> Seq<char>
    decreases parts.len(),
{
    if parts.len() == 0 {
        Seq::empty()
    } else if parts.len() == 1 {
        parts[0]
    } else {
        joined(parts.drop_last(), sep).push(sep) + parts.last()
    }
}

/// Splitting loses nothing: the pieces hold no separator, and joined again they are the text.
pub proof fn lemma_split_joins(s: Seq<char>, sep: char)
    ensures
        split_on(s, sep).len() >= 1,
        joined(split_on(s, sep), sep) == s,
        forall|i: int| 0 <= i < split_on(s, sep).len() ==> free_of(#[trigger] split_on(s, sep)[i], sep),
    decreases s.len(),
{
    if s.len() == 0 {
        assert(joined(split_on(s, sep), sep) =~= s);
    } else {
        let t = s.drop_last();
        let c = s.last();
        lemma_split_joins(t, sep);
        let r = split_on(t, sep);
        let p = split_on(s, sep);
        assert(s =~= t.push(c));
        if c == sep {
            assert(p.drop_last() =~= r);
            assert(joined(p, sep) =~= s);
            assert forall|i: int| 0 <= i < p.len() implies free_of(#[trigger] p[i], sep) by {
                if i < r.len() {
                    assert(p[i] == r[i]);
                }
            }
        } else {
            assert(p.len() == r.len());
            assert forall|i: int| 0 <= i < p.len() implies free_of(#[trigger] p[i], sep) by {
                if i < r.len() - 1 {
                    assert(p[i] == r[i]);
                } else {
                    assert(free_of(r[r.len() - 1], sep));
                    assert(p[i] == r.last().push(c));
                }
            }
            if r.len() == 1 {
                assert(joined(p, sep) =~= s);
            } else {
                assert(p.drop_last() =~= r.drop_last());
                assert(joined(p, sep) =~= joined(r, sep).push(c));
            }
        }
    }
}

/// A text has every prefix that it was put behind.
pub proof fn lemma_has_prefix(p: Seq<char>, s: Seq<char>)
    ensures
        has_prefix(p + s, p),
        has_prefix(s, p) ==> s == p + s.subrange(p.len() as int, s.len() as int),
        s.len() < p.len() ==> !has_prefix(s, p),
{
    assert((p + s).subrange(0, p.len() as int) =~= p);
    if has_prefix(s, p) {
        assert(s =~= s.subrange(0, p.len() as int) + s.subrange(p.len() as int, s.len() as int));
    }
}

/// White space is the tab and line characters, the blank, and the blanks of other scripts; no visible
/// character of ASCII is.
pub proof fn lemma_is_space(c: char)
    ensures
        c == ' ' || c == '\t' || c == '\n' || c == '\r' ==> is_space(c),
        0x21 <= c as int <= 0x7e ==> !is_space(c),
        is_space(c) ==> c as int <= 0x3000,
{
}

} // verus!
