use vstd::prelude::*;

use crate::chars::{collect_digits, digit_value, digits_of, is_digit, lemma_digits_are_digits};

verus! {

/// `s` holds `c` at no position other than `i`.
pub open spec fn only_at(s: Seq<char>, c: char, i: int) -> bool {
    forall|j: int| 0 <= j < s.len() && j != i ==> s[j] != c
}

/// `s` contains the character `c`.
pub open spec fn contains_char(s: Seq<char>, c: char) -> bool {
    exists|k: int| 0 <= k < s.len() && s[k] == c
}

/// `s` contains two dots in a row.
pub open spec fn has_double_dot(s: Seq<char>) -> bool {
    exists|k: int| 0 <= k && k + 1 < s.len() && #[trigger] s[k] == '.' && s[k + 1] == '.'
}

/// An address splits on `@` into exactly two parts, and its domain (the part
/// after `@`) contains a dot and never two dots in a row.
pub open spec fn email_valid(s: Seq<char>) -> bool {
    exists|i: int|
        0 <= i < s.len() && s[i] == '@' && only_at(s, '@', i) && contains_char(
            s.subrange(i + 1, s.len() as int),
            '.',
        ) && !has_double_dot(s.subrange(i + 1, s.len() as int))
}

/// The contribution of one digit to the Luhn sum: doubled digits above nine
/// lose nine.
pub open spec fn luhn_term(c: char, doubled: bool) -> int {
    if doubled {
        if 2 * digit_value(c) > 9 {
            2 * digit_value(c) - 9
        } else {
            2 * digit_value(c)
        }
    } else {
        digit_value(c)
    }
}

/// The Luhn sum of `d` read from the right, the rightmost digit doubled
/// exactly when `doubled` holds, and every second one after it.
pub open spec fn luhn_sum(d: Seq<char>, doubled: bool) -> int
    decreases d.len(),
{
    if d.len() == 0 {
        0
    } else {
        luhn_term(d.last(), doubled) + luhn_sum(d.drop_last(), !doubled)
    }
}

/// The digits of `s` number from 13 to 19 and their Luhn sum, with the
/// rightmost digit not doubled, is a multiple of ten.
pub open spec fn luhn_valid(s: Seq<char>) -> bool {
    let d = digits_of(s);
    13 <= d.len() <= 19 && luhn_sum(d, false) % 10 == 0
}

/// Checks the structure of an email address.
pub fn email_ok(s: &[char]) -> (r: bool)
    ensures
        r == email_valid(s@),
{
    let mut at: usize = 0;
    let mut count: usize = 0;
    let mut i: usize = 0;
    while i < s.len()
        invariant
            i <= s@.len(),
            count <= i,
            count == 0 ==> forall|j: int| 0 <= j < i ==> s@[j] != '@',
            count >= 1 ==> at < i && s@[at as int] == '@',
            count == 1 ==> forall|j: int| 0 <= j < i && j != at ==> s@[j] != '@',
            count >= 2 ==> exists|j: int| 0 <= j < i && j != at && s@[j] == '@',
        decreases s@.len() - i,
    {
        if s[i] == '@' {
            if count == 0 {
                at = i;
            }
            count = count + 1;
        }
        i = i + 1;
    }
    if count != 1 {
        assert(!email_valid(s@)) by {
            if count >= 2 {
                let j = choose|j: int| 0 <= j < s@.len() && j != at && s@[j] == '@';
                assert forall|k: int| 0 <= k < s@.len() && s@[k] == '@' implies !only_at(
                    s@,
                    '@',
                    k,
                ) by {
                    if k == j {
                        assert(s@[at as int] == '@');
                    } else {
                        assert(s@[j] == '@');
                    }
                }
            }
        }
        return false;
    }
    let ghost dom = s@.subrange(at as int + 1, s@.len() as int);
    let mut dot = false;
    let mut double = false;
    let mut k: usize = at + 1;
    while k < s.len()
        invariant
            at + 1 <= k <= s@.len(),
            dom == s@.subrange(at as int + 1, s@.len() as int),
            dot == exists|m: int| 0 <= m < k - at - 1 && dom[m] == '.',
            double == exists|m: int| 0 <= m && m + 1 < k - at - 1 && #[trigger] dom[m] == '.' && dom[m + 1] == '.',
        decreases s@.len() - k,
    {
        if s[k] == '.' {
            if k > at + 1 && s[k - 1] == '.' {
                assert(dom[k - at - 2] == '.' && dom[k - at - 1] == '.');
                double = true;
            }
            assert(dom[k - at - 1] == '.');
            dot = true;
        }
        proof {
            if !double && s@[k as int] == '.' && k > at + 1 && s@[k - 1] == '.' {
                assert(false);
            }
        }
        k = k + 1;
    }
    let r = dot && !double;
    proof {
        assert(contains_char(dom, '.') == dot);
        assert(has_double_dot(dom) == double);
        if r {
            assert(s@[at as int] == '@' && only_at(s@, '@', at as int));
        }
        if email_valid(s@) {
            let i = choose|i: int|
                0 <= i < s@.len() && s@[i] == '@' && only_at(s@, '@', i) && contains_char(
                    s@.subrange(i + 1, s@.len() as int),
                    '.',
                ) && !has_double_dot(s@.subrange(i + 1, s@.len() as int));
            assert(i == at);
        }
    }
    r
}

/// Checks the Luhn checksum of the digits of `s`.
pub fn luhn_ok(s: &[char]) -> (r: bool)
    ensures
        r == luhn_valid(s@),
{
    let d = collect_digits(s);
    if d.len() < 13 || d.len() > 19 {
        return false;
    }
    proof {
        lemma_digits_are_digits(s@);
        assert(d@.subrange(0, d@.len() as int) =~= d@);
    }
    let mut sum: u32 = 0;
    let mut alternate = false;
    let mut i: usize = d.len();
    while i > 0
        invariant
            i <= d@.len() <= 19,
            d@ == digits_of(s@),
            forall|j: int| 0 <= j < d@.len() ==> is_digit(d@[j]),
            sum <= 9 * (d@.len() - i),
            sum + luhn_sum(d@.subrange(0, i as int), alternate) == luhn_sum(d@, false),
        decreases i,
    {
        let ch = d[i - 1];
        let v: u32 = ch as u32 - '0' as u32;
        let mut digit: u32 = v;
        if alternate {
            digit = digit * 2;
            if digit > 9 {
                digit = digit / 10 + digit % 10;
            }
        }
        assert(d@.subrange(0, i as int).drop_last() =~= d@.subrange(0, i - 1));
        assert(digit as int == luhn_term(ch, alternate));
        sum = sum + digit;
        alternate = !alternate;
        i = i - 1;
    }
    assert(d@.subrange(0, 0) =~= Seq::<char>::empty());
    sum % 10 == 0
}

proof fn lemma_digits_of_digit_string(s: Seq<char>)
    requires
        forall|j: int| 0 <= j < s.len() ==> is_digit(s[j]),
    ensures
        digits_of(s) == s,
    decreases s.len(),
{
    if s.len() > 0 {
        lemma_digits_of_digit_string(s.drop_last());
        assert(s.drop_last().push(s.last()) =~= s);
    }
}

/// A digit string of 13 to 19 digits whose Luhn sum is a multiple of ten is
/// accepted, and the same string with its last digit raised by one, modulo
/// ten, is rejected.
pub proof fn lemma_luhn_last_digit(s: Seq<char>, t: Seq<char>)
    requires
        13 <= s.len() <= 19,
        forall|j: int| 0 <= j < s.len() ==> is_digit(s[j]),
        luhn_sum(s, false) % 10 == 0,
        t.len() == s.len(),
        t.drop_last() == s.drop_last(),
        is_digit(t.last()),
        digit_value(t.last()) == (digit_value(s.last()) + 1) % 10,
    ensures
        luhn_valid(s),
        !luhn_valid(t),
{
    lemma_digits_of_digit_string(s);
    assert forall|j: int| 0 <= j < t.len() implies is_digit(t[j]) by {
        if j < t.len() - 1 {
            assert(t[j] == t.drop_last()[j]);
            assert(s[j] == s.drop_last()[j]);
        }
    }
    lemma_digits_of_digit_string(t);
    let rest = luhn_sum(s.drop_last(), true);
    assert(luhn_sum(t, false) == digit_value(t.last()) + rest);
    assert(luhn_sum(s, false) == digit_value(s.last()) + rest);
}

} // verus!
