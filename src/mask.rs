use vstd::prelude::*;

use crate::chars::{collect_digits, digits_of, extend_chars, is_digit, lemma_digits_are_digits};

verus! {

/// The kinds of personal data the engine looks for.
#[derive(Clone, Copy, Debug, PartialEq, Eq, Structural)]
pub enum PIIType {
    Email,
    Phone,
    Ssn,
    CreditCard,
}

/// The position of the first `c` in `s`, or -1 when there is none.
pub open spec fn first_index_of(s: Seq<char>, c: char) -> int
    decreases s.len(),
{
    if s.len() == 0 {
        -1
    } else if first_index_of(s.drop_last(), c) >= 0 {
        first_index_of(s.drop_last(), c)
    } else if s.last() == c {
        s.len() - 1
    } else {
        -1
    }
}

/// The last four elements of `s`.
pub open spec fn last_four(s: Seq<char>) -> Seq<char> {
    s.subrange(s.len() - 4, s.len() as int)
}

/// `"***@domain.com"`
pub open spec fn masked_email_sentinel() -> Seq<char> {
    seq!['*', '*', '*', '@', 'd', 'o', 'm', 'a', 'i', 'n', '.', 'c', 'o', 'm']
}

/// `"***-***-"`
pub open spec fn phone_prefix() -> Seq<char> {
    seq!['*', '*', '*', '-', '*', '*', '*', '-']
}

/// `"***-**-"`
pub open spec fn ssn_prefix() -> Seq<char> {
    seq!['*', '*', '*', '-', '*', '*', '-']
}

/// `"**** **** **** "`
pub open spec fn card_prefix() -> Seq<char> {
    seq!['*', '*', '*', '*', ' ', '*', '*', '*', '*', ' ', '*', '*', '*', '*', ' ']
}

/// `"****"`
pub open spec fn four_stars() -> Seq<char> {
    seq!['*', '*', '*', '*']
}

/// The redacted form of a matched value of the given type.
///
/// An email keeps the first character of its local part and everything from
/// the `@` on; a phone number and a card number keep their last four digits;
/// a social security number keeps its last four characters. Values too short
/// for that are replaced by a fixed, fully redacted form.
pub open spec fn mask_spec(kind: PIIType, v: Seq<char>) -> Seq<char> {
    match kind {
        PIIType::Email => {
            let at = first_index_of(v, '@');
            if at > 0 {
                seq![v[0]] + seq!['*', '*', '*'] + v.subrange(at, v.len() as int)
            } else {
                masked_email_sentinel()
            }
        },
        PIIType::Phone => {
            let d = digits_of(v);
            if d.len() >= 4 {
                phone_prefix() + last_four(d)
            } else {
                phone_prefix() + four_stars()
            }
        },
        PIIType::Ssn => {
            if v.len() >= 4 {
                ssn_prefix() + last_four(v)
            } else {
                ssn_prefix() + four_stars()
            }
        },
        PIIType::CreditCard => {
            let d = digits_of(v);
            if d.len() >= 4 {
                card_prefix() + last_four(d)
            } else {
                card_prefix() + four_stars()
            }
        },
    }
}

/// Finds the first `c` in `s`.
fn find_char(s: &[char], c: char) -> (r: Option<usize>)
    ensures
        match r {
            Some(i) => i as int == first_index_of(s@, c) && i < s@.len(),
            None => first_index_of(s@, c) == -1,
        },
{
    let mut i: usize = 0;
    while i < s.len()
        invariant
            i <= s@.len(),
            first_index_of(s@.subrange(0, i as int), c) == -1,
        decreases s@.len() - i,
    {
        assert(s@.subrange(0, i + 1).drop_last() =~= s@.subrange(0, i as int));
        if s[i] == c {
            proof {
                lemma_first_index_prefix(s@, c, i + 1);
            }
            return Some(i);
        }
        i = i + 1;
    }
    assert(s@.subrange(0, s@.len() as int) =~= s@);
    None
}

/// Appends the last four characters of `s`, or four stars when `s` is shorter.
fn push_last_four(out: &mut Vec<char>, s: &[char])
    ensures
        final(out)@ == old(out)@ + (if s@.len() >= 4 {
            last_four(s@)
        } else {
            four_stars()
        }),
{
    if s.len() >= 4 {
        let mut i: usize = s.len() - 4;
        while i < s.len()
            invariant
                s@.len() >= 4,
                s@.len() - 4 <= i <= s@.len(),
                out@ == old(out)@ + s@.subrange(s@.len() - 4, i as int),
            decreases s@.len() - i,
        {
            out.push(s[i]);
            i = i + 1;
            assert(out@ =~= old(out)@ + s@.subrange(s@.len() - 4, i as int));
        }
    } else {
        let stars = vec!['*', '*', '*', '*'];
        extend_chars(out, stars.as_slice());
        assert(stars@ =~= four_stars());
    }
}

/// The redacted form of `v` as a value of type `kind`.
pub fn mask_chars(kind: PIIType, v: &[char]) -> (r: Vec<char>)
    ensures
        r@ == mask_spec(kind, v@),
{
    match kind {
        PIIType::Email => {
            match find_char(v, '@') {
                Some(at) => {
                    if at > 0 {
                        let mut out: Vec<char> = vec![v[0], '*', '*', '*'];
                        let mut i: usize = at;
                        while i < v.len()
                            invariant
                                at <= i <= v@.len(),
                                out@ == seq![v@[0]] + seq!['*', '*', '*'] + v@.subrange(
                                    at as int,
                                    i as int,
                                ),
                            decreases v@.len() - i,
                        {
                            out.push(v[i]);
                            i = i + 1;
                            assert(out@ =~= seq![v@[0]] + seq!['*', '*', '*'] + v@.subrange(
                                at as int,
                                i as int,
                            ));
                        }
                        out
                    } else {
                        let out = vec!['*', '*', '*', '@', 'd', 'o', 'm', 'a', 'i', 'n', '.', 'c', 'o', 'm'];
                        assert(out@ =~= masked_email_sentinel());
                        out
                    }
                },
                None => {
                    let out = vec!['*', '*', '*', '@', 'd', 'o', 'm', 'a', 'i', 'n', '.', 'c', 'o', 'm'];
                    assert(out@ =~= masked_email_sentinel());
                    out
                },
            }
        },
        PIIType::Phone => {
            let d = collect_digits(v);
            let mut out: Vec<char> = vec!['*', '*', '*', '-', '*', '*', '*', '-'];
            assert(out@ =~= phone_prefix());
            push_last_four(&mut out, d.as_slice());
            out
        },
        PIIType::Ssn => {
            let mut out: Vec<char> = vec!['*', '*', '*', '-', '*', '*', '-'];
            assert(out@ =~= ssn_prefix());
            push_last_four(&mut out, v);
            out
        },
        PIIType::CreditCard => {
            let d = collect_digits(v);
            let mut out: Vec<char> = vec![
                '*', '*', '*', '*', ' ', '*', '*', '*', '*', ' ', '*', '*', '*', '*', ' ',
            ];
            assert(out@ =~= card_prefix());
            push_last_four(&mut out, d.as_slice());
            out
        },
    }
}

/// The number of ASCII digits in `s`.
pub open spec fn digit_count(s: Seq<char>) -> nat {
    digits_of(s).len()
}

/// A masked phone number, social security number or card number carries at
/// most four digits, fewer than the ten, nine and thirteen those patterns
/// need, and a masked email address has a `*` right before its first `@`,
/// which no local part of an address may hold.
pub proof fn lemma_masked_values_stay_redacted(v: Seq<char>)
    ensures
        digit_count(mask_spec(PIIType::Phone, v)) <= 4,
        digit_count(mask_spec(PIIType::Ssn, v)) <= 4,
        digit_count(mask_spec(PIIType::CreditCard, v)) <= 4,
        ({
            let m = mask_spec(PIIType::Email, v);
            let at = first_index_of(m, '@');
            at >= 1 && m[at - 1] == '*'
        }),
{
    lemma_digits_are_digits(v);
    let d = digits_of(v);
    lemma_no_digits_prefix(phone_prefix());
    lemma_no_digits_prefix(card_prefix());
    lemma_no_digits_prefix(four_stars());
    lemma_no_digits_prefix(ssn_prefix());
    if v.len() >= 4 {
        lemma_digits_concat(ssn_prefix(), last_four(v));
        lemma_digits_are_digits(last_four(v));
    } else {
        lemma_digits_concat(ssn_prefix(), four_stars());
    }
    if d.len() >= 4 {
        lemma_digits_concat(phone_prefix(), last_four(d));
        lemma_digits_concat(card_prefix(), last_four(d));
        lemma_digits_are_digits(last_four(d));
    } else {
        lemma_digits_concat(phone_prefix(), four_stars());
        lemma_digits_concat(card_prefix(), four_stars());
    }
    let at = first_index_of(v, '@');
    if at > 0 {
        lemma_first_index_props(v, '@');
        let m = seq![v[0]] + seq!['*', '*', '*'] + v.subrange(at, v.len() as int);
        assert(m[4] == '@');
        assert(m.subrange(0, 5) =~= seq![v[0], '*', '*', '*', '@']);
        if v[0] == '@' {
            assert(first_index_of(v.subrange(0, 1), '@') == 0) by {
                assert(v.subrange(0, 1).drop_last() =~= Seq::<char>::empty());
            }
            lemma_first_index_prefix(v, '@', 1);
        }
        lemma_first_index_at(m, '@', if v[0] == '@' { 0 } else { 4 });
    } else {
        let m = masked_email_sentinel();
        lemma_first_index_at(m, '@', 3);
    }
}

proof fn lemma_no_digits_prefix(s: Seq<char>)
    requires
        forall|j: int| 0 <= j < s.len() ==> !is_digit(#[trigger] s[j]),
    ensures
        digits_of(s).len() == 0,
    decreases s.len(),
{
    if s.len() > 0 {
        lemma_no_digits_prefix(s.drop_last());
    }
}

proof fn lemma_digits_concat(a: Seq<char>, b: Seq<char>)
    ensures
        digits_of(a + b) == digits_of(a) + digits_of(b),
    decreases b.len(),
{
    if b.len() == 0 {
        assert(a + b =~= a);
        assert(digits_of(a) + digits_of(b) =~= digits_of(a));
    } else {
        lemma_digits_concat(a, b.drop_last());
        assert((a + b).drop_last() =~= a + b.drop_last());
        assert((a + b).last() == b.last());
        if is_digit(b.last()) {
            assert(digits_of(a) + digits_of(b) =~= (digits_of(a) + digits_of(b.drop_last())).push(
                b.last(),
            ));
        }
    }
}

proof fn lemma_first_index_props(s: Seq<char>, c: char)
    ensures
        -1 <= first_index_of(s, c) < s.len(),
        first_index_of(s, c) >= 0 ==> s[first_index_of(s, c)] == c,
        forall|j: int| 0 <= j < s.len() && (first_index_of(s, c) == -1 || j < first_index_of(s, c)) ==> s[j] != c,
    decreases s.len(),
{
    if s.len() > 0 {
        lemma_first_index_props(s.drop_last(), c);
        let f = first_index_of(s, c);
        let p = first_index_of(s.drop_last(), c);
        assert forall|j: int| 0 <= j < s.len() && (f == -1 || j < f) implies #[trigger] s[j] != c by {
            if j < s.len() - 1 {
                assert(s[j] == s.drop_last()[j]);
                assert(p == -1 || j < p);
            }
        }
    }
}

/// When `s[i] == c` and no earlier position holds `c`, `i` is the first index of `c`.
proof fn lemma_first_index_at(s: Seq<char>, c: char, i: int)
    requires
        0 <= i < s.len(),
        s[i] == c,
        forall|j: int| 0 <= j < i ==> s[j] != c,
    ensures
        first_index_of(s, c) == i,
    decreases s.len(),
{
    lemma_first_index_props(s, c);
    if s.len() - 1 > i {
        lemma_first_index_at(s.drop_last(), c, i);
    } else {
        lemma_first_index_props(s.drop_last(), c);
    }
}

proof fn lemma_first_index_prefix(s: Seq<char>, c: char, n: int)
    requires
        0 <= n <= s.len(),
        first_index_of(s.subrange(0, n), c) >= 0,
    ensures
        first_index_of(s, c) == first_index_of(s.subrange(0, n), c),
    decreases s.len() - n,
{
    if n < s.len() {
        assert(s.subrange(0, n + 1).drop_last() =~= s.subrange(0, n));
        lemma_first_index_prefix(s, c, n + 1);
    } else {
        assert(s.subrange(0, n) =~= s);
    }
}

} // verus!
