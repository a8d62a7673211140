use vstd::prelude::*;

use crate::chars::{copy_chars, extend_chars};

verus! {

/// `s` with every occurrence of `p`, scanned left to right without overlap,
/// replaced by `r`. An empty `p` leaves `s` as it is.
pub open spec fn replace_spec(s: Seq<char>, p: Seq<char>, r: Seq<char>) -> Seq<char>
    decreases s.len(),
{
    if p.len() == 0 || s.len() < p.len() {
        s
    } else if s.subrange(0, p.len() as int) == p {
        r + replace_spec(s.subrange(p.len() as int, s.len() as int), p, r)
    } else {
        seq![s[0]] + replace_spec(s.subrange(1, s.len() as int), p, r)
    }
}

/// A replacement rule: a sample and the text that takes its place.
pub type Rule = (Seq<char>, Seq<char>);

/// Inserts `x` after every rule whose sample is at least as long as its own.
pub open spec fn insert_by_len(x: Rule, s: Seq<Rule>) -> Seq<Rule>
    decreases s.len(),
{
    if s.len() == 0 {
        seq![x]
    } else if s[0].0.len() >= x.0.len() {
        seq![s[0]] + insert_by_len(x, s.subrange(1, s.len() as int))
    } else {
        seq![x] + s
    }
}

/// The rules ordered by sample length, longest first; rules of equal length
/// keep their order.
pub open spec fn sort_by_len(s: Seq<Rule>) -> Seq<Rule>
    decreases s.len(),
{
    if s.len() == 0 {
        s
    } else {
        insert_by_len(s.last(), sort_by_len(s.drop_last()))
    }
}

/// `t` after applying each rule in turn, first to last.
pub open spec fn apply_rules(t: Seq<char>, rules: Seq<Rule>) -> Seq<char>
    decreases rules.len(),
{
    if rules.len() == 0 {
        t
    } else {
        let last = rules.last();
        replace_spec(apply_rules(t, rules.drop_last()), last.0, last.1)
    }
}

/// `s[i..i + p.len()]` equals `p`.
fn matches_at(s: &[char], i: usize, p: &[char]) -> (r: bool)
    requires
        i + p@.len() <= s@.len(),
    ensures
        r == (s@.subrange(i as int, i + p@.len()) == p@),
{
    let n = s.len();
    let mut k: usize = 0;
    while k < p.len()
        invariant
            n == s@.len(),
            i + p@.len() <= s@.len(),
            k <= p@.len(),
            forall|j: int| 0 <= j < k ==> s@[i + j] == p@[j],
        decreases p@.len() - k,
    {
        assert(i + k < s@.len());
        if s[i + k] != p[k] {
            assert(s@.subrange(i as int, i + p@.len())[k as int] != p@[k as int]);
            return false;
        }
        k = k + 1;
    }
    assert(s@.subrange(i as int, i + p@.len()) =~= p@);
    true
}

/// Replaces every occurrence of `p` in `s` by `r`.
pub fn replace_all(s: &[char], p: &[char], r: &[char]) -> (out: Vec<char>)
    ensures
        out@ == replace_spec(s@, p@, r@),
{
    if p.len() == 0 {
        return copy_chars(s);
    }
    let mut out: Vec<char> = Vec::new();
    let mut i: usize = 0;
    assert(s@.subrange(0, s@.len() as int) =~= s@);
    assert(out@ + replace_spec(s@, p@, r@) =~= replace_spec(s@, p@, r@));
    while i < s.len()
        invariant
            i <= s@.len(),
            p@.len() > 0,
            out@ + replace_spec(s@.subrange(i as int, s@.len() as int), p@, r@) == replace_spec(
                s@,
                p@,
                r@,
            ),
        decreases s@.len() - i,
    {
        let ghost rest = s@.subrange(i as int, s@.len() as int);
        if p.len() <= s.len() - i && matches_at(s, i, p) {
            assert(rest.subrange(0, p@.len() as int) =~= s@.subrange(i as int, i + p@.len()));
            assert(rest.subrange(p@.len() as int, rest.len() as int) =~= s@.subrange(
                i + p@.len(),
                s@.len() as int,
            ));
            assert(out@ + (r@ + replace_spec(
                s@.subrange(i + p@.len(), s@.len() as int),
                p@,
                r@,
            )) =~= (out@ + r@) + replace_spec(s@.subrange(i + p@.len(), s@.len() as int), p@, r@));
            extend_chars(&mut out, r);
            i = i + p.len();
        } else {
            proof {
                if rest.len() >= p@.len() {
                    assert(rest.subrange(0, p@.len() as int) =~= s@.subrange(i as int, i + p@.len()));
                }
            }
            assert(rest.subrange(1, rest.len() as int) =~= s@.subrange(i + 1, s@.len() as int));
            assert(out@ + (seq![s@[i as int]] + replace_spec(
                s@.subrange(i + 1, s@.len() as int),
                p@,
                r@,
            )) =~= out@.push(s@[i as int]) + replace_spec(
                s@.subrange(i + 1, s@.len() as int),
                p@,
                r@,
            ));
            out.push(s[i]);
            i = i + 1;
        }
    }
    assert(replace_spec(s@.subrange(i as int, s@.len() as int), p@, r@) =~= Seq::<char>::empty());
    assert(out@ + Seq::<char>::empty() =~= out@);
    out
}

/// The view of a rule held as two character vectors.
pub open spec fn rule_view(x: &(Vec<char>, Vec<char>)) -> Rule {
    (x.0@, x.1@)
}

/// The views of a vector of rules.
pub open spec fn rules_view(v: Seq<(Vec<char>, Vec<char>)>) -> Seq<Rule> {
    v.map_values(|x: (Vec<char>, Vec<char>)| rule_view(&x))
}

/// `insert_by_len` places `x` at the first position whose sample is shorter.
proof fn lemma_insert_at(x: Rule, s: Seq<Rule>, k: int)
    requires
        0 <= k <= s.len(),
        forall|j: int| 0 <= j < k ==> (#[trigger] s[j]).0.len() >= x.0.len(),
        k < s.len() ==> s[k].0.len() < x.0.len(),
    ensures
        insert_by_len(x, s) == s.subrange(0, k).push(x) + s.subrange(k, s.len() as int),
    decreases s.len(),
{
    if s.len() == 0 {
        assert(s.subrange(0, k).push(x) + s.subrange(k, s.len() as int) =~= seq![x]);
    } else if k == 0 {
        assert(s.subrange(0, k).push(x) + s.subrange(k, s.len() as int) =~= seq![x] + s);
    } else {
        let t = s.subrange(1, s.len() as int);
        assert forall|j: int| 0 <= j < k - 1 implies (#[trigger] t[j]).0.len() >= x.0.len() by {
            assert(t[j] == s[j + 1]);
        }
        lemma_insert_at(x, t, k - 1);
        assert(seq![s[0]] + (t.subrange(0, k - 1).push(x) + t.subrange(k - 1, t.len() as int))
            =~= s.subrange(0, k).push(x) + s.subrange(k, s.len() as int));
    }
}

/// Inserts `x` into `v`, which is ordered longest first, after every rule
/// whose sample is at least as long.
fn insert_rule(v: &mut Vec<(Vec<char>, Vec<char>)>, x: (Vec<char>, Vec<char>))
    ensures
        rules_view(final(v)@) == insert_by_len(rule_view(&x), rules_view(old(v)@)),
{
    let ghost s = rules_view(v@);
    let mut k: usize = 0;
    while k < v.len() && v[k].0.len() >= x.0.len()
        invariant
            k <= v@.len(),
            s == rules_view(v@),
            forall|j: int| 0 <= j < k ==> (#[trigger] s[j]).0.len() >= x.0@.len(),
        decreases v@.len() - k,
    {
        k = k + 1;
    }
    proof {
        lemma_insert_at(rule_view(&x), s, k as int);
    }
    v.insert(k, x);
    proof {
        assert(rules_view(v@) =~= s.subrange(0, k as int).push(rule_view(&x)) + s.subrange(
            k as int,
            s.len() as int,
        ));
    }
}

/// Orders the rules longest sample first, keeping the order of rules whose
/// samples are equally long.
pub fn sort_rules(v: Vec<(Vec<char>, Vec<char>)>) -> (r: Vec<(Vec<char>, Vec<char>)>)
    ensures
        rules_view(r@) == sort_by_len(rules_view(v@)),
{
    let ghost s = rules_view(v@);
    let ghost n = v@.len();
    let mut src = v;
    let mut out: Vec<(Vec<char>, Vec<char>)> = Vec::new();
    assert(s.subrange(0, 0) =~= Seq::<Rule>::empty());
    assert(rules_view(src@) =~= s.subrange(0, n as int));
    while src.len() > 0
        invariant
            n == s.len(),
            src@.len() <= n,
            rules_view(src@) == s.subrange(n - src@.len(), n as int),
            rules_view(out@) == sort_by_len(s.subrange(0, n - src@.len())),
        decreases src@.len(),
    {
        let ghost i = n - src@.len();
        let ghost before = src@;
        let x = src.remove(0);
        proof {
            assert(rule_view(&x) == rules_view(before)[0]);
            assert(src@ =~= before.subrange(1, before.len() as int));
            assert forall|j: int| 0 <= j < src@.len() implies #[trigger] rules_view(src@)[j] == s[i
                + 1 + j] by {
                assert(rules_view(src@)[j] == rule_view(&src@[j]));
                assert(src@[j] == before[j + 1]);
                assert(rules_view(before)[j + 1] == s.subrange(i, n as int)[j + 1]);
            }
            assert(rules_view(src@) =~= s.subrange(i + 1, n as int));
            assert(s.subrange(0, i + 1).drop_last() =~= s.subrange(0, i));
            assert(s.subrange(0, i + 1).last() == s[i]);
        }
        insert_rule(&mut out, x);
    }
    assert(s.subrange(0, n as int) =~= s);
    out
}

/// Each rule's sample is at least as long as those of the rules after it.
pub open spec fn longest_first(s: Seq<Rule>) -> bool {
    forall|i: int, j: int| 0 <= i < j < s.len() ==> (#[trigger] s[i]).0.len() >= (#[trigger] s[j]).0.len()
}

proof fn lemma_insert_by_len(x: Rule, s: Seq<Rule>)
    requires
        longest_first(s),
    ensures
        longest_first(insert_by_len(x, s)),
        exists|k: int| 0 <= k <= s.len() && insert_by_len(x, s) == s.insert(k, x),
    decreases s.len(),
{
    if s.len() == 0 {
        assert(insert_by_len(x, s) =~= s.insert(0, x));
    } else if s[0].0.len() >= x.0.len() {
        let t = s.subrange(1, s.len() as int);
        assert forall|i: int, j: int| 0 <= i < j < t.len() implies (#[trigger] t[i]).0.len() >= (
        #[trigger] t[j]).0.len() by {
            assert(t[i] == s[i + 1] && t[j] == s[j + 1]);
        }
        lemma_insert_by_len(x, t);
        let k = choose|k: int| 0 <= k <= t.len() && insert_by_len(x, t) == t.insert(k, x);
        let r = insert_by_len(x, s);
        assert(r =~= s.insert(k + 1, x));
        assert forall|i: int, j: int| 0 <= i < j < r.len() implies (#[trigger] r[i]).0.len() >= (
        #[trigger] r[j]).0.len() by {
            if i == 0 {
                if j < k + 1 {
                    assert(r[j] == s[j]);
                } else if j > k + 1 {
                    assert(r[j] == s[j - 1]);
                }
            } else {
                assert(r[i] == insert_by_len(x, t)[i - 1]);
                assert(r[j] == insert_by_len(x, t)[j - 1]);
            }
        }
    } else {
        let r = insert_by_len(x, s);
        assert(r =~= s.insert(0, x));
        assert forall|i: int, j: int| 0 <= i < j < r.len() implies (#[trigger] r[i]).0.len() >= (
        #[trigger] r[j]).0.len() by {
            assert(r[j] == s[j - 1]);
            if i > 0 {
                assert(r[i] == s[i - 1]);
            } else {
                assert(s[0].0.len() >= s[j - 1].0.len());
            }
        }
    }
}

/// Substitution goes longest sample first: the ordered rules are a
/// rearrangement of the given ones in which no rule comes after a rule with a
/// shorter sample.
pub proof fn lemma_sort_longest_first(s: Seq<Rule>)
    ensures
        longest_first(sort_by_len(s)),
        sort_by_len(s).to_multiset() == s.to_multiset(),
    decreases s.len(),
{
    broadcast use vstd::seq_lib::to_multiset_insert, vstd::seq_lib::to_multiset_build;

    if s.len() > 0 {
        lemma_sort_longest_first(s.drop_last());
        let t = sort_by_len(s.drop_last());
        lemma_insert_by_len(s.last(), t);
        let k = choose|k: int| 0 <= k <= t.len() && insert_by_len(s.last(), t) == t.insert(k, s.last());
        assert(s.drop_last().push(s.last()) =~= s);
    } else {
        assert(sort_by_len(s) == s);
    }
}

} // verus!
