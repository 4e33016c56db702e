//! Names for backup and temporary files, and the probe that picks the first
//! free one.

use crate::text::{decimal, decimal_text, digit_char};
use vstd::prelude::*;
use vstd::seq_lib::*;
use vstd::set_lib::*;
use vstd::string::*;

verus! {

/// `base.suffix` for index 0, `base.suffix.n` for a later index `n`.
pub open spec fn indexed_name(base: Seq<char>, suffix: Seq<char>, idx: nat) -> Seq<char> {
    if idx == 0 {
        base + "."@ + suffix
    } else {
        base + "."@ + suffix + "."@ + decimal(idx)
    }
}

/// The string views of a list of names.
pub open spec fn views(v: Seq<String>) -> Seq<Seq<char>> {
    v.map_values(|s: String| s@)
}

/// Writes the candidate name with index `idx`.
pub fn indexed_name_text(base: &str, suffix: &str, idx: usize) -> (r: String)
    ensures
        r@ == indexed_name(base@, suffix@, idx as nat),
{
    proof { reveal_strlit("."); }
    let mut r = String::from_str(base);
    r.append(".");
    r.append(suffix);
    if idx > 0 {
        r.append(".");
        let d = decimal_text(idx);
        r.append(d.as_str());
    }
    r
}

spec fn digit_value(c: char) -> nat {
    if c == '1' { 1 } else if c == '2' { 2 } else if c == '3' { 3 } else if c == '4' { 4 }
    else if c == '5' { 5 } else if c == '6' { 6 } else if c == '7' { 7 } else if c == '8' { 8 }
    else if c == '9' { 9 } else { 0 }
}

spec fn decimal_value(s: Seq<char>) -> nat
    decreases s.len(),
{
    if s.len() == 0 {
        0
    } else {
        decimal_value(s.drop_last()) * 10 + digit_value(s.last())
    }
}

proof fn lemma_digit_value(d: nat)
    requires
        d < 10,
    ensures
        digit_value(digit_char(d)) == d,
{
    if d == 0 {} else if d == 1 {} else if d == 2 {} else if d == 3 {} else if d == 4 {}
    else if d == 5 {} else if d == 6 {} else if d == 7 {} else if d == 8 {} else {}
}

proof fn lemma_decimal_value(n: nat)
    ensures
        decimal_value(decimal(n)) == n,
        decimal(n).len() > 0,
    decreases n,
{
    lemma_digit_value(n % 10);
    if n < 10 {
        assert(decimal(n).drop_last() =~= Seq::<char>::empty());
        assert(n % 10 == n);
        assert(decimal_value(Seq::<char>::empty()) == 0);
        assert(decimal_value(decimal(n)) == decimal_value(decimal(n).drop_last()) * 10
            + digit_value(decimal(n).last()));
    } else {
        lemma_decimal_value(n / 10);
        assert(decimal(n).drop_last() =~= decimal(n / 10));
        assert(decimal(n).last() == digit_char(n % 10));
        assert((n / 10) * 10 + n % 10 == n) by (nonlinear_arith);
        assert(decimal_value(decimal(n)) == decimal_value(decimal(n).drop_last()) * 10
            + digit_value(decimal(n).last()));
    }
}

/// Different indices give different names.
pub proof fn lemma_indexed_name_injective(base: Seq<char>, suffix: Seq<char>, i: nat, j: nat)
    requires
        i != j,
    ensures
        indexed_name(base, suffix, i) != indexed_name(base, suffix, j),
{
    reveal_strlit(".");
    lemma_decimal_value(i);
    lemma_decimal_value(j);
    let p = base + "."@ + suffix;
    if i > 0 && j > 0 {
        if indexed_name(base, suffix, i) == indexed_name(base, suffix, j) {
            let a = indexed_name(base, suffix, i);
            let b = indexed_name(base, suffix, j);
            assert(a.subrange((p.len() + 1) as int, a.len() as int) =~= decimal(i));
            assert(b.subrange((p.len() + 1) as int, b.len() as int) =~= decimal(j));
        }
    } else {
        assert(indexed_name(base, suffix, i).len() != indexed_name(base, suffix, j).len());
    }
}

/// Whether a name is in the list.
pub fn contains_name(names: &Vec<String>, s: &String) -> (r: bool)
    ensures
        r == views(names@).contains(s@),
{
    let mut i: usize = 0;
    while i < names.len()
        invariant
            i <= names@.len(),
            forall|k: int| 0 <= k < i ==> names@[k]@ != s@,
        decreases names@.len() - i,
    {
        if names[i] == *s {
            assert(views(names@)[i as int] == s@);
            return true;
        }
        i = i + 1;
    }
    assert(!views(names@).contains(s@)) by {
        if views(names@).contains(s@) {
            let k = choose|k: int| 0 <= k < views(names@).len() && views(names@)[k] == s@;
            assert(names@[k]@ == s@);
        }
    }
    false
}

/// The smallest index whose name is not taken, with that name.
pub fn first_free_name(base: &str, suffix: &str, taken: &Vec<String>) -> (r: (String, usize))
    ensures
        r.0@ == indexed_name(base@, suffix@, r.1 as nat),
        !views(taken@).contains(r.0@),
        forall|j: nat| j < r.1 ==> views(taken@).contains(indexed_name(base@, suffix@, j)),
        r.1 <= taken@.len(),
{
    let ghost all = views(taken@).to_set();
    proof {
        views(taken@).lemma_cardinality_of_set();
        broadcast use vstd::seq_lib::seq_to_set_is_finite;
    }
    let n = taken.len();
    let mut idx: usize = 0;
    let ghost mut seen: Set<Seq<char>> = Set::empty();
    let mut cand = indexed_name_text(base, suffix, 0);
    while contains_name(taken, &cand)
        invariant
            cand@ == indexed_name(base@, suffix@, idx as nat),
            all == views(taken@).to_set(),
            all.finite(),
            all.len() <= taken@.len(),
            seen.finite(),
            seen.len() == idx,
            seen.subset_of(all),
            forall|j: nat| j < idx ==> seen.contains(indexed_name(base@, suffix@, j)),
            forall|x: Seq<char>| seen.contains(x) ==> exists|j: nat| j < idx && x == indexed_name(base@, suffix@, j),
            forall|j: nat| j < idx ==> views(taken@).contains(indexed_name(base@, suffix@, j)),
            idx <= taken@.len(),
            n == taken@.len(),
        decreases taken@.len() - idx,
    {
        proof {
            assert(!seen.contains(cand@)) by {
                if seen.contains(cand@) {
                    let j = choose|j: nat| j < idx && cand@ == indexed_name(base@, suffix@, j);
                    lemma_indexed_name_injective(base@, suffix@, j, idx as nat);
                }
            }
            assert(all.contains(cand@));
            let s2 = seen.insert(cand@);
            assert(s2.len() == idx + 1);
            lemma_len_subset(s2, all);
            seen = s2;
            assert(idx + 1 <= n);
        }
        idx = idx + 1;
        cand = indexed_name_text(base, suffix, idx);
    }
    (cand, idx)
}

} // verus!
