//! Sums of integers, by which the laws count and add up.

use vstd::prelude::*;

use crate::decimal::pow10;

verus! {

/// The sum of the numbers.
pub open spec fn total(s: Seq<int>) -> int
    decreases s.len(),
{
    if s.len() == 0 {
        0
    } else {
        total(s.drop_last()) + s.last()
    }
}

/// A sum is that of its parts: the sum of two lists, one behind the other, is the sum of the one
/// and the sum of the other; one number is its own sum, and no number sums to zero.
pub proof fn law_total_is_additive(a: Seq<int>, b: Seq<int>, x: int)
    ensures
        total(a + b) == total(a) + total(b),
        total(seq![x]) == x,
        total(Seq::empty()) == 0,
    decreases b.len(),
{
    if b.len() == 0 {
        assert(a + b =~= a);
    } else {
        law_total_is_additive(a, b.drop_last(), x);
        assert((a + b).drop_last() =~= a + b.drop_last());
    }
    assert(seq![x].drop_last() =~= Seq::<int>::empty());
    assert(total(seq![x].drop_last()) == 0);
}


pub proof fn lemma_total_push(s: Seq<int>, x: int)
    ensures
        total(s.push(x)) == total(s) + x,
{
    assert(s.push(x).drop_last() =~= s);
}

/// The sum of lists that agree is the same, and of opposite lists the opposite.
pub proof fn lemma_total_negated(a: Seq<int>, b: Seq<int>)
    requires
        a.len() == b.len(),
        forall|i: int| 0 <= i < a.len() ==> #[trigger] a[i] + b[i] == 0,
    ensures
        total(a) + total(b) == 0,
    decreases a.len(),
{
    if a.len() > 0 {
        assert(a[a.len() - 1] + b[b.len() - 1] == 0);
        assert forall|i: int| 0 <= i < a.drop_last().len() implies #[trigger] a.drop_last()[i] + b.drop_last()[i]
            == 0 by {
            assert(a[i] + b[i] == 0);
        }
        lemma_total_negated(a.drop_last(), b.drop_last());
    }
}

/// The absolute value of a number.
pub open spec fn absolute(n: int) -> int {
    if n < 0 {
        -n
    } else {
        n
    }
}

/// The absolute values of the numbers.
pub open spec fn absolutes(s: Seq<int>) -> Seq<int> {
    Seq::new(s.len(), |i: int| absolute(s[i]))
}

pub proof fn lemma_total_within(s: Seq<int>)
    ensures
        absolute(total(s)) <= total(absolutes(s)),
    decreases s.len(),
{
    if s.len() > 0 {
        lemma_total_within(s.drop_last());
        assert(absolutes(s).drop_last() =~= absolutes(s.drop_last()));
    }
}

pub proof fn lemma_pow10_add(a: nat, b: nat)
    ensures
        pow10(a + b) == pow10(a) * pow10(b),
    decreases a,
{
    if a == 0 {
        assert(pow10(0) == 1);
        assert(1 * pow10(b) == pow10(b));
    } else {
        lemma_pow10_add((a - 1) as nat, b);
        assert(pow10(a) == 10 * pow10((a - 1) as nat));
        assert(pow10(a + b) == 10 * pow10((a - 1 + b) as nat));
        assert(10 * (pow10((a - 1) as nat) * pow10(b)) == (10 * pow10((a - 1) as nat)) * pow10(b)) by (nonlinear_arith);
    }
}

pub proof fn lemma_total_of_zeros(s: Seq<int>)
    requires
        forall|i: int| 0 <= i < s.len() ==> #[trigger] s[i] == 0,
    ensures
        total(s) == 0,
    decreases s.len(),
{
    if s.len() > 0 {
        assert forall|i: int| 0 <= i < s.drop_last().len() implies #[trigger] s.drop_last()[i] == 0 by {
            assert(s[i] == 0);
        }
        assert(s[s.len() - 1] == 0);
        lemma_total_of_zeros(s.drop_last());
    }
}

} // verus!
