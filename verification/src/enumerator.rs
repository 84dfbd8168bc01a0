//! Odometer enumeration of fixed-length tuples over a base.
//!
//! A candidate of length `L` over an alphabet of size `B` is a tuple of
//! `L` indices, each in `[0, B)`.  The enumeration starts at the
//! all-zero tuple and advances like a multi-digit counter: increment
//! the rightmost position, carrying leftward on overflow.  A carry out
//! of the leftmost position signals that all `B^L` tuples have been
//! produced.
//!
//! The value [`combo_val`] of a tuple is the base-`B` integer it spells
//! (most significant position first).  It ranks the tuples: advancing
//! the odometer adds exactly one to it, it is injective over tuples of
//! one length, and it orders tuples lexicographically.  Together these
//! facts say that the enumeration yields every tuple exactly once, in
//! strictly increasing lexicographic order.

use vstd::prelude::*;
use vstd::arithmetic::power::pow;
use vstd::arithmetic::power::lemma_pow_positive;

verus! {

/// Every position of the tuple is an index into an alphabet of size `base`.
pub open spec fn valid_tuple(t: Seq<usize>, base: int) -> bool {
    forall|i: int| 0 <= i < t.len() ==> (#[trigger] t[i]) < base
}

/// The base-`base` integer a tuple spells, most significant position first.
pub open spec fn combo_val(t: Seq<usize>, base: int) -> int
    decreases t.len(),
{
    if t.len() == 0 {
        0
    } else {
        combo_val(t.drop_last(), base) * base + t.last()
    }
}

/// Strict lexicographic order on tuples, read position by position from
/// the most significant (leftmost) end.
pub open spec fn lex_less(t1: Seq<usize>, t2: Seq<usize>) -> bool
    decreases t1.len(),
{
    if t1.len() == 0 || t2.len() == 0 {
        false
    } else if t1.first() < t2.first() {
        true
    } else if t1.first() == t2.first() {
        lex_less(t1.drop_first(), t2.drop_first())
    } else {
        false
    }
}

/// A valid tuple's value lies in `[0, base^len)`: the enumeration space
/// of length `len` holds exactly `base^len` ranks.
pub proof fn lemma_combo_val_bounds(t: Seq<usize>, base: int)
    requires
        base >= 1,
        valid_tuple(t, base),
    ensures
        0 <= combo_val(t, base) < pow(base, t.len() as nat),
    decreases t.len(),
{
    reveal(pow);
    if t.len() == 0 {
    } else {
        let s = t.drop_last();
        assert(valid_tuple(s, base)) by {
            assert forall|i: int| 0 <= i < s.len() implies (#[trigger] s[i]) < base by {
                assert(s[i] == t[i]);
            }
        }
        lemma_combo_val_bounds(s, base);
        let v = combo_val(s, base);
        let p = pow(base, s.len() as nat);
        let l = t.last() as int;
        assert(0 <= l < base);
        assert(0 <= v * base + l < p * base) by (nonlinear_arith)
            requires
                0 <= v < p,
                0 <= l < base,
                base >= 1,
        ;
        assert(pow(base, t.len() as nat) == base * p);
    }
}

/// Tuples of one length with the same value are the same tuple: the
/// enumeration never produces a duplicate.
pub proof fn lemma_combo_val_injective(t1: Seq<usize>, t2: Seq<usize>, base: int)
    requires
        base >= 1,
        valid_tuple(t1, base),
        valid_tuple(t2, base),
        t1.len() == t2.len(),
        combo_val(t1, base) == combo_val(t2, base),
    ensures
        t1 == t2,
    decreases t1.len(),
{
    if t1.len() == 0 {
        assert(t1 =~= t2);
    } else {
        let s1 = t1.drop_last();
        let s2 = t2.drop_last();
        assert(valid_tuple(s1, base)) by {
            assert forall|i: int| 0 <= i < s1.len() implies (#[trigger] s1[i]) < base by {
                assert(s1[i] == t1[i]);
            }
        }
        assert(valid_tuple(s2, base)) by {
            assert forall|i: int| 0 <= i < s2.len() implies (#[trigger] s2[i]) < base by {
                assert(s2[i] == t2[i]);
            }
        }
        let v1 = combo_val(s1, base);
        let v2 = combo_val(s2, base);
        let l1 = t1.last() as int;
        let l2 = t2.last() as int;
        assert(l1 == l2 && v1 == v2) by (nonlinear_arith)
            requires
                v1 * base + l1 == v2 * base + l2,
                0 <= l1 < base,
                0 <= l2 < base,
        ;
        lemma_combo_val_injective(s1, s2, base);
        assert(t1 =~= t2) by {
            assert forall|i: int| 0 <= i < t1.len() implies t1[i] == t2[i] by {
                if i < t1.len() - 1 {
                    assert(t1[i] == s1[i]);
                    assert(t2[i] == s2[i]);
                }
            }
        }
    }
}

/// The all-zero tuple has value zero: it is where enumeration starts.
pub proof fn lemma_combo_val_zero(t: Seq<usize>, base: int)
    requires
        forall|i: int| 0 <= i < t.len() ==> (#[trigger] t[i]) == 0,
    ensures
        combo_val(t, base) == 0,
    decreases t.len(),
{
    if t.len() == 0 {
    } else {
        let s = t.drop_last();
        assert forall|i: int| 0 <= i < s.len() implies (#[trigger] s[i]) == 0 by {
            assert(s[i] == t[i]);
        }
        lemma_combo_val_zero(s, base);
    }
}

/// The all-maximal tuple has the last rank, `base^len - 1`: the carry
/// out of the leftmost position happens exactly there.
pub proof fn lemma_combo_val_all_max(t: Seq<usize>, base: int)
    requires
        base >= 1,
        forall|i: int| 0 <= i < t.len() ==> (#[trigger] t[i]) == base - 1,
    ensures
        combo_val(t, base) == pow(base, t.len() as nat) - 1,
    decreases t.len(),
{
    reveal(pow);
    if t.len() == 0 {
    } else {
        let s = t.drop_last();
        assert forall|i: int| 0 <= i < s.len() implies (#[trigger] s[i]) == base - 1 by {
            assert(s[i] == t[i]);
        }
        lemma_combo_val_all_max(s, base);
        let p = pow(base, s.len() as nat);
        assert((p - 1) * base + (base - 1) == p * base - 1) by (nonlinear_arith);
        assert(pow(base, t.len() as nat) == base * p);
    }
}

/// One odometer step: incrementing position `i` and zeroing everything
/// to its right, when everything to its right stood at the maximum,
/// adds exactly one to the tuple's value.
proof fn lemma_odometer_step(s1: Seq<usize>, s2: Seq<usize>, i: int, base: int)
    requires
        base >= 1,
        s1.len() == s2.len(),
        0 <= i < s1.len(),
        valid_tuple(s1, base),
        s2[i] == s1[i] + 1,
        forall|j: int| 0 <= j < i ==> s2[j] == s1[j],
        forall|j: int| i < j < s1.len() ==> s1[j] == base - 1,
        forall|j: int| i < j < s1.len() ==> s2[j] == 0,
    ensures
        combo_val(s2, base) == combo_val(s1, base) + 1,
    decreases s1.len(),
{
    let n = s1.len() as int;
    let r1 = s1.drop_last();
    let r2 = s2.drop_last();
    if i == n - 1 {
        assert(r1 =~= r2);
    } else {
        assert(valid_tuple(r1, base)) by {
            assert forall|j: int| 0 <= j < r1.len() implies (#[trigger] r1[j]) < base by {
                assert(r1[j] == s1[j]);
            }
        }
        lemma_odometer_step(r1, r2, i, base);
        let v = combo_val(r1, base);
        assert(s1.last() == base - 1);
        assert(s2.last() == 0);
        assert((v + 1) * base == v * base + base) by (nonlinear_arith);
    }
}

/// Advances the odometer to the next tuple.
///
/// Scans from the least significant (rightmost) position: increments
/// it; on overflow resets it to zero and carries one position left.
/// Returns `true` when a next tuple exists; `false` when the previous
/// tuple was the last one of its length, leaving the all-zero tuple.
pub fn increment_combination(current: &mut Vec<usize>, base: usize) -> (more: bool)
    requires
        1 <= base,
        valid_tuple(old(current)@, base as int),
    ensures
        final(current)@.len() == old(current)@.len(),
        valid_tuple(final(current)@, base as int),
        more ==> combo_val(final(current)@, base as int) == combo_val(old(current)@, base as int) + 1,
        !more ==> combo_val(old(current)@, base as int) == pow(base as int, old(current)@.len() as nat) - 1,
        !more ==> forall|j: int| 0 <= j < final(current)@.len() ==> (#[trigger] final(current)@[j]) == 0,
{
    let n = current.len();
    let mut i: usize = n;
    while i > 0
        invariant
            i <= n,
            n == current@.len(),
            n == old(current)@.len(),
            1 <= base,
            valid_tuple(old(current)@, base as int),
            forall|j: int| 0 <= j < i ==> current@[j] == old(current)@[j],
            forall|j: int| i <= j < n ==> (#[trigger] old(current)@[j]) == base - 1,
            forall|j: int| i <= j < n ==> (#[trigger] current@[j]) == 0,
        decreases i,
    {
        i = i - 1;
        let c = current[i];
        assert(c == old(current)@[i as int]);
        assert(c < base);
        if c < base - 1 {
            current[i] = c + 1;
            proof {
                assert(valid_tuple(current@, base as int)) by {
                    assert forall|j: int| 0 <= j < current@.len() implies (#[trigger] current@[j])
                        < base by {
                        if j < i {
                            assert(current@[j] == old(current)@[j]);
                        }
                    }
                }
                lemma_odometer_step(old(current)@, current@, i as int, base as int);
            }
            return true;
        }
        current[i] = 0;
    }
    proof {
        lemma_combo_val_all_max(old(current)@, base as int);
        assert(valid_tuple(current@, base as int));
    }
    false
}

/// The enumeration order is exactly lexicographic order: among valid
/// tuples of one length, a smaller value means a lexicographically
/// earlier tuple, and conversely.
pub proof fn lemma_order_is_lex(t1: Seq<usize>, t2: Seq<usize>, base: int)
    requires
        base >= 1,
        t1.len() == t2.len(),
        valid_tuple(t1, base),
        valid_tuple(t2, base),
    ensures
        combo_val(t1, base) < combo_val(t2, base) <==> lex_less(t1, t2),
    decreases t1.len(),
{
    if t1.len() == 0 {
        return;
    }
    lemma_combo_val_front(t1, base);
    lemma_combo_val_front(t2, base);
    let r1 = t1.drop_first();
    let r2 = t2.drop_first();
    assert(valid_tuple(r1, base)) by {
        assert forall|i: int| 0 <= i < r1.len() implies (#[trigger] r1[i]) < base by {
            assert(r1[i] == t1[i + 1]);
        }
    }
    assert(valid_tuple(r2, base)) by {
        assert forall|i: int| 0 <= i < r2.len() implies (#[trigger] r2[i]) < base by {
            assert(r2[i] == t2[i + 1]);
        }
    }
    lemma_combo_val_bounds(r1, base);
    lemma_combo_val_bounds(r2, base);
    let p = pow(base, (t1.len() - 1) as nat);
    lemma_pow_positive(base, (t1.len() - 1) as nat);
    let a = t1.first() as int;
    let b = t2.first() as int;
    if a < b {
        assert(a * p + p <= b * p) by (nonlinear_arith)
            requires
                a + 1 <= b,
                p >= 0,
        ;
    } else if a == b {
        lemma_order_is_lex(r1, r2, base);
    } else {
        assert(b * p + p <= a * p) by (nonlinear_arith)
            requires
                b + 1 <= a,
                p >= 0,
        ;
    }
}

/// A tuple's value decomposes from the front: the first position
/// weighs `base^(len-1)`, the rest spell their own value.
proof fn lemma_combo_val_front(t: Seq<usize>, base: int)
    requires
        base >= 1,
        t.len() >= 1,
    ensures
        combo_val(t, base) == t.first() * pow(base, (t.len() - 1) as nat) + combo_val(
            t.drop_first(),
            base,
        ),
    decreases t.len(),
{
    reveal(pow);
    if t.len() == 1 {
        assert(t.drop_last() =~= Seq::<usize>::empty());
        assert(t.drop_first() =~= Seq::<usize>::empty());
    } else {
        let s = t.drop_last();
        lemma_combo_val_front(s, base);
        assert(t.drop_first().drop_last() =~= s.drop_first());
        let f = t.first() as int;
        let pp = pow(base, (s.len() - 1) as nat);
        let w = combo_val(s.drop_first(), base);
        assert(s.first() == t.first());
        assert(combo_val(s, base) == f * pp + w);
        assert((f * pp + w) * base == f * (pp * base) + w * base) by (nonlinear_arith);
        assert(pow(base, (t.len() - 1) as nat) == base * pp);
        assert(t.drop_first().last() == t.last());
        assert(combo_val(t.drop_first(), base) == w * base + t.last());
    }
}

} // verus!
