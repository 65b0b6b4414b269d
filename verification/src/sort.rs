//! Merge sort over a type's own rank.
use vstd::multiset::*;
use vstd::prelude::*;
use vstd::relations::*;
use vstd::seq_lib::*;

verus! {

/// A type whose values have a rank: of any two, one may stand before the
/// other.
pub trait Ranked: Sized {
    /// Whether this value may stand before `other`.
    spec fn ranks_before(self, other: Self) -> bool;

    /// Of two values at least one may stand before the other.
    proof fn rank_is_total(a: Self, b: Self)
        ensures
            a.ranks_before(b) || b.ranks_before(a),
    ;

    /// Rank carries over.
    proof fn rank_is_transitive(a: Self, b: Self, c: Self)
        requires
            a.ranks_before(b),
            b.ranks_before(c),
        ensures
            a.ranks_before(c),
    ;

    /// Whether this value may stand before `other`.
    fn goes_before(&self, other: &Self) -> (r: bool)
        ensures
            r == self.ranks_before(*other),
    ;
}

/// Whether a sequence stands in rank order.
pub open spec fn in_rank_order<T: Ranked>(s: Seq<T>) -> bool {
    forall|i: int, j: int| 0 <= i < j < s.len() ==> #[trigger] s[i].ranks_before(#[trigger] s[j])
}

/// Whether every element of one sequence may stand before every one of
/// another.
spec fn all_before<T: Ranked>(a: Seq<T>, b: Seq<T>) -> bool {
    forall|i: int, j: int|
        0 <= i < a.len() && 0 <= j < b.len() ==> #[trigger] a[i].ranks_before(#[trigger] b[j])
}

/// The last element of an ordered sequence may follow every other.
proof fn last_is_last<T: Ranked>(s: Seq<T>)
    requires
        in_rank_order(s),
        s.len() > 0,
    ensures
        forall|i: int| 0 <= i < s.len() ==> #[trigger] s[i].ranks_before(s.last()),
{
    assert forall|i: int| 0 <= i < s.len() implies #[trigger] s[i].ranks_before(s.last()) by {
        if i == s.len() - 1 {
            T::rank_is_total(s.last(), s.last());
        }
    }
}

/// The elements in reverse order.
fn reversed<T>(v: Vec<T>) -> (r: Vec<T>)
    ensures
        r@ == v@.reverse(),
{
    let ghost all = v@;
    let mut v = v;
    let mut out: Vec<T> = Vec::new();
    assert(out@ + v@.reverse() =~= all.reverse());
    while v.len() > 0
        invariant
            out@ + v@.reverse() =~= all.reverse(),
        decreases v.len(),
    {
        let ghost before = v@;
        if let Some(x) = v.pop() {
            out.push(x);
            assert(before.reverse() =~= seq![x] + v@.reverse());
        }
    }
    out
}

/// Two ordered sequences as one.
fn merged<T: Ranked>(a: Vec<T>, b: Vec<T>) -> (r: Vec<T>)
    requires
        in_rank_order(a@),
        in_rank_order(b@),
    ensures
        in_rank_order(r@),
        r@.to_multiset() == a@.to_multiset().add(b@.to_multiset()),
{
    broadcast use {group_to_multiset_ensures, group_multiset_axioms};

    let ghost whole = a@.to_multiset().add(b@.to_multiset());
    let mut a = a;
    let mut b = b;
    let mut back: Vec<T> = Vec::new();
    assert(back@.to_multiset() =~= Multiset::empty());
    while a.len() > 0 || b.len() > 0
        invariant
            in_rank_order(a@),
            in_rank_order(b@),
            in_rank_order(back@.reverse()),
            all_before(a@, back@),
            all_before(b@, back@),
            back@.to_multiset().add(a@.to_multiset()).add(b@.to_multiset()) =~= whole,
        decreases a.len() + b.len(),
    {
        broadcast use group_multiset_axioms;

        let from_b: bool = if a.len() == 0 {
            true
        } else if b.len() == 0 {
            false
        } else {
            a[a.len() - 1].goes_before(&b[b.len() - 1])
        };
        let ghost a0 = a@;
        let ghost b0 = b@;
        let ghost back0 = back@;
        proof {
            if a0.len() > 0 {
                last_is_last(a0);
            }
            if b0.len() > 0 {
                last_is_last(b0);
            }
        }
        let popped = if from_b {
            b.pop()
        } else {
            a.pop()
        };
        if let Some(x) = popped {
            back.push(x);
            proof {
                assert(back@.reverse() =~= seq![x] + back0.reverse());
                to_multiset_build(back0, x);
                if from_b {
                    assert(b0 =~= b@.push(x));
                    to_multiset_build(b@, x);
                    if a0.len() > 0 {
                        assert forall|i: int| 0 <= i < a@.len() implies #[trigger] a@[i].ranks_before(
                            x,
                        ) by {
                            T::rank_is_transitive(a0[i], a0.last(), x);
                        }
                    }
                    assert forall|i: int| 0 <= i < b@.len() implies #[trigger] b@[i].ranks_before(
                        x,
                    ) by {
                        assert(b0[i].ranks_before(b0.last()));
                    }
                    assert forall|j: int| 0 <= j < back0.len() implies x.ranks_before(
                        #[trigger] back0[j],
                    ) by {
                        assert(b0[b0.len() - 1].ranks_before(back0[j]));
                    }
                } else {
                    assert(a0 =~= a@.push(x));
                    to_multiset_build(a@, x);
                    if b0.len() > 0 {
                        T::rank_is_total(x, b0.last());
                        assert forall|i: int| 0 <= i < b@.len() implies #[trigger] b@[i].ranks_before(
                            x,
                        ) by {
                            T::rank_is_transitive(b0[i], b0.last(), x);
                        }
                    }
                    assert forall|i: int| 0 <= i < a@.len() implies #[trigger] a@[i].ranks_before(
                        x,
                    ) by {
                        assert(a0[i].ranks_before(a0.last()));
                    }
                    assert forall|j: int| 0 <= j < back0.len() implies x.ranks_before(
                        #[trigger] back0[j],
                    ) by {
                        assert(a0[a0.len() - 1].ranks_before(back0[j]));
                    }
                }
                let r = back@.reverse();
                assert forall|i: int, j: int| 0 <= i < j < r.len() implies #[trigger] r[i].ranks_before(
                    #[trigger] r[j],
                ) by {
                    if i == 0 {
                        assert(r[j] == back0[back0.len() - j]);
                    } else {
                        assert(r[i] == back0.reverse()[i - 1]);
                        assert(r[j] == back0.reverse()[j - 1]);
                    }
                }
            }
        }
    }
    proof {
        back@.lemma_reverse_to_multiset();
        assert(a@.to_multiset() =~= Multiset::empty());
        assert(b@.to_multiset() =~= Multiset::empty());
    }
    reversed(back)
}

/// The same elements in rank order.
pub fn sorted<T: Ranked>(v: Vec<T>) -> (r: Vec<T>)
    ensures
        in_rank_order(r@),
        r@.to_multiset() == v@.to_multiset(),
    decreases v@.len(),
{
    if v.len() <= 1 {
        return v;
    }
    let mut left = v;
    let ghost all = left@;
    let half: usize = left.len() / 2;
    let right = left.split_off(half);
    assert(left@ + right@ =~= all);
    proof {
        lemma_multiset_commutative(left@, right@);
    }
    merged(sorted(left), sorted(right))
}

/// A ranked type of which no two different values have the same rank.
pub trait StrictlyRanked: Ranked {
    /// Two values that may each stand before the other are the same.
    proof fn rank_is_antisymmetric(a: Self, b: Self)
        requires
            a.ranks_before(b),
            b.ranks_before(a),
        ensures
            a == b,
    ;
}

/// The one rank order of a sequence's elements.
pub open spec fn ranking<T: Ranked>(s: Seq<T>) -> Seq<T> {
    s.sort_by(|a: T, b: T| a.ranks_before(b))
}

/// There is only one rank order of given elements.
pub proof fn rank_order_is_unique<T: StrictlyRanked>(s: Seq<T>, r: Seq<T>)
    requires
        in_rank_order(r),
        r.to_multiset() == s.to_multiset(),
    ensures
        r == ranking(s),
{
    let leq = |a: T, b: T| a.ranks_before(b);
    assert forall|a: T| #[trigger] leq(a, a) by {
        T::rank_is_total(a, a);
    }
    assert forall|a: T, b: T| #[trigger] leq(a, b) && #[trigger] leq(b, a) implies a == b by {
        T::rank_is_antisymmetric(a, b);
    }
    assert forall|a: T, b: T, c: T| #[trigger] leq(a, b) && #[trigger] leq(b, c) implies leq(
        a,
        c,
    ) by {
        T::rank_is_transitive(a, b, c);
    }
    assert forall|a: T, b: T| #[trigger] leq(a, b) || #[trigger] leq(b, a) by {
        T::rank_is_total(a, b);
    }
    s.lemma_sort_by_ensures(leq);
    assert(sorted_by(r, leq)) by {
        assert forall|i: int, j: int| 0 <= i < j < r.len() implies #[trigger] leq(r[i], r[j]) by {
            assert(r[i].ranks_before(r[j]));
        }
    }
    lemma_sorted_unique(r, s.sort_by(leq), leq);
}

/// Sorting keeps every element as often as it is there, and puts none before one
/// that it may not stand before.
pub proof fn sorting_keeps_and_orders<T: Ranked>(v: Vec<T>, r: Vec<T>, i: int, j: int)
    requires
        call_ensures(sorted::<T>, (v,), r),
    ensures
        r@.to_multiset() == v@.to_multiset(),
        r@.len() == v@.len(),
        0 <= i < j < r@.len() ==> r@[i].ranks_before(r@[j]),
{
    broadcast use group_to_multiset_ensures;

    assert(r@.to_multiset().len() == v@.to_multiset().len());
}

} // verus!
