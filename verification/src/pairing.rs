//! Orders in which the pairs of bodies may be taken, and why the net forces do
//! not depend on the choice.
//!
//! The engine walks the pairs in one fixed order. Another walk, a parallel one
//! for instance, gives every body the same net force, to the last bit, as long
//! as each body still takes in the others in the order of their indices. Where
//! the arithmetic lets the order of additions and subtractions be exchanged,
//! every walk that takes each pair once does.

use vstd::prelude::*;
use vstd::seq_lib::{commutative_foldl, lemma_fold_left_permutation};
use crate::body::Body;
use crate::gravity::{
    after_meeting,
    attraction,
    net_force,
    net_force_among,
    with_action,
    with_reaction,
};
use crate::scalar::{Scalar, difference, sum};
use crate::vector::Vec2;

verus! {

/// Every entry of `order` is a pair `(i, j)` of two bodies out of `n`, the
/// earlier one first.
pub open spec fn pairs_within(order: Seq<(int, int)>, n: int) -> bool {
    forall|m: int| 0 <= m < order.len() ==> 0 <= (#[trigger] order[m]).0 < order[m].1 < n
}

/// The running totals of all bodies after the pairs of `order` have been taken
/// in, one after another: each pair's force is added to the total of its
/// earlier body and subtracted from that of its later one.
pub open spec fn totals_after<S: Scalar>(
    bodies: Seq<Body<S>>,
    g: S,
    order: Seq<(int, int)>,
) -> Seq<Vec2<S>>
    decreases order.len(),
{
    if order.len() == 0 {
        Seq::new(bodies.len(), |k: int| Vec2::origin())
    } else {
        let before = totals_after(bodies, g, order.drop_last());
        let (i, j) = order.last();
        let force = attraction(g, bodies[i], bodies[j]);
        before.update(i, with_action(before[i], force)).update(j, with_reaction(before[j], force))
    }
}

/// The bodies that body `k` is paired with in `order`, as they come.
pub open spec fn partners(order: Seq<(int, int)>, k: int) -> Seq<int>
    decreases order.len(),
{
    if order.len() == 0 {
        Seq::empty()
    } else {
        let earlier = partners(order.drop_last(), k);
        let (i, j) = order.last();
        if i == k {
            earlier.push(j)
        } else if j == k {
            earlier.push(i)
        } else {
            earlier
        }
    }
}

/// The indices below `upto`, ascending, without `k`.
pub open spec fn others_below(k: int, upto: int) -> Seq<int>
    decreases upto,
{
    if upto <= 0 {
        Seq::empty()
    } else if upto - 1 == k {
        others_below(k, upto - 1)
    } else {
        others_below(k, upto - 1).push(upto - 1)
    }
}

/// `order` pairs every body out of `n` with each of the others once, in
/// whatever order.
pub open spec fn each_pair_once(order: Seq<(int, int)>, n: int) -> bool {
    &&& pairs_within(order, n)
    &&& forall|k: int|
        0 <= k < n ==> (#[trigger] partners(order, k)).to_multiset() == others_below(
            k,
            n,
        ).to_multiset()
}

/// `order` pairs every body out of `n` with each of the others once, and
/// each body meets the others in the order of their indices.
pub open spec fn in_index_order(order: Seq<(int, int)>, n: int) -> bool {
    &&& pairs_within(order, n)
    &&& forall|k: int| 0 <= k < n ==> #[trigger] partners(order, k) == others_below(k, n)
}

/// Additions to and subtractions from a running total may be exchanged: the
/// total is the same whichever of two comes first.
pub open spec fn accumulation_commutes<S: Scalar>() -> bool {
    &&& forall|t: S, a: S, b: S| #[trigger] sum(sum(t, a), b) == sum(sum(t, b), a)
    &&& forall|t: S, a: S, b: S| #[trigger]
        difference(difference(t, a), b) == difference(difference(t, b), a)
    &&& forall|t: S, a: S, b: S| #[trigger] difference(sum(t, a), b) == sum(difference(t, b), a)
}

/// What taking in one more partner does to body `k`'s running total.
pub open spec fn meeting<S: Scalar>(bodies: Seq<Body<S>>, g: S, k: int) -> spec_fn(
    Vec2<S>,
    int,
) -> Vec2<S> {
    |total: Vec2<S>, j: int| after_meeting(bodies, g, k, total, j)
}

/// The total of the forces on body `k` from the bodies listed in `from`,
/// taken in the order of the list.
pub open spec fn total_over<S: Scalar>(bodies: Seq<Body<S>>, g: S, k: int, from: Seq<int>) -> Vec2<
    S,
> {
    from.fold_left(Vec2::origin(), meeting(bodies, g, k))
}

/// There is one running total for each body.
pub proof fn totals_have_one_entry_per_body<S: Scalar>(
    bodies: Seq<Body<S>>,
    g: S,
    order: Seq<(int, int)>,
)
    requires
        pairs_within(order, bodies.len() as int),
    ensures
        totals_after(bodies, g, order).len() == bodies.len(),
    decreases order.len(),
{
    if order.len() > 0 {
        totals_have_one_entry_per_body(bodies, g, order.drop_last());
    }
}

/// Whatever the order of the pairs, a body's running total is the total over
/// its own partners, as they came.
pub proof fn totals_follow_partners<S: Scalar>(
    bodies: Seq<Body<S>>,
    g: S,
    order: Seq<(int, int)>,
    k: int,
)
    requires
        pairs_within(order, bodies.len() as int),
        0 <= k < bodies.len(),
    ensures
        totals_after(bodies, g, order)[k] == total_over(bodies, g, k, partners(order, k)),
    decreases order.len(),
{
    if order.len() > 0 {
        let (i, j) = order.last();
        let earlier = partners(order.drop_last(), k);
        totals_follow_partners(bodies, g, order.drop_last(), k);
        totals_have_one_entry_per_body(bodies, g, order.drop_last());
        if i == k {
            assert(earlier.push(j).drop_last() =~= earlier);
        } else if j == k {
            assert(earlier.push(i).drop_last() =~= earlier);
        }
    }
}

/// Summing over all the others below `upto`, in the order of their indices,
/// gives the net force among them.
pub proof fn total_over_all_others<S: Scalar>(bodies: Seq<Body<S>>, g: S, k: int, upto: int)
    ensures
        total_over(bodies, g, k, others_below(k, upto)) == net_force_among(bodies, g, k, upto),
    decreases upto,
{
    if upto > 0 {
        total_over_all_others(bodies, g, k, upto - 1);
        if upto - 1 != k {
            let earlier = others_below(k, upto - 1);
            assert(earlier.push(upto - 1).drop_last() =~= earlier);
        }
    }
}

/// Where accumulation commutes, a body may take in its partners in any order.
pub proof fn meetings_may_be_exchanged<S: Scalar>(bodies: Seq<Body<S>>, g: S, k: int)
    requires
        accumulation_commutes::<S>(),
    ensures
        commutative_foldl(meeting(bodies, g, k)),
{
    let f = meeting(bodies, g, k);
    assert forall|x: int, y: int, v: Vec2<S>| #[trigger] f(f(v, x), y) == f(f(v, y), x) by {
        let fx = if x < k {
            attraction(g, bodies[x], bodies[k])
        } else {
            attraction(g, bodies[k], bodies[x])
        };
        let fy = if y < k {
            attraction(g, bodies[y], bodies[k])
        } else {
            attraction(g, bodies[k], bodies[y])
        };
        match (fx, fy) {
            (Some(a), Some(b)) => {
                assert(sum(sum(v.x, a.x), b.x) == sum(sum(v.x, b.x), a.x));
                assert(sum(sum(v.y, a.y), b.y) == sum(sum(v.y, b.y), a.y));
                assert(difference(difference(v.x, a.x), b.x) == difference(
                    difference(v.x, b.x),
                    a.x,
                ));
                assert(difference(difference(v.y, a.y), b.y) == difference(
                    difference(v.y, b.y),
                    a.y,
                ));
                assert(difference(sum(v.x, a.x), b.x) == sum(difference(v.x, b.x), a.x));
                assert(difference(sum(v.y, a.y), b.y) == sum(difference(v.y, b.y), a.y));
                assert(difference(sum(v.x, b.x), a.x) == sum(difference(v.x, a.x), b.x));
                assert(difference(sum(v.y, b.y), a.y) == sum(difference(v.y, a.y), b.y));
            },
            _ => {},
        }
    }
}

/// The net forces do not depend on the order of the pairs: every walk through
/// the pairs in which each body meets the others in the order of their indices
/// leaves, for each body, exactly the sum over all the other bodies. This
/// holds of every arithmetic.
pub proof fn net_forces_whatever_the_order<S: Scalar>(
    bodies: Seq<Body<S>>,
    g: S,
    order: Seq<(int, int)>,
)
    requires
        in_index_order(order, bodies.len() as int),
    ensures
        totals_after(bodies, g, order).len() == bodies.len(),
        forall|k: int|
            0 <= k < bodies.len() ==> #[trigger] totals_after(bodies, g, order)[k] == net_force(
                bodies,
                g,
                k,
            ),
{
    assert forall|k: int| 0 <= k < bodies.len() implies #[trigger] totals_after(
        bodies,
        g,
        order,
    )[k] == net_force(bodies, g, k) by {
        totals_follow_partners(bodies, g, order, k);
        total_over_all_others(bodies, g, k, bodies.len() as int);
        assert(partners(order, k) == others_below(k, bodies.len() as int));
    }
    totals_have_one_entry_per_body(bodies, g, order);
}

/// Where accumulation commutes, the order of the pairs does not matter at
/// all: every walk that takes each pair once leaves, for each body, exactly
/// the sum over all the other bodies.
pub proof fn net_forces_in_any_order<S: Scalar>(
    bodies: Seq<Body<S>>,
    g: S,
    order: Seq<(int, int)>,
)
    requires
        accumulation_commutes::<S>(),
        each_pair_once(order, bodies.len() as int),
    ensures
        totals_after(bodies, g, order).len() == bodies.len(),
        forall|k: int|
            0 <= k < bodies.len() ==> #[trigger] totals_after(bodies, g, order)[k] == net_force(
                bodies,
                g,
                k,
            ),
{
    assert forall|k: int| 0 <= k < bodies.len() implies #[trigger] totals_after(
        bodies,
        g,
        order,
    )[k] == net_force(bodies, g, k) by {
        totals_follow_partners(bodies, g, order, k);
        total_over_all_others(bodies, g, k, bodies.len() as int);
        meetings_may_be_exchanged(bodies, g, k);
        assert(partners(order, k).to_multiset() == others_below(
            k,
            bodies.len() as int,
        ).to_multiset());
        lemma_fold_left_permutation(
            partners(order, k),
            others_below(k, bodies.len() as int),
            meeting(bodies, g, k),
            Vec2::origin(),
        );
    }
    totals_have_one_entry_per_body(bodies, g, order);
}

/// The pairs that end in body `later`, the first `count` of them: the earlier
/// body ascending from 0.
pub open spec fn column(later: int, count: int) -> Seq<(int, int)> {
    Seq::new(count as nat, |i: int| (i, later))
}

/// The pairs of `n` bodies walked by their later body: first the pair that
/// ends in body 1, then those that end in body 2, and so on, the earlier body
/// ascending each time. The engine walks by the earlier body instead.
pub open spec fn by_later_body(n: int) -> Seq<(int, int)>
    decreases n,
{
    if n <= 1 {
        Seq::empty()
    } else {
        by_later_body(n - 1) + column(n - 1, n - 1)
    }
}

/// The partners met in two walks, one after the other, are those of the
/// first followed by those of the second.
pub proof fn partners_of_joined_walks(first: Seq<(int, int)>, second: Seq<(int, int)>, k: int)
    ensures
        partners(first + second, k) == partners(first, k) + partners(second, k),
    decreases second.len(),
{
    if second.len() == 0 {
        assert(first + second =~= first);
        assert(partners(first, k) + partners(second, k) =~= partners(first, k));
    } else {
        partners_of_joined_walks(first, second.drop_last(), k);
        assert((first + second).drop_last() =~= first + second.drop_last());
        assert((first + second).last() == second.last());
        let joined = partners(first, k) + partners(second.drop_last(), k);
        let (i, j) = second.last();
        if i == k {
            assert(joined.push(j) =~= partners(first, k) + partners(second, k));
        } else if j == k {
            assert(joined.push(i) =~= partners(first, k) + partners(second, k));
        }
    }
}

/// Whom body `k` meets in the pairs that end in body `later`: the later body
/// itself meets all the earlier ones in turn, and each earlier one meets it.
pub proof fn partners_in_column(later: int, count: int, k: int)
    requires
        0 <= count <= later,
        0 <= k,
    ensures
        partners(column(later, count), k) == if k == later {
            others_below(k, count)
        } else if k < count {
            Seq::empty().push(later)
        } else {
            Seq::empty()
        },
    decreases count,
{
    if count > 0 {
        partners_in_column(later, count - 1, k);
        assert(column(later, count).drop_last() =~= column(later, count - 1));
        assert(column(later, count).last() == (count - 1, later));
    }
}

/// A body that is not among the `n` that a walk pairs meets nobody in it.
pub proof fn no_partners_beyond(order: Seq<(int, int)>, n: int, k: int)
    requires
        pairs_within(order, n),
        n <= k,
    ensures
        partners(order, k) == Seq::<int>::empty(),
    decreases order.len(),
{
    if order.len() > 0 {
        no_partners_beyond(order.drop_last(), n, k);
    }
}

/// The walk by the later body is one of those in which every body meets the
/// others in the order of their indices.
pub proof fn by_later_body_is_in_index_order(n: int)
    ensures
        in_index_order(by_later_body(n), n),
    decreases n,
{
    if n > 1 {
        let earlier = by_later_body(n - 1);
        let last = column(n - 1, n - 1);
        by_later_body_is_in_index_order(n - 1);
        assert forall|k: int| 0 <= k < n implies #[trigger] partners(by_later_body(n), k)
            == others_below(k, n) by {
            partners_of_joined_walks(earlier, last, k);
            partners_in_column(n - 1, n - 1, k);
            if k < n - 1 {
                assert(partners(earlier, k) == others_below(k, n - 1));
                assert(others_below(k, n - 1) + Seq::empty().push(n - 1) =~= others_below(
                    k,
                    n - 1,
                ).push(n - 1));
            } else {
                no_partners_beyond(earlier, n - 1, k);
                assert(Seq::<int>::empty() + others_below(k, n - 1) =~= others_below(k, n - 1));
            }
        }
    } else {
        assert forall|k: int| 0 <= k < n implies #[trigger] partners(by_later_body(n), k)
            == others_below(k, n) by {
            assert(others_below(0, 0) =~= Seq::empty());
        }
    }
}

} // verus!
