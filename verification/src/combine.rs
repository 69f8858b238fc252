//! Combining many aggregates into one, and why the order does not matter.

use vstd::prelude::*;
use rayon::iter::{IntoParallelRefIterator, ParallelIterator};
use crate::simulation::{all_within, lemma_add_within, Simulation, SimulationView};

verus! {

/// The aggregates of `items` added up from left to right, starting from the
/// aggregate of nothing.
pub open spec fn total(items: Seq<SimulationView>) -> SimulationView
    decreases items.len(),
{
    if items.len() == 0 {
        SimulationView::zero()
    } else {
        total(items.drop_last()).add(items.last())
    }
}

/// Every aggregate of `items` is well formed and has the divisor `divisor`.
pub open spec fn all_over(items: Seq<SimulationView>, divisor: int) -> bool {
    forall|i: int|
        0 <= i < items.len() ==> (#[trigger] items[i]).well_formed() && items[i].divisor
            == divisor
}

/// `x` is the aggregate of nothing or a well-formed aggregate over `divisor`.
pub open spec fn unit_or_over(x: SimulationView, divisor: int) -> bool {
    x.well_formed() && (x == SimulationView::zero() || x.divisor == divisor)
}

/// One way of reducing a list of aggregates to one: the aggregate of nothing
/// may be put in anywhere, and neighbours may be joined in any grouping.
pub enum Reduction {
    Identity,
    Item(SimulationView),
    Join(Box<Reduction>, Box<Reduction>),
}

impl Reduction {
    /// The aggregates that the reduction combines, from left to right.
    pub open spec fn items(self) -> Seq<SimulationView>
        decreases self,
    {
        match self {
            Reduction::Identity => Seq::empty(),
            Reduction::Item(x) => seq![x],
            Reduction::Join(left, right) => left.items() + right.items(),
        }
    }

    /// What the reduction arrives at.
    pub open spec fn value(self) -> SimulationView
        decreases self,
    {
        match self {
            Reduction::Identity => SimulationView::zero(),
            Reduction::Item(x) => x,
            Reduction::Join(left, right) => left.value().add(right.value()),
        }
    }
}

/// Adding the aggregate of nothing, on either side, changes nothing.
pub proof fn law_zero_is_identity(x: SimulationView)
    requires
        x.well_formed(),
    ensures
        SimulationView::zero().add(x) == x,
        x.add(SimulationView::zero()) == x,
{
    let zero = SimulationView::zero();
    let d = x.divisor;
    assert forall|v: int| #[trigger] (0 * v) == 0 && #[trigger] (v * 1) == v by {}
    let l = zero.add(x);
    assert(l.orthogonal_steps =~= x.orthogonal_steps);
    assert(l.diagonal_steps =~= x.diagonal_steps);
    assert(l.orthogonal_jumps =~= x.orthogonal_jumps);
    assert(l.diagonal_jumps =~= x.diagonal_jumps);
    let r = x.add(zero);
    assert(r.orthogonal_steps =~= x.orthogonal_steps);
    assert(r.diagonal_steps =~= x.diagonal_steps);
    assert(r.orthogonal_jumps =~= x.orthogonal_jumps);
    assert(r.diagonal_jumps =~= x.diagonal_jumps);
}

/// The sum of two aggregates does not depend on their order.
pub proof fn law_add_commutes(a: SimulationView, b: SimulationView)
    requires
        a.well_formed(),
        b.well_formed(),
    ensures
        a.add(b) == b.add(a),
{
    let l = a.add(b);
    let r = b.add(a);
    assert(a.divisor * b.divisor == b.divisor * a.divisor) by (nonlinear_arith);
    assert(l.orthogonal_steps =~= r.orthogonal_steps);
    assert(l.diagonal_steps =~= r.diagonal_steps);
    assert(l.orthogonal_jumps =~= r.orthogonal_jumps);
    assert(l.diagonal_jumps =~= r.diagonal_jumps);
}

/// The sum of a well-formed aggregate with another is well formed.
pub proof fn lemma_add_well_formed(a: SimulationView, b: SimulationView)
    requires
        a.well_formed(),
    ensures
        a.add(b).well_formed(),
{
}

/// Among aggregates over one divisor, and aggregates of nothing, the sum of
/// three does not depend on which two are added first, and stays among them.
pub proof fn law_add_associates(a: SimulationView, b: SimulationView, c: SimulationView, d: int)
    requires
        unit_or_over(a, d),
        unit_or_over(b, d),
        unit_or_over(c, d),
    ensures
        a.add(b).add(c) == a.add(b.add(c)),
        unit_or_over(a.add(b), d),
{
    let zero = SimulationView::zero();
    lemma_add_well_formed(a, b);
    lemma_add_well_formed(b, c);
    if a == zero {
        law_zero_is_identity(b);
        law_zero_is_identity(b.add(c));
    } else if b == zero {
        law_zero_is_identity(a);
        law_zero_is_identity(c);
    } else if c == zero {
        law_zero_is_identity(b);
        law_zero_is_identity(a.add(b));
    } else {
        let l = a.add(b).add(c);
        let r = a.add(b.add(c));
        assert(l.orthogonal_steps =~= r.orthogonal_steps);
        assert(l.diagonal_steps =~= r.diagonal_steps);
        assert(l.orthogonal_jumps =~= r.orthogonal_jumps);
        assert(l.diagonal_jumps =~= r.diagonal_jumps);
    }
}

/// The total of a list over one divisor is the aggregate of nothing or an
/// aggregate over that divisor.
pub proof fn lemma_total_over(items: Seq<SimulationView>, d: int)
    requires
        all_over(items, d),
    ensures
        unit_or_over(total(items), d),
        items.len() > 0 ==> total(items).divisor == d,
    decreases items.len(),
{
    if items.len() > 0 {
        let front = items.drop_last();
        lemma_total_over(front, d);
        law_add_associates(total(front), items.last(), SimulationView::zero(), d);
        if total(front) == SimulationView::zero() {
            law_zero_is_identity(items.last());
        }
    }
}

/// Adding up a list over one divisor in two parts, and then the two totals,
/// gives the total of the whole list.
pub proof fn law_total_splits(a: Seq<SimulationView>, b: Seq<SimulationView>, d: int)
    requires
        all_over(a, d),
        all_over(b, d),
    ensures
        total(a + b) == total(a).add(total(b)),
    decreases b.len(),
{
    lemma_total_over(a, d);
    if b.len() == 0 {
        assert(a + b =~= a);
        law_zero_is_identity(total(a));
    } else {
        let front = b.drop_last();
        assert((a + b).drop_last() =~= a + front);
        assert((a + b).last() == b.last());
        law_total_splits(a, front, d);
        lemma_total_over(front, d);
        law_add_associates(total(a), total(front), b.last(), d);
    }
}

/// However a list of aggregates over one divisor is reduced, with the
/// aggregate of nothing put in anywhere and neighbours joined in any grouping,
/// the result is the total from left to right.
pub proof fn law_reduction_is_total(r: Reduction, d: int)
    requires
        all_over(r.items(), d),
    ensures
        r.value() == total(r.items()),
    decreases r,
{
    match r {
        Reduction::Identity => {
            assert(r.items().len() == 0);
        },
        Reduction::Item(x) => {
            let one = r.items();
            assert(one.drop_last() =~= Seq::<SimulationView>::empty());
            assert(one[0] == x);
            assert(total(one.drop_last()) == SimulationView::zero());
            assert(total(one) == SimulationView::zero().add(x));
            law_zero_is_identity(x);
        },
        Reduction::Join(left, right) => {
            let l = left.items();
            let m = right.items();
            assert forall|i: int| 0 <= i < l.len() implies (#[trigger] l[i]).well_formed()
                && l[i].divisor == d by {
                assert(l[i] == r.items()[i]);
            }
            assert forall|i: int| 0 <= i < m.len() implies (#[trigger] m[i]).well_formed()
                && m[i].divisor == d by {
                assert(m[i] == r.items()[l.len() + i]);
            }
            law_reduction_is_total(*left, d);
            law_reduction_is_total(*right, d);
            law_total_splits(l, m, d);
        },
    }
}

/// The mathematical content of each aggregate of a list.
pub open spec fn views(items: Seq<Simulation>) -> Seq<SimulationView> {
    items.map_values(|s: Simulation| s@)
}

/// The aggregates of `items` share one divisor, and their total can be held in
/// a `Simulation`.
pub open spec fn summable(items: Seq<SimulationView>) -> bool {
    &&& forall|i: int, j: int|
        0 <= i < items.len() && 0 <= j < items.len() ==> (#[trigger] items[i]).divisor == (
        #[trigger] items[j]).divisor
    &&& total(items).fits()
}

/// Whatever beginning of `items` is added up from left to right, the total
/// can be held in a `Simulation`.
pub open spec fn prefixes_fit(items: Seq<SimulationView>) -> bool {
    forall|k: int| 0 <= k <= items.len() ==> (#[trigger] total(items.take(k))).fits()
}

/// The total of `items` divided by their number.
pub open spec fn mean(items: Seq<SimulationView>) -> SimulationView {
    total(items).div(items.len() as int)
}

/// The total of a list over one divisor, no total of which exceeds `most`,
/// has no total that exceeds `most` for each aggregate of the list.
pub proof fn lemma_total_within(items: Seq<SimulationView>, d: int, most: int)
    requires
        all_over(items, d),
        forall|i: int| 0 <= i < items.len() ==> (#[trigger] items[i]).within(most),
    ensures
        total(items).well_formed(),
        total(items).within(items.len() * most),
        total(items).divisor == if items.len() > 0 { d } else { 1 },
        items.len() == 0 ==> total(items) == SimulationView::zero(),
    decreases items.len(),
{
    if items.len() > 0 {
        let front = items.drop_last();
        lemma_total_within(front, d, most);
        lemma_add_within(total(front), front.len() * most, items.last(), most);
        assert(front.len() * most + most == items.len() * most) by (nonlinear_arith)
            requires
                front.len() + 1 == items.len(),
        ;
    }
}

/// What the beginning of a list adds up to fits wherever the total of the
/// whole list fits, if the list is over one divisor and holds no negative
/// total.
pub proof fn lemma_prefix_total_fits(items: Seq<SimulationView>, d: int, k: int)
    requires
        all_over(items, d),
        forall|i: int| 0 <= i < items.len() ==> (#[trigger] items[i]).fits(),
        total(items).fits(),
        0 <= k <= items.len(),
    ensures
        total(items.take(k)).fits(),
        all_over(items.take(k), d),
    decreases items.len() - k,
{
    let front = items.take(k);
    assert(all_over(front, d)) by {
        assert forall|i: int| 0 <= i < front.len() implies (#[trigger] front[i]).well_formed()
            && front[i].divisor == d by {
            assert(front[i] == items[i]);
        }
    }
    if k == items.len() {
        assert(front =~= items);
    } else {
        let next = items.take(k + 1);
        lemma_prefix_total_fits(items, d, k + 1);
        assert(next.drop_last() =~= front);
        assert(next.last() == items[k]);
        let a = total(front);
        let b = items[k];
        assert forall|i: int| 0 <= i < front.len() implies (#[trigger] front[i]).within(
            u64::MAX as int,
        ) by {
            assert(front[i] == items[i]);
        }
        lemma_total_within(front, d, u64::MAX as int);
        let sum = a.add(b);
        assert(sum == total(next));
        assert(0 * b.divisor == 0);
        assert(sum.orthogonal_steps.len() == a.orthogonal_steps.len());
        assert(all_within(a.orthogonal_steps, u64::MAX as int)) by {
            assert forall|i: int| 0 <= i < a.orthogonal_steps.len() implies 0
                <= #[trigger] a.orthogonal_steps[i] <= u64::MAX by {
                assert(0 <= b.orthogonal_steps[i]);
                assert(sum.orthogonal_steps[i] <= u64::MAX);
            }
        }
        assert(all_within(a.diagonal_steps, u64::MAX as int)) by {
            assert forall|i: int| 0 <= i < a.diagonal_steps.len() implies 0
                <= #[trigger] a.diagonal_steps[i] <= u64::MAX by {
                assert(0 <= b.diagonal_steps[i]);
                assert(sum.diagonal_steps[i] <= u64::MAX);
            }
        }
        assert(all_within(a.orthogonal_jumps, u64::MAX as int)) by {
            assert forall|i: int| 0 <= i < a.orthogonal_jumps.len() implies 0
                <= #[trigger] a.orthogonal_jumps[i] <= u64::MAX by {
                assert(0 <= b.orthogonal_jumps[i]);
                assert(sum.orthogonal_jumps[i] <= u64::MAX);
            }
        }
        assert(all_within(a.diagonal_jumps, u64::MAX as int)) by {
            assert forall|i: int| 0 <= i < a.diagonal_jumps.len() implies 0
                <= #[trigger] a.diagonal_jumps[i] <= u64::MAX by {
                assert(0 <= b.diagonal_jumps[i]);
                assert(sum.diagonal_jumps[i] <= u64::MAX);
            }
        }
    }
}

/// Where a list may be added up on several threads, it may be added up from
/// left to right, and the aggregate of nothing may be added to any aggregate.
pub proof fn law_parallel_sum_allows_sequential(items: Seq<Simulation>)
    requires
        summable(views(items)),
    ensures
        prefixes_fit(views(items)),
{
    let all = views(items);
    let d = if all.len() > 0 {
        all[0].divisor
    } else {
        1
    };
    assert(all_over(all, d)) by {
        assert forall|i: int| 0 <= i < all.len() implies (#[trigger] all[i]).well_formed()
            && all[i].divisor == d by {
            assert(all[i].divisor == all[0].divisor);
        }
    }
    assert forall|i: int| 0 <= i < all.len() implies (#[trigger] all[i]).fits() by {
        assert(all[i] == items[i]@);
    }
    assert forall|k: int| 0 <= k <= all.len() implies (#[trigger] total(all.take(k))).fits() by {
        lemma_prefix_total_fits(all, d, k);
    }
}

/// The aggregate of nothing can be added to every aggregate, on either side.
pub proof fn law_nothing_can_always_be_added(x: Simulation)
    ensures
        SimulationView::zero().add(x@).fits(),
        x@.add(SimulationView::zero()).fits(),
{
    law_zero_is_identity(x@);
}

/// Adds up the aggregates of `items` from left to right.
pub fn sum_sequential(items: &Vec<Simulation>) -> (sum: Simulation)
    requires
        prefixes_fit(views(items@)),
    ensures
        sum@ == total(views(items@)),
{
    let ghost all = views(items@);
    let mut sum = Simulation::new();
    let mut k: usize = 0;
    proof {
        assert(all.take(0).len() == 0);
    }
    while k < items.len()
        invariant
            0 <= k <= items.len(),
            all == views(items@),
            prefixes_fit(all),
            sum@ == total(all.take(k as int)),
        decreases items.len() - k,
    {
        let item = items[k];
        proof {
            let next = all.take(k + 1);
            assert(next.drop_last() =~= all.take(k as int));
            assert(next.last() == item@);
            assert(total(next).fits());
        }
        sum = sum.add(item);
        k = k + 1;
    }
    assert(all.take(k as int) =~= all);
    sum
}

/// The mean of the aggregates of `items`: their total from left to right,
/// divided once by their number.
pub fn mean_sequential(items: &Vec<Simulation>) -> (average: Simulation)
    requires
        prefixes_fit(views(items@)),
        total(views(items@)).divisor * items@.len() <= u64::MAX,
    ensures
        average@ == mean(views(items@)),
{
    sum_sequential(items).div(items.len() as u64)
}

/// Calls `rayon`'s parallel `reduce` on the aggregates of `items`, with
/// `Simulation::new` for the identity and `Simulation::add` for the operation.
/// `reduce` joins neighbours in some grouping that is not specified and may
/// put the identity in anywhere. For a list over one divisor every such
/// reduction arrives at the total from left to right (see
/// `law_reduction_is_total`), and what it adds up on the way is part of a
/// total that fits, so the additions meet their precondition.
#[verifier::external_body]
fn par_reduce(items: &Vec<Simulation>) -> (sum: Simulation)
    requires
        summable(views(items@)),
    ensures
        sum@ == total(views(items@)),
{
    items.par_iter().copied().reduce(Simulation::new, Simulation::add)
}

/// Adds up the aggregates of `items` on several threads, in whatever grouping
/// the threads arrive at.
pub fn sum_parallel(items: &Vec<Simulation>) -> (sum: Simulation)
    requires
        summable(views(items@)),
    ensures
        sum@ == total(views(items@)),
{
    par_reduce(items)
}

/// The mean of the aggregates of `items`: their total, added up on several
/// threads in whatever grouping the threads arrive at, divided once by their
/// number.
pub fn mean_parallel(items: &Vec<Simulation>) -> (average: Simulation)
    requires
        summable(views(items@)),
        total(views(items@)).divisor * items@.len() <= u64::MAX,
    ensures
        average@ == mean(views(items@)),
{
    sum_parallel(items).div(items.len() as u64)
}

} // verus!
