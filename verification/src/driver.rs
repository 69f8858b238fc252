//! The Monte Carlo driver: boards filled at random, scanned and averaged.
//!
//! A trial fills a fresh board and scans it. Whether a trial comes about is
//! left to the random source: a placement that keeps drawing occupied cells
//! gives up, and the trial with it.

use vstd::prelude::*;
use rand::rngs::StdRng;
use rayon::iter::ParallelIterator;
use crate::combine::{all_over, lemma_total_within, mean, mean_parallel, total, views};
use crate::grid::{Grid, Square, BOARD_CELLS};
use crate::populate::{count_of, draw_counts, SIDE_MAX};
use crate::random::fresh_rng;
use crate::scan::{board_view, lemma_board_view_bounds, scan, BOARD_MAX, SCAN_DIVISOR};
use crate::simulation::{lemma_add_within, lemma_within_grows, Simulation, SimulationView};

verus! {

/// Most trials that one run may average: the totals of so many boards can
/// still be held in a `Simulation`.
pub const MAX_TRIALS: u64 = 1_000_000_000_000;

/// `g` is a board as a trial fills it: at least one friendly piece, at least
/// two opponents, and of neither more than a side may have.
pub open spec fn trial_board(g: Seq<Square>) -> bool {
    &&& g.len() == BOARD_CELLS
    &&& 1 <= count_of(g, Square::Friendly) < SIDE_MAX
    &&& 2 <= count_of(g, Square::Opponent) <= SIDE_MAX
}

/// `v` is the scan of a board as a trial fills it.
pub open spec fn is_trial(v: SimulationView) -> bool {
    exists|g: Seq<Square>| trial_board(g) && v == #[trigger] board_view(g)
}

/// Every aggregate of `items` is the scan of a board as a trial fills it.
pub open spec fn all_trials(items: Seq<SimulationView>) -> bool {
    forall|i: int| 0 <= i < items.len() ==> is_trial(#[trigger] items[i])
}

/// `v` is the mean of the scans of `n` boards as trials fill them.
pub open spec fn is_mean_of_trials(v: SimulationView, n: int) -> bool {
    exists|items: Seq<SimulationView>|
        items.len() == n && all_trials(items) && v == #[trigger] mean(items)
}

/// The mean of no trials is nothing over the divisor nothing.
pub proof fn law_mean_of_nothing(v: SimulationView)
    ensures
        is_mean_of_trials(v, 0) <==> v == SimulationView::zero().div(0),
{
    let none = Seq::<SimulationView>::empty();
    assert(mean(none) == SimulationView::zero().div(0));
    if is_mean_of_trials(v, 0) {
        let items = choose|items: Seq<SimulationView>|
            items.len() == 0 && all_trials(items) && v == #[trigger] mean(items);
        assert(items =~= none);
    }
    if v == SimulationView::zero().div(0) {
        assert(none.len() == 0 && all_trials(none) && v == mean(none));
    }
}

/// The scan of a trial's board is a well-formed aggregate in quarters, no
/// total of which exceeds `BOARD_MAX`.
pub proof fn lemma_trial_bounds(v: SimulationView)
    requires
        is_trial(v),
    ensures
        v.well_formed(),
        v.divisor == SCAN_DIVISOR,
        v.within(BOARD_MAX as int),
{
    let g = choose|g: Seq<Square>| trial_board(g) && v == #[trigger] board_view(g);
    lemma_board_view_bounds(g);
}

/// The scans of trials are over one divisor, and their total has no total
/// that exceeds `BOARD_MAX` for each of them.
pub proof fn lemma_trials_total(items: Seq<SimulationView>)
    requires
        all_trials(items),
    ensures
        all_over(items, SCAN_DIVISOR as int),
        total(items).well_formed(),
        total(items).within(items.len() * BOARD_MAX),
        total(items).divisor == if items.len() > 0 { 4int } else { 1int },
{
    assert forall|i: int| 0 <= i < items.len() implies (#[trigger] items[i]).well_formed()
        && items[i].divisor == SCAN_DIVISOR && items[i].within(BOARD_MAX as int) by {
        lemma_trial_bounds(items[i]);
    }
    lemma_total_within(items, SCAN_DIVISOR as int, BOARD_MAX as int);
}

impl Grid {
    /// An empty board filled as a trial fills it: with as many friendly pieces
    /// and opponents as `draw_counts` draws, each on a cell of its own.
    pub fn random(rng: &mut StdRng) -> (board: Option<Grid>)
        ensures
            board matches Some(grid) ==> trial_board(grid@),
    {
        let mut grid = Grid::new();
        proof {
            broadcast use vstd::seq_lib::to_multiset_contains;

            grid.lemma_len();
            assert(!grid@.contains(Square::Friendly));
            assert(!grid@.contains(Square::Opponent));
        }
        let (friendly, opponents) = draw_counts(rng);
        if grid.populate(rng, friendly, opponents) {
            proof {
                grid.lemma_len();
            }
            Some(grid)
        } else {
            None
        }
    }
}

/// One trial with the random source given: fills a fresh board and scans it.
pub fn simulate_with(rng: &mut StdRng) -> (trial: Option<Simulation>)
    ensures
        trial matches Some(s) ==> is_trial(s@),
{
    match Grid::random(rng) {
        Some(grid) => Some(scan(&grid)),
        None => None,
    }
}

/// One trial with a random source of its own. Comes to nothing if no random
/// source is to be had, or if the trial does.
pub fn simulate() -> (trial: Option<Simulation>)
    ensures
        trial matches Some(s) ==> is_trial(s@),
{
    match fresh_rng() {
        Some(mut rng) => simulate_with(&mut rng),
        None => None,
    }
}

/// The mean of `n` trials that are run one after another, on one random
/// source. Comes to nothing if there are trials to run and no random source
/// is to be had, or if one of the trials does.
pub fn simulate_n(n: usize) -> (average: Option<Simulation>)
    requires
        n <= MAX_TRIALS,
    ensures
        average matches Some(s) ==> is_mean_of_trials(s@, n as int),
        n == 0 ==> average is Some,
{
    let mut sum = Simulation::new();
    let ghost mut done: Seq<SimulationView> = Seq::empty();
    if n == 0 {
        let average = sum.div(0);
        assert(average@ == mean(done));
        return Some(average);
    }
    let mut rng = match fresh_rng() {
        Some(rng) => rng,
        None => {
            return None;
        },
    };
    let mut i: usize = 0;
    while i < n
        invariant
            0 <= i <= n <= MAX_TRIALS,
            done.len() == i,
            all_trials(done),
            sum@ == total(done),
        decreases n - i,
    {
        match simulate_with(&mut rng) {
            None => {
                return None;
            },
            Some(trial) => {
                proof {
                    lemma_trials_total(done);
                    lemma_trial_bounds(trial@);
                    lemma_add_within(sum@, i * BOARD_MAX, trial@, BOARD_MAX as int);
                    lemma_within_grows(
                        sum@.add(trial@),
                        i * BOARD_MAX + BOARD_MAX,
                        u64::MAX as int,
                    );
                    let next = done.push(trial@);
                    assert(next.drop_last() =~= done);
                    assert(all_trials(next)) by {
                        assert forall|j: int| 0 <= j < next.len() implies is_trial(
                            #[trigger] next[j],
                        ) by {
                            if j < done.len() {
                                assert(next[j] == done[j]);
                            }
                        }
                    }
                    done = next;
                }
                sum = sum.add(trial);
                i = i + 1;
            },
        }
    }
    proof {
        lemma_trials_total(done);
    }
    let average = sum.div(n as u64);
    assert(average@ == mean(done));
    Some(average)
}

/// Calls `rayon`'s `repeat_n`, `map` and `collect` to run `n` trials on
/// several threads, each through `simulate`, and to hand back what each came
/// to. It is taken for granted that `rayon` calls `simulate` once for each of
/// the `n` items and collects the `n` results, so that each is one that
/// `simulate` can give.
#[verifier::external_body]
fn par_trials(n: usize) -> (trials: Vec<Option<Simulation>>)
    ensures
        trials@.len() == n,
        forall|i: int| 0 <= i < n ==> (#[trigger] trials@[i] matches Some(s) ==> is_trial(s@)),
{
    rayon::iter::repeat_n((), n).map(|()| simulate()).collect()
}

/// The trials of `results` in their order, if each of them came about.
pub fn gather(results: &Vec<Option<Simulation>>) -> (trials: Option<Vec<Simulation>>)
    ensures
        trials is Some <==> forall|i: int| 0 <= i < results@.len() ==> #[trigger] results@[i] is Some,
        trials matches Some(v) ==> v@.len() == results@.len() && forall|i: int|
            0 <= i < v@.len() ==> results@[i] == Some(#[trigger] v@[i]),
{
    let mut trials: Vec<Simulation> = Vec::new();
    let mut i: usize = 0;
    while i < results.len()
        invariant
            0 <= i <= results@.len(),
            trials@.len() == i,
            forall|j: int| 0 <= j < i ==> results@[j] == Some(#[trigger] trials@[j]),
        decreases results@.len() - i,
    {
        match results[i] {
            Some(trial) => {
                trials.push(trial);
            },
            None => {
                assert(!(results@[i as int] is Some));
                return None;
            },
        }
        i = i + 1;
    }
    assert forall|j: int| 0 <= j < results@.len() implies #[trigger] results@[j] is Some by {
        assert(results@[j] == Some(trials@[j]));
    }
    Some(trials)
}

/// The mean of `n` trials that are run on several threads and added up in
/// whatever grouping the threads arrive at. Comes to nothing if one of the
/// trials does.
pub fn simulate_n_par(n: usize) -> (average: Option<Simulation>)
    requires
        n <= MAX_TRIALS,
    ensures
        average matches Some(s) ==> is_mean_of_trials(s@, n as int),
        n == 0 ==> average is Some,
{
    let results = par_trials(n);
    match gather(&results) {
        None => None,
        Some(trials) => {
            let ghost done = views(trials@);
            proof {
                assert(all_trials(done)) by {
                    assert forall|j: int| 0 <= j < done.len() implies is_trial(
                        #[trigger] done[j],
                    ) by {
                        assert(results@[j] == Some(trials@[j]));
                    }
                }
                lemma_trials_total(done);
                lemma_within_grows(total(done), done.len() * BOARD_MAX, u64::MAX as int);
            }
            assert(done.len() == n);
            Some(mean_parallel(&trials))
        },
    }
}

} // verus!
