//! The policies that pick the next action from a row of estimates.

use crate::action::Action;
use crate::binary64::{
    in_unit_interval, lemma_one_encodes_one, lemma_rank_orders, less, less_than, rank, rank_of,
    units, ONE_BITS,
};
use crate::state::State;
use crate::table::{is_best, last_best, lemma_last_best, row_ok, QTable, Strategy};
use crate::value::QValue;
use vstd::prelude::*;

verus! {

/// Draws an index below `bound` from the generator of the calling thread.
///
/// The body calls `rand::Rng::random_range` on `rand::rng()` with the range
/// `0..bound`. That call panics on an empty range, which `bound > 0` rules out,
/// and returns a member of the range; nothing more is claimed of it. The
/// generator seeds itself from the operating system when a thread first uses
/// it, and gives up with a panic if the system has no entropy to offer.
#[verifier::external_body]
fn random_index(bound: usize) -> (index: usize)
    requires
        bound > 0,
    ensures
        index < bound,
{
    rand::Rng::random_range(&mut rand::rng(), 0..bound)
}

/// Picks among the actions whose estimate is the largest of the row, each with
/// the same chance.
pub struct MostQValue;

impl MostQValue {
    /// The actions of `state` whose estimate none exceeds, in ascending order:
    /// every one of them, and no other.
    pub fn candidates(qtable: &QTable, state: State) -> (found: Vec<Action>)
        requires
            state.valid_on(qtable),
            qtable@.config.action_size > 0,
        ensures
            found@.len() > 0,
            forall|k: int|
                0 <= k < found@.len() ==> is_best(
                    qtable@.row(state@ as int),
                    (#[trigger] found@[k])@ as int,
                ),
            forall|k: int, l: int| 0 <= k < l < found@.len() ==> found@[k]@ < found@[l]@,
            forall|a: int|
                is_best(qtable@.row(state@ as int), a) ==> exists|k: int|
                    0 <= k < found@.len() && (#[trigger] found@[k])@ == a,
    {
        proof {
            use_type_invariant(qtable);
        }
        let row = qtable.row(state);
        let ghost cells = qtable@.row(state@ as int);
        let values: &[QValue] = core::ops::Deref::deref(row);
        let top: i128 = rank_of(row.max().bits());
        proof {
            lemma_last_best(cells);
        }
        let ghost last = last_best(cells);
        let mut found: Vec<Action> = Vec::new();
        let mut a: usize = 0;
        while a < values.len()
            invariant
                a <= values@.len(),
                values@.len() == cells.len(),
                cells.len() == qtable@.config.action_size,
                forall|j: int| 0 <= j < values@.len() ==> (#[trigger] values@[j])@ == cells[j],
                is_best(cells, last),
                top == rank(cells[last]),
                forall|k: int|
                    0 <= k < found@.len() ==> is_best(cells, (#[trigger] found@[k])@ as int),
                forall|k: int| 0 <= k < found@.len() ==> (#[trigger] found@[k])@ < a,
                forall|k: int, l: int| 0 <= k < l < found@.len() ==> found@[k]@ < found@[l]@,
                forall|b: int|
                    0 <= b < a && is_best(cells, b) ==> exists|k: int|
                        0 <= k < found@.len() && (#[trigger] found@[k])@ == b,
                a > last ==> found@.len() > 0,
            decreases values@.len() - a,
        {
            proof {
                lemma_rank_orders(cells[a as int], cells[last]);
            }
            if rank_of(values[a].bits()) == top {
                let action = Action::new_on(qtable, a).unwrap();
                let ghost before = found@;
                found.push(action);
                proof {
                    assert(is_best(cells, a as int)) by {
                        assert forall|j: int| 0 <= j < cells.len() implies units(
                            #[trigger] cells[j],
                        ) <= units(cells[a as int]) by {
                            assert(units(cells[j]) <= units(cells[last]));
                        }
                    }
                    assert(found@[before.len() as int]@ == a);
                    assert forall|b: int| 0 <= b < a + 1 && is_best(cells, b) implies exists|
                        k: int,
                    |
                        0 <= k < found@.len() && (#[trigger] found@[k])@ == b by {
                        if b < a {
                            let k = choose|k: int|
                                0 <= k < before.len() && (#[trigger] before[k])@ == b;
                            assert(found@[k]@ == b);
                        } else {
                            assert(found@[before.len() as int]@ == b);
                        }
                    }
                }
            } else {
                proof {
                    assert(!is_best(cells, a as int)) by {
                        if is_best(cells, a as int) {
                            assert(units(cells[last]) <= units(cells[a as int]));
                            assert(units(cells[a as int]) <= units(cells[last]));
                        }
                    }
                }
            }
            a += 1;
        }
        found
    }
}

impl Strategy for MostQValue {
    /// Picks one of [`MostQValue::candidates`] by a uniform draw.
    fn determine(qtable: &QTable, state: State) -> (action: Action)
        ensures
            is_best(qtable@.row(state@ as int), action@ as int),
    {
        let found = Self::candidates(qtable, state);
        let pick: usize = random_index(found.len());
        proof {
            use_type_invariant(qtable);
            assert(row_ok(qtable@.config, qtable@.cells[state@ as int]));
        }
        found[pick]
    }
}

/// Picks any action, each with the same chance, whatever the estimates.
pub struct Random;

impl Strategy for Random {
    fn determine(qtable: &QTable, _state: State) -> (action: Action) {
        let pick: usize = random_index(qtable.action_size());
        Action::new_on(qtable, pick).unwrap()
    }
}

/// Explores as [`Random`] does when a draw from the unit interval falls below
/// the exploration rate of the table, and otherwise exploits as [`MostQValue`]
/// does.
pub struct EpsilonGreedy;

impl EpsilonGreedy {
    /// Whether `draw`, a binary64 pattern, is a number strictly below the
    /// exploration rate of `qtable`.
    pub fn explores(qtable: &QTable, draw: u64) -> (explore: bool)
        ensures
            explore == less(draw, qtable@.config.epsilon),
    {
        less_than(draw, qtable.epsilon())
    }

    /// Picks as [`Random`] does when `draw` explores, and as [`MostQValue`] does
    /// when it does not.
    pub fn determine_with(qtable: &QTable, state: State, draw: u64) -> (action: Action)
        requires
            state.valid_on(qtable),
            qtable@.config.action_size > 0,
        ensures
            action.valid_on(qtable),
            less(draw, qtable@.config.epsilon) ==> call_ensures(
                Random::determine,
                (qtable, state),
                action,
            ),
            !less(draw, qtable@.config.epsilon) ==> call_ensures(
                MostQValue::determine,
                (qtable, state),
                action,
            ),
            !less(draw, qtable@.config.epsilon) ==> is_best(
                qtable@.row(state@ as int),
                action@ as int,
            ),
    {
        if Self::explores(qtable, draw) {
            Random::determine(qtable, state)
        } else {
            MostQValue::determine(qtable, state)
        }
    }
}

/// A draw from the unit interval is a number below one and not below zero: with
/// an exploration rate of one every draw explores, and with a rate of zero none
/// does.
pub proof fn lemma_extreme_rates(draw: u64)
    requires
        in_unit_interval(draw),
    ensures
        less(draw, ONE_BITS),
        !less(draw, 0),
{
    lemma_one_encodes_one();
}

/// In a row whose estimates are all equal, every action is one that none
/// exceeds.
pub proof fn lemma_level_row(row: Seq<u64>, a: int)
    requires
        0 <= a < row.len(),
        forall|i: int, j: int|
            0 <= i < row.len() && 0 <= j < row.len() ==> units(row[i]) == units(row[j]),
    ensures
        is_best(row, a),
{
}

} // verus!
