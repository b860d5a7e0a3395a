//! The table of estimates, its configuration and its rows.

use crate::action::Action;
use crate::binary64::{lemma_rank_orders, one_in_units, rank_of, units, FRACTION_SPAN};
use crate::state::State;
use crate::value::{in_range, QValue, QValueError};
use vstd::arithmetic::power2::{lemma2_to64_rest, lemma_pow2_adds, pow2};
use vstd::prelude::*;

pub mod strategy;

verus! {

/// The dimensions of a table and the three scalars of its learning rule, each
/// scalar held as a binary64 pattern. No scalar is range-checked.
#[derive(Clone, Copy, Debug, PartialEq, Eq, Structural)]
pub struct QConfig {
    /// Number of states, the rows of the grid.
    pub state_size: usize,
    /// Number of actions, the columns of the grid.
    pub action_size: usize,
    /// Discount factor.
    pub gamma: u64,
    /// Learning rate.
    pub alpha: u64,
    /// Exploration rate.
    pub epsilon: u64,
}

impl QConfig {
    /// The configuration that [`QConfig::default`] gives: fourteen states and
    /// fourteen actions, a discount of 0.99, and a learning rate and an
    /// exploration rate of one half.
    pub open spec fn standard() -> QConfig {
        QConfig {
            state_size: 14,
            action_size: 14,
            gamma: 0x3FEF_AE14_7AE1_47AE,
            alpha: 0x3FE0_0000_0000_0000,
            epsilon: 0x3FE0_0000_0000_0000,
        }
    }
}

/// What the scalars of the default configuration encode: the learning rate and
/// the exploration rate are one half, and the discount is the binary64 nearest
/// to 99/100, which it misses by less than half the spacing, 2^-53, of the
/// binary64 numbers between one half and one.
pub proof fn lemma_standard_scalars()
    ensures
        2 * units(QConfig::standard().alpha) == one_in_units(),
        2 * units(QConfig::standard().epsilon) == one_in_units(),
        -50 * pow2(1021) <= 100 * units(QConfig::standard().gamma) - 99 * one_in_units() <= 50
            * pow2(1021),
{
    let p = FRACTION_SPAN as int;
    let half: u64 = 0x3FE0_0000_0000_0000;
    let gamma: u64 = 0x3FEF_AE14_7AE1_47AE;
    let k = pow2(1021) as int;
    lemma2_to64_rest();
    lemma_pow2_adds(53, 1021);
    assert(half as int / p == 1022 && half as int % p == 0);
    assert(gamma as int / p == 1022 && gamma as int % p == 0xF_AE14_7AE1_47AE);
    assert(units(half) == p * k);
    assert(units(gamma) == 0x1F_AE14_7AE1_47AE * k);
    assert(one_in_units() == 0x20_0000_0000_0000 * k);
    assert(2 * (p * k) == 0x20_0000_0000_0000 * k) by (nonlinear_arith)
        requires
            p == 0x10_0000_0000_0000,
    ;
    assert(100 * (0x1F_AE14_7AE1_47AE * k) - 99 * (0x20_0000_0000_0000 * k) == -8 * k)
        by (nonlinear_arith);
}

impl Default for QConfig {
    fn default() -> (config: Self)
        ensures
            config == QConfig::standard(),
    {
        QConfig {
            state_size: 14,
            action_size: 14,
            gamma: 0x3FEF_AE14_7AE1_47AE,
            alpha: 0x3FE0_0000_0000_0000,
            epsilon: 0x3FE0_0000_0000_0000,
        }
    }
}

/// The estimates of every action in one state.
#[derive(Debug)]
pub struct ActionQValuesForAState {
    values: Vec<QValue>,
}

impl View for ActionQValuesForAState {
    type V = Seq<u64>;

    /// The patterns of the row, by action index.
    closed spec fn view(&self) -> Seq<u64> {
        Seq::new(self.values@.len(), |a: int| self.values@[a]@)
    }
}

/// Whether `a` indexes an estimate of `row` that none exceeds.
pub open spec fn is_best(row: Seq<u64>, a: int) -> bool {
    &&& 0 <= a < row.len()
    &&& forall|j: int| 0 <= j < row.len() ==> units(#[trigger] row[j]) <= units(row[a])
}

/// Whether `a` indexes the last of the largest estimates of `row`.
pub open spec fn is_last_best(row: Seq<u64>, a: int) -> bool {
    &&& is_best(row, a)
    &&& forall|j: int| a < j < row.len() ==> units(#[trigger] row[j]) < units(row[a])
}

/// The index of the last of the largest estimates of a row that is not empty.
pub open spec fn last_best(row: Seq<u64>) -> int {
    choose|a: int| is_last_best(row, a)
}

/// A row that is not empty has exactly one last largest estimate.
pub proof fn lemma_last_best(row: Seq<u64>)
    requires
        row.len() > 0,
    ensures
        is_last_best(row, last_best(row)),
        forall|a: int| is_last_best(row, a) ==> a == last_best(row),
    decreases row.len(),
{
    if row.len() == 1 {
        assert(is_last_best(row, 0));
    } else {
        let front = row.drop_last();
        lemma_last_best(front);
        let b = last_best(front);
        let n = row.len() - 1;
        assert(forall|j: int| 0 <= j < n ==> front[j] == row[j]);
        if units(row[n]) >= units(row[b]) {
            assert forall|j: int| 0 <= j < row.len() implies units(#[trigger] row[j]) <= units(
                row[n],
            ) by {
                if j < n {
                    assert(units(front[j]) <= units(front[b]));
                }
            }
            assert(is_last_best(row, n));
        } else {
            assert forall|j: int| 0 <= j < row.len() implies units(#[trigger] row[j]) <= units(
                row[b],
            ) by {
                if j < n {
                    assert(units(front[j]) <= units(front[b]));
                }
            }
            assert forall|j: int| b < j < row.len() implies units(#[trigger] row[j]) < units(
                row[b],
            ) by {
                if j < n {
                    assert(units(front[j]) < units(front[b]));
                }
            }
            assert(is_last_best(row, b));
        }
    }
    let c = last_best(row);
    assert forall|a: int| is_last_best(row, a) implies a == c by {
        if a < c {
            assert(units(row[c]) < units(row[a]));
        } else if c < a {
            assert(units(row[a]) < units(row[c]));
        }
    }
}

impl ActionQValuesForAState {
    /// Builds the row that holds `row`, or gives the index of the first pattern
    /// outside the range of estimates.
    fn build(row: &Vec<u64>) -> (res: Result<Self, usize>)
        ensures
            match res {
                Ok(built) => {
                    &&& built@ == row@
                    &&& forall|a: int| 0 <= a < row@.len() ==> in_range(#[trigger] row@[a])
                },
                Err(action) => {
                    &&& action < row@.len()
                    &&& forall|a: int| 0 <= a < action ==> in_range(#[trigger] row@[a])
                    &&& !in_range(row@[action as int])
                },
            },
    {
        let mut values: Vec<QValue> = Vec::new();
        let mut a: usize = 0;
        while a < row.len()
            invariant
                a <= row@.len(),
                values@.len() == a,
                forall|k: int| 0 <= k < a ==> (#[trigger] values@[k])@ == row@[k],
                forall|k: int| 0 <= k < a ==> in_range(#[trigger] row@[k]),
            decreases row@.len() - a,
        {
            match QValue::new(row[a]) {
                Ok(v) => {
                    values.push(v);
                },
                Err(_) => {
                    return Err(a);
                },
            }
            a += 1;
        }
        let built = ActionQValuesForAState { values };
        assert(built@ =~= row@);
        Ok(built)
    }

    /// The patterns of the row, copied out in action order.
    pub fn bits(&self) -> (row: Vec<u64>)
        ensures
            row@ == self@,
    {
        let mut row: Vec<u64> = Vec::new();
        let mut a: usize = 0;
        while a < self.values.len()
            invariant
                a <= self.values@.len(),
                row@.len() == a,
                forall|k: int| 0 <= k < a ==> #[trigger] row@[k] == self.values@[k]@,
            decreases self.values@.len() - a,
        {
            row.push(self.values[a].bits());
            a += 1;
        }
        assert(row@ =~= self@);
        row
    }

    /// Number of actions.
    pub fn len(&self) -> (n: usize)
        ensures
            n == self@.len(),
    {
        self.values.len()
    }

    /// The largest estimate of a row that is not empty; among equal ones, the
    /// last.
    pub fn max(&self) -> (m: QValue)
        requires
            self@.len() > 0,
        ensures
            m@ == self@[last_best(self@)],
    {
        let n: usize = self.values.len();
        let mut best: usize = 0;
        let mut i: usize = 1;
        while i < n
            invariant
                n == self.values@.len(),
                n == self@.len(),
                0 <= best < i <= n,
                forall|j: int|
                    0 <= j < i ==> units(#[trigger] self@[j]) <= units(self@[best as int]),
                forall|j: int|
                    best < j < i ==> units(#[trigger] self@[j]) < units(self@[best as int]),
            decreases n - i,
        {
            proof {
                lemma_rank_orders(self@[i as int], self@[best as int]);
            }
            if rank_of(self.values[i].bits()) >= rank_of(self.values[best].bits()) {
                best = i;
            }
            i += 1;
        }
        proof {
            assert(is_last_best(self@, best as int));
            lemma_last_best(self@);
        }
        self.values[best]
    }
}

impl core::ops::Index<Action> for ActionQValuesForAState {
    type Output = QValue;

    /// The estimate of `action`.
    fn index(&self, action: Action) -> (v: &QValue)
        ensures
            v@ == self@[action@ as int],
    {
        &self.values[action.index()]
    }
}

impl vstd::std_specs::core::IndexSpecImpl<Action> for ActionQValuesForAState {
    open spec fn index_req(&self, action: &Action) -> bool {
        action@ < self@.len()
    }
}

impl core::ops::Deref for ActionQValuesForAState {
    type Target = [QValue];

    /// The estimates of the row in action order.
    fn deref(&self) -> (s: &[QValue])
        ensures
            s@.len() == self@.len(),
            forall|a: int| 0 <= a < s@.len() ==> (#[trigger] s@[a])@ == self@[a],
    {
        self.values.as_slice()
    }
}

/// A table as a value: its configuration and the patterns of its grid, by state
/// index and then by action index.
pub struct QTableView {
    pub config: QConfig,
    pub cells: Seq<Seq<u64>>,
}

impl QTableView {
    /// The patterns of the row of state `s`.
    pub open spec fn row(self, s: int) -> Seq<u64> {
        self.cells[s]
    }

    /// The pattern at state `s` and action `a`.
    pub open spec fn cell(self, s: int, a: int) -> u64 {
        self.cells[s][a]
    }

    /// The table that differs from this one in the cell at `s` and `a` alone,
    /// which holds `pattern`.
    pub open spec fn with_cell(self, s: int, a: int, pattern: u64) -> QTableView {
        QTableView { config: self.config, cells: self.cells.update(s, self.cells[s].update(a, pattern)) }
    }
}

/// Whether `cells` is a grid of the dimensions that `config` declares, filled
/// with patterns of the range of estimates.
pub open spec fn grid_ok(config: QConfig, cells: Seq<Seq<u64>>) -> bool {
    &&& cells.len() == config.state_size
    &&& forall|s: int| 0 <= s < cells.len() ==> row_ok(config, #[trigger] cells[s])
}

/// Whether `row` has one pattern of the range for each action.
pub open spec fn row_ok(config: QConfig, row: Seq<u64>) -> bool {
    &&& row.len() == config.action_size
    &&& forall|a: int| 0 <= a < row.len() ==> in_range(#[trigger] row[a])
}

/// The patterns that a sequence of rows holds.
pub open spec fn grid_of(rows: Seq<ActionQValuesForAState>) -> Seq<Seq<u64>> {
    Seq::new(rows.len(), |s: int| rows[s]@)
}

/// The patterns that a grid of vectors holds.
pub open spec fn patterns(cells: Seq<Vec<u64>>) -> Seq<Seq<u64>> {
    Seq::new(cells.len(), |s: int| cells[s]@)
}

/// Why a grid was refused for a configuration.
#[derive(Clone, Copy, Debug, PartialEq, Eq, Structural)]
pub enum TableError {
    /// The grid has `given` rows where the configuration declares `expected`.
    RowCount { given: usize, expected: usize },
    /// The row of `state` has `given` patterns where the configuration declares
    /// `expected`.
    RowLength { state: usize, given: usize, expected: usize },
    /// The pattern at `state` and `action` is outside the range of
    /// estimates.
    InvalidValue { state: usize, action: usize, pattern: u64 },
}

/// Whether `error` names the first fault of `cells` under `config`: a wrong
/// number of rows; else, in the first row that is not in order, a wrong length;
/// else the first pattern of that row outside the range.
pub open spec fn rejects(config: QConfig, cells: Seq<Seq<u64>>, error: TableError) -> bool {
    match error {
        TableError::RowCount { given, expected } => {
            &&& given == cells.len()
            &&& expected == config.state_size
            &&& given != expected
        },
        TableError::RowLength { state, given, expected } => {
            &&& cells.len() == config.state_size
            &&& state < cells.len()
            &&& forall|s: int| 0 <= s < state ==> row_ok(config, #[trigger] cells[s])
            &&& given == cells[state as int].len()
            &&& expected == config.action_size
            &&& given != expected
        },
        TableError::InvalidValue { state, action, pattern } => {
            &&& cells.len() == config.state_size
            &&& state < cells.len()
            &&& forall|s: int| 0 <= s < state ==> row_ok(config, #[trigger] cells[s])
            &&& cells[state as int].len() == config.action_size
            &&& action < config.action_size
            &&& forall|a: int| 0 <= a < action ==> in_range(#[trigger] cells[state as int][a])
            &&& pattern == cells[state as int][action as int]
            &&& !in_range(pattern)
        },
    }
}

/// A grid of estimates with its configuration.
#[derive(Debug)]
pub struct QTable {
    qvalues: Vec<ActionQValuesForAState>,
    config: QConfig,
}

impl View for QTable {
    type V = QTableView;

    closed spec fn view(&self) -> QTableView {
        QTableView {
            config: self.config,
            cells: grid_of(self.qvalues@),
        }
    }
}

impl QTable {
    /// The grid always has the declared dimensions and holds estimates only.
    #[verifier::type_invariant]
    pub open spec fn wf(&self) -> bool {
        grid_ok(self@.config, self@.cells)
    }

    /// Builds the table of `config` over `cells` exactly when `cells` has the
    /// declared dimensions and holds patterns of the range only; otherwise names
    /// the first fault.
    pub fn new_with(config: QConfig, cells: Vec<Vec<u64>>) -> (res: Result<Self, TableError>)
        ensures
            res is Ok <==> grid_ok(config, patterns(cells@)),
            match res {
                Ok(table) => table@ == (QTableView { config, cells: patterns(cells@) }),
                Err(error) => rejects(config, patterns(cells@), error),
            },
    {
        let ghost grid = patterns(cells@);
        if cells.len() != config.state_size {
            return Err(TableError::RowCount { given: cells.len(), expected: config.state_size });
        }
        let mut qvalues: Vec<ActionQValuesForAState> = Vec::new();
        let mut s: usize = 0;
        while s < cells.len()
            invariant
                grid == patterns(cells@),
                cells@.len() == config.state_size,
                s <= cells@.len(),
                qvalues@.len() == s,
                forall|k: int| 0 <= k < s ==> (#[trigger] qvalues@[k])@ == grid[k],
                forall|k: int| 0 <= k < s ==> row_ok(config, #[trigger] grid[k]),
            decreases cells@.len() - s,
        {
            let row: &Vec<u64> = &cells[s];
            assert(grid[s as int] == row@);
            if row.len() != config.action_size {
                let error = TableError::RowLength {
                    state: s,
                    given: row.len(),
                    expected: config.action_size,
                };
                assert(rejects(config, grid, error));
                assert(!row_ok(config, grid[s as int]));
                return Err(error);
            }
            match ActionQValuesForAState::build(row) {
                Ok(built) => {
                    qvalues.push(built);
                },
                Err(action) => {
                    let error = TableError::InvalidValue { state: s, action, pattern: row[action] };
                    assert(rejects(config, grid, error));
                    assert(!row_ok(config, grid[s as int]));
                    return Err(error);
                },
            }
            s += 1;
        }
        let table = QTable { qvalues, config };
        assert(table@.cells =~= grid);
        Ok(table)
    }

    /// Builds the table of the default configuration over `cells`, as
    /// [`QTable::new_with`] does.
    pub fn new(cells: Vec<Vec<u64>>) -> (res: Result<Self, TableError>)
        ensures
            res is Ok <==> grid_ok(QConfig::standard(), patterns(cells@)),
            match res {
                Ok(table) => table@ == (QTableView {
                    config: QConfig::standard(),
                    cells: patterns(cells@),
                }),
                Err(error) => rejects(QConfig::standard(), patterns(cells@), error),
            },
    {
        Self::new_with(QConfig::default(), cells)
    }

    /// The configuration as it stands.
    pub fn config(&self) -> (config: QConfig)
        ensures
            config == self@.config,
    {
        self.config
    }

    /// The patterns of the whole grid, copied out by state and then by action.
    pub fn cells(&self) -> (cells: Vec<Vec<u64>>)
        ensures
            patterns(cells@) == self@.cells,
    {
        let mut cells: Vec<Vec<u64>> = Vec::new();
        let mut s: usize = 0;
        while s < self.qvalues.len()
            invariant
                s <= self.qvalues@.len(),
                cells@.len() == s,
                forall|k: int| 0 <= k < s ==> (#[trigger] cells@[k])@ == self.qvalues@[k]@,
            decreases self.qvalues@.len() - s,
        {
            cells.push(self.qvalues[s].bits());
            s += 1;
        }
        assert(patterns(cells@) =~= self@.cells);
        cells
    }

    /// Number of states.
    pub fn state_size(&self) -> (n: usize)
        ensures
            n == self@.config.state_size,
    {
        self.config.state_size
    }

    /// Number of actions.
    pub fn action_size(&self) -> (n: usize)
        ensures
            n == self@.config.action_size,
    {
        self.config.action_size
    }

    /// The discount factor, as a binary64 pattern.
    pub fn gamma(&self) -> (bits: u64)
        ensures
            bits == self@.config.gamma,
    {
        self.config.gamma
    }

    /// The learning rate, as a binary64 pattern.
    pub fn alpha(&self) -> (bits: u64)
        ensures
            bits == self@.config.alpha,
    {
        self.config.alpha
    }

    /// The exploration rate, as a binary64 pattern.
    pub fn epsilon(&self) -> (bits: u64)
        ensures
            bits == self@.config.epsilon,
    {
        self.config.epsilon
    }

    /// Replaces the learning rate by `decayed`, the product of the rate and the
    /// caller's decay factor as a binary64 pattern. Nothing else changes.
    pub fn decay_alpha_with_rate(&mut self, decayed: u64)
        ensures
            final(self)@ == (QTableView {
                config: QConfig { alpha: decayed, ..old(self)@.config },
                cells: old(self)@.cells,
            }),
    {
        proof {
            use_type_invariant(&*self);
        }
        self.config.alpha = decayed;
    }

    /// Replaces the exploration rate by `decayed`, the product of the rate and
    /// the caller's decay factor as a binary64 pattern. Nothing else changes.
    pub fn decay_epsilon_with_rate(&mut self, decayed: u64)
        ensures
            final(self)@ == (QTableView {
                config: QConfig { epsilon: decayed, ..old(self)@.config },
                cells: old(self)@.cells,
            }),
    {
        proof {
            use_type_invariant(&*self);
        }
        self.config.epsilon = decayed;
    }

    /// The handle of state `index`, if the table has that state.
    pub fn pick_state(&self, index: usize) -> (picked: Option<State>)
        ensures
            index < self@.config.state_size ==> (picked matches Some(s) && s@ == index),
            index >= self@.config.state_size ==> picked is None,
    {
        match State::new_on(self, index) {
            Ok(state) => Some(state),
            Err(_) => None,
        }
    }

    /// The handle of action `index`, if the table has that action.
    pub fn pick_action(&self, index: usize) -> (picked: Option<Action>)
        ensures
            index < self@.config.action_size ==> (picked matches Some(a) && a@ == index),
            index >= self@.config.action_size ==> picked is None,
    {
        match Action::new_on(self, index) {
            Ok(action) => Some(action),
            Err(_) => None,
        }
    }

    /// The handles of all states, in ascending order of index.
    pub fn states(&self) -> (all: Vec<State>)
        ensures
            State::enumerates(all@, self@.config.state_size),
    {
        let mut all: Vec<State> = Vec::new();
        let mut i: usize = 0;
        while i < self.state_size()
            invariant
                i <= self@.config.state_size,
                all@.len() == i,
                forall|k: int| 0 <= k < i ==> (#[trigger] all@[k])@ == k,
            decreases self@.config.state_size - i,
        {
            all.push(State::new_on(self, i).unwrap());
            i += 1;
        }
        all
    }

    /// The handles of all actions, in ascending order of index.
    pub fn actions(&self) -> (all: Vec<Action>)
        ensures
            Action::enumerates(all@, self@.config.action_size),
    {
        let mut all: Vec<Action> = Vec::new();
        let mut i: usize = 0;
        while i < self.action_size()
            invariant
                i <= self@.config.action_size,
                all@.len() == i,
                forall|k: int| 0 <= k < i ==> (#[trigger] all@[k])@ == k,
            decreases self@.config.action_size - i,
        {
            all.push(Action::new_on(self, i).unwrap());
            i += 1;
        }
        all
    }

    /// The estimates of every action in `state`.
    pub fn row(&self, state: State) -> (row: &ActionQValuesForAState)
        requires
            state.valid_on(self),
        ensures
            row@ == self@.row(state@ as int),
    {
        proof {
            use_type_invariant(self);
        }
        &self.qvalues[state.index()]
    }

    /// The estimate of `action` in `state`: what the row of `state` holds for
    /// `action`.
    pub fn cell(&self, state: State, action: Action) -> (v: QValue)
        requires
            state.valid_on(self),
            action.valid_on(self),
        ensures
            v@ == self@.cell(state@ as int, action@ as int),
            v@ == self@.row(state@ as int)[action@ as int],
    {
        proof {
            use_type_invariant(self);
            assert(row_ok(self@.config, self@.cells[state@ as int]));
        }
        self.qvalues[state.index()][action]
    }
}

impl core::ops::Index<State> for QTable {
    type Output = ActionQValuesForAState;

    /// The estimates of every action in `state`, as [`QTable::row`] gives them.
    fn index(&self, state: State) -> (row: &ActionQValuesForAState)
        ensures
            row@ == self@.row(state@ as int),
    {
        self.row(state)
    }
}

impl vstd::std_specs::core::IndexSpecImpl<State> for QTable {
    open spec fn index_req(&self, state: &State) -> bool {
        state.valid_on(self)
    }
}

impl core::ops::Index<(State, Action)> for QTable {
    type Output = QValue;

    /// The estimate of the action in the state, as [`QTable::cell`] gives it.
    fn index(&self, at: (State, Action)) -> (v: &QValue)
        ensures
            v@ == self@.cell(at.0@ as int, at.1@ as int),
    {
        proof {
            use_type_invariant(self);
            assert(row_ok(self@.config, self@.cells[at.0@ as int]));
        }
        &self.qvalues[at.0.index()][at.1]
    }
}

impl vstd::std_specs::core::IndexSpecImpl<(State, Action)> for QTable {
    open spec fn index_req(&self, at: &(State, Action)) -> bool {
        at.0.valid_on(self) && at.1.valid_on(self)
    }
}

/// A policy that picks the next action from a table and a state.
pub trait Strategy {
    /// Picks an action of `qtable` for `state`. The table must have an action to
    /// pick.
    fn determine(qtable: &QTable, state: State) -> (action: Action)
        requires
            state.valid_on(qtable),
            qtable@.config.action_size > 0,
        ensures
            action.valid_on(qtable),
    ;
}

impl QTable {
    /// Lets the strategy `S` pick the next action for `state`: the result is one
    /// that `S` may give for this table and this state.
    pub fn next_action<S: Strategy>(&self, state: State) -> (action: Action)
        requires
            state.valid_on(self),
            self@.config.action_size > 0,
        ensures
            action.valid_on(self),
            call_ensures(S::determine, (self, state), action),
    {
        S::determine(self, state)
    }
}

/// One observed transition: `action` was taken in `state`, paid `reward` (a
/// binary64 pattern) and led to `next_state`.
pub struct QUpdate {
    pub state: State,
    pub action: Action,
    pub reward: u64,
    pub next_state: State,
}

impl QUpdate {
    /// Whether the three handles of the transition index `qtable`.
    pub open spec fn valid_on(self, qtable: &QTable) -> bool {
        &&& self.state.valid_on(qtable)
        &&& self.action.valid_on(qtable)
        &&& self.next_state.valid_on(qtable)
    }
}

/// What the learning rule reads for one transition: the estimate to replace, the
/// largest estimate of the next state, the reward, and the learning rate and the
/// discount of the table.
#[derive(Clone, Copy, Debug)]
pub struct QTerms {
    pub current: QValue,
    pub next_max: QValue,
    pub reward: u64,
    pub alpha: u64,
    pub gamma: u64,
}

/// Puts `v` at row `s` and column `a` of `rows` and leaves every other estimate
/// as it was.
fn store(
    rows: &mut Vec<ActionQValuesForAState>,
    Ghost(config): Ghost<QConfig>,
    s: usize,
    a: usize,
    v: QValue,
)
    requires
        grid_ok(config, grid_of(old(rows)@)),
        s < config.state_size,
        a < config.action_size,
        in_range(v@),
    ensures
        grid_of(final(rows)@) == grid_of(old(rows)@).update(
            s as int,
            grid_of(old(rows)@)[s as int].update(a as int, v@),
        ),
        grid_ok(config, grid_of(final(rows)@)),
    no_unwind
{
    let ghost before = grid_of(rows@);
    assert(row_ok(config, before[s as int]));
    rows[s].values[a] = v;
    let ghost after = grid_of(rows@);
    assert(after[s as int] =~= before[s as int].update(a as int, v@));
    assert(after =~= before.update(s as int, before[s as int].update(a as int, v@)));
    assert forall|k: int| 0 <= k < after.len() implies row_ok(config, #[trigger] after[k]) by {
        if k != s {
            assert(row_ok(config, before[k]));
        }
    }
}

impl QTable {
    /// Reads what the learning rule needs for `step`.
    pub fn terms(&self, step: &QUpdate) -> (terms: QTerms)
        requires
            step.valid_on(self),
        ensures
            terms.current@ == self@.cell(step.state@ as int, step.action@ as int),
            terms.next_max@ == self@.row(step.next_state@ as int)[last_best(
                self@.row(step.next_state@ as int),
            )],
            terms.reward == step.reward,
            terms.alpha == self@.config.alpha,
            terms.gamma == self@.config.gamma,
    {
        proof {
            use_type_invariant(self);
            assert(row_ok(self@.config, self@.cells[step.next_state@ as int]));
        }
        QTerms {
            current: self.cell(step.state, step.action),
            next_max: self.row(step.next_state).max(),
            reward: step.reward,
            alpha: self.config.alpha,
            gamma: self.config.gamma,
        }
    }

    /// Stores `estimate`, the caller's blend of [`QTable::terms`] for `step`, in
    /// the cell of the step's state and action, exactly when it lies in the range
    /// of estimates. Nothing else changes; on refusal nothing changes at all.
    pub fn update(&mut self, step: QUpdate, estimate: u64) -> (res: Result<(), QValueError>)
        requires
            step.valid_on(old(self)),
        ensures
            match res {
                Ok(_) => {
                    &&& in_range(estimate)
                    &&& final(self)@ == old(self)@.with_cell(
                        step.state@ as int,
                        step.action@ as int,
                        estimate,
                    )
                },
                Err(error) => {
                    &&& !in_range(estimate)
                    &&& error == (QValueError::OutOfRange { given: estimate })
                    &&& final(self)@ == old(self)@
                },
            },
            forall|s: int, a: int|
                0 <= s < old(self)@.config.state_size && 0 <= a < old(self)@.config.action_size && !(
                s == step.state@ && a == step.action@) ==> final(self)@.cell(s, a) == old(self)@.cell(
                    s,
                    a,
                ),
    {
        proof {
            use_type_invariant(&*self);
        }
        match QValue::new(estimate) {
            Ok(v) => {
                let s: usize = step.state.index();
                let a: usize = step.action.index();
                store(&mut self.qvalues, Ghost(self.config), s, a, v);
                Ok(())
            },
            Err(error) => Err(error),
        }
    }
}

/// Reading a cell gives what indexing the row of its state by its action gives.
pub proof fn lemma_row_holds_cell(table: QTableView, s: int, a: int)
    ensures
        table.row(s)[a] == table.cell(s, a),
{
}

/// The configuration of a table and a copy of its grid are accepted as a table,
/// and the table built from them has the value of the first.
pub proof fn lemma_snapshot_rebuilds(table: &QTable, cells: Seq<Vec<u64>>)
    requires
        table.wf(),
        patterns(cells) == table@.cells,
    ensures
        grid_ok(table@.config, patterns(cells)),
        (QTableView { config: table@.config, cells: patterns(cells) }) == table@,
{
}

} // verus!
