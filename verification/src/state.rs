//! Handles into the state dimension of a table.

use crate::table::QTable;
use crate::text::{decimal, decimal_text};
use vstd::prelude::*;
use vstd::string::StringExecFns;

verus! {

/// A zero-based index of a state, made only by checking it against a table.
#[derive(Clone, Copy, Debug)]
pub struct State(usize);

impl View for State {
    type V = usize;

    /// The index that the handle wraps.
    closed spec fn view(&self) -> usize {
        self.0
    }
}

/// Why no state handle was made.
#[derive(Clone, Copy, Debug, PartialEq, Eq, Structural)]
pub enum StateError {
    /// `given` is not below `max`, the number of states of the table.
    InvalidStateIndex { given: usize, max: usize },
}

impl StateError {
    /// The message of the error: the index that was given and the number that
    /// it had to stay below.
    pub fn message(&self) -> (text: String)
        ensures
            self matches StateError::InvalidStateIndex { given, max } && text@ == "Invalid state index: "@
                + decimal(given as nat) + " (max: "@ + decimal(max as nat) + ")"@,
    {
        match self {
            StateError::InvalidStateIndex { given, max } => {
                let mut text = String::from_str("Invalid state index: ");
                text.append(decimal_text(*given).as_str());
                text.append(" (max: ");
                text.append(decimal_text(*max).as_str());
                text.append(")");
                text
            },
        }
    }
}

impl State {
    /// Whether `all` lists the handles of the indexes below `n`, each once, in
    /// ascending order.
    pub open spec fn enumerates(all: Seq<State>, n: usize) -> bool {
        &&& all.len() == n
        &&& forall|i: int| 0 <= i < all.len() ==> (#[trigger] all[i])@ == i
    }

    /// Two enumerations of the same number of states are the same sequence: to
    /// enumerate again is to get the same handles in the same order.
    pub proof fn lemma_enumeration_unique(first: Seq<State>, second: Seq<State>, n: usize)
        requires
            Self::enumerates(first, n),
            Self::enumerates(second, n),
        ensures
            first == second,
    {
        assert forall|i: int| 0 <= i < first.len() implies first[i] == second[i] by {
            assert(first[i]@ == second[i]@);
        }
        assert(first =~= second);
    }

    /// Whether the handle indexes a row of `qtable`.
    pub open spec fn valid_on(self, qtable: &QTable) -> bool {
        self@ < qtable@.config.state_size
    }

    /// Makes the handle for `index` exactly when `index` is below the number of
    /// states of `qtable`; otherwise reports the index and that number.
    pub fn new_on(qtable: &QTable, index: usize) -> (res: Result<Self, StateError>)
        ensures
            index < qtable@.config.state_size ==> (res matches Ok(s) && s@ == index),
            index >= qtable@.config.state_size ==> res == Err::<Self, StateError>(
                StateError::InvalidStateIndex { given: index, max: qtable@.config.state_size },
            ),
    {
        let size: usize = qtable.state_size();
        if index < size {
            Ok(Self(index))
        } else {
            Err(StateError::InvalidStateIndex { given: index, max: size })
        }
    }

    /// The index that the handle wraps.
    pub fn index(&self) -> (i: usize)
        ensures
            i == self@,
    {
        self.0
    }
}

impl std::ops::Deref for State {
    type Target = usize;

    fn deref(&self) -> (i: &usize)
        ensures
            *i == self@,
    {
        &self.0
    }
}

} // verus!
