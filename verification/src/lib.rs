//! A dense table of action-value estimates for tabular reinforcement learning.
//!
//! A [`QTable`] holds one estimate for each pair of a state and an action,
//! beside the discount, the learning rate and the exploration rate of its
//! learning rule. Cells are read through [`State`] and [`Action`] handles that
//! were checked against the table, and written by [`QTable::update`] alone. A
//! [`Strategy`] picks the next action from the row of a state.
//!
//! Every scalar crosses this crate's boundary as the bit pattern of an IEEE 754
//! binary64 number. The crate gives such a pattern its meaning in
//! [`binary64`], and orders and range-checks patterns with integer arithmetic
//! alone; it never adds or multiplies them. Blending a new estimate is the
//! caller's arithmetic: the table hands out the terms of the rule, and checks
//! and stores its outcome.

mod action;
pub mod binary64;
mod state;
pub mod table;
pub mod text;
pub mod value;

pub use action::{Action, ActionError};
pub use state::{State, StateError};
pub use table::strategy;
pub use table::{
    ActionQValuesForAState, QConfig, QTable, QTableView, QTerms, QUpdate, Strategy, TableError,
};
pub use value::{QValue, QValueError};
