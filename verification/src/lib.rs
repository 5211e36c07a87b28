//! Greedy single-step decision making over partially ordered scores.
//!
//! A state type implements [`reinforcement_state::ReinforcementState`] by
//! enumerating its legal actions, scoring each one against a read-only
//! context, and applying an action to produce a successor state. The library
//! then selects the action with the maximal score in a single deterministic
//! scan, falling back to a fixed rule when two scores are incomparable. The
//! scan itself is modelled and proved in [`extremum`]; [`grid`] holds a
//! verified consumer whose states walk a grid of per-cell scores.

pub mod extremum;
pub mod grid;
pub mod reinforcement_state;

pub use reinforcement_state::ReinforcementState;
