//! Saving and restoring the state of a parser, for backtracking.

use vstd::prelude::*;

verus! {

/// A parser whose state can be captured and restored later.
pub trait StateCapture {
    /// The type of the state.
    type State;

    /// Gets the state of the parser.
    fn get_state(&self) -> Self::State;

    /// Sets the state of the parser.
    fn set_state(&mut self, state: Self::State);
}

} // verus!
