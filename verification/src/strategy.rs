//! Strategies that turn static parameters into a list of positions.

use vstd::prelude::*;

use crate::position::Position;

verus! {

/// A strategy synthesizes the initial positions its parameters call for.
pub trait Strategy {
    /// Whether the parameters admit a representable set of positions.
    spec fn assignable(&self) -> bool;

    /// Builds the positions.
    fn assign_position(&self) -> Vec<Position>
        requires
            self.assignable(),
    ;
}

} // verus!
