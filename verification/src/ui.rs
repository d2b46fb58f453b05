//! The overlay's placeholder state.

use vstd::prelude::*;

verus! {

/// State of the on-screen overlay. It holds nothing yet.
pub struct UI {}

impl UI {
    /// Creates the overlay state.
    pub fn new() -> (ui: Self)
        ensures
            ui == (UI {}),
    {
        Self {}
    }
}

/// Controls that show nothing and ignore every message.
pub struct NullUIControls {}

} // verus!
