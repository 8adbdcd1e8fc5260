use vstd::prelude::*;

pub use crate::direction::Direction;

verus! {

/// Which direction's colour picker is open.
#[derive(Clone, Copy, Debug, PartialEq, Eq, Structural)]
pub struct State {
    pub show_up: bool,
    pub show_down: bool,
    pub show_left: bool,
    pub show_right: bool,
}

impl Default for State {
    /// All pickers closed.
    fn default() -> (s: State)
        ensures
            s == (State { show_up: false, show_down: false, show_left: false, show_right: false }),
    {
        State { show_up: false, show_down: false, show_left: false, show_right: false }
    }
}

} // verus!
