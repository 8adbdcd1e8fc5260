use vstd::prelude::*;

verus! {

/// Whether the page size follows the page and resolution.
#[derive(Clone, Copy, Debug, PartialEq, Eq, Structural)]
pub struct State {
    pub autodetect: bool,
}

impl Default for State {
    /// Page size chosen by hand.
    fn default() -> (s: State)
        ensures
            s == (State { autodetect: false }),
    {
        State { autodetect: false }
    }
}

} // verus!
