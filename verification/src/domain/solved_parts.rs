use vstd::prelude::*;

verus! {

/// How much of a day's riddle is solved.
#[derive(Debug, PartialEq, Eq, Clone, Copy, Structural)]
pub enum SolvedParts {
    Neither,
    One,
    Both,
}

} // verus!
