use crate::domain::ports::errors::AocClientError;
use crate::domain::riddle_part::RiddlePart;
use vstd::prelude::*;

verus! {

pub trait FindRiddlePart {
    fn find_unsolved_part(&self, year: usize, day: usize) -> Result<RiddlePart, AocClientError>;
}

} // verus!
