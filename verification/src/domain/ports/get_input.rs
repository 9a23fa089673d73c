use super::errors::AocClientError;
use vstd::prelude::*;

verus! {

pub trait GetInput {
    fn get_input(&mut self, day: usize, year: usize) -> Result<String, AocClientError>;
}

} // verus!
