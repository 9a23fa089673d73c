use super::errors::AocClientError;
use vstd::prelude::*;

verus! {

pub trait GetExampleInput {
    fn get_example_input(&mut self, day: usize, year: usize) -> Result<String, AocClientError>;
}

} // verus!
