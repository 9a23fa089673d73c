use super::errors::AocClientError;
use crate::domain::stars::Stars;
use vstd::prelude::*;

verus! {

pub trait GetStars {
    fn get_stars(&self, year: i32) -> Result<Stars, AocClientError>;
}

} // verus!
