use super::errors::AocClientError;
use crate::domain::leaderboard::Leaderboard;
use vstd::prelude::*;

verus! {

pub trait GetLeaderboard {
    fn get_leaderboard(&self, year: i32) -> Result<Leaderboard, AocClientError>;
}

} // verus!
