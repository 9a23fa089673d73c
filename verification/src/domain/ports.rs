//! What the crate asks of whoever talks to the site for it.

pub mod aoc_client;
pub mod errors;
pub mod get_input;
pub mod get_leaderboard;
pub mod get_private_leaderboard;
pub mod get_stars;
pub mod get_test_input;
