//! The values that the rest of the crate speaks of.

pub mod description;
pub mod duration_string;
pub mod leaderboard;
pub mod ports;
pub mod private_leaderboard;
pub mod riddle_date;
pub mod riddle_part;
pub mod solved_parts;
pub mod stars;
pub mod submission;
pub mod submission_result;
pub mod submission_status;
