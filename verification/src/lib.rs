//! Client-side logic for a daily puzzle site: classifying the site's
//! replies, keeping the history of submitted answers, and deciding when a
//! new submission may go out.

pub mod aoc_api;
pub mod api;
pub mod cli_display;
pub mod clock;
pub mod configuration;
pub mod domain;
pub mod driver;
pub mod find_riddle_part;
pub mod html;
pub mod http_description;
pub mod input_cache;
pub mod markup;
pub mod pattern;
pub mod submission_history;
pub mod text;

pub use crate::api::get_input;
pub use crate::api::submit;
pub use crate::configuration::Configuration;
pub use crate::driver::Driver;
