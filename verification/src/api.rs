//! The two things that most callers want: the input of a riddle, and an
//! answer submitted.

use crate::configuration::Configuration;
use crate::domain::riddle_part::RiddlePart;
use crate::domain::submission::SubmissionView;
use crate::driver::{released, Action, Driver, InputError, InputStep, Workflow};
use crate::input_cache::InputCacheError;
use vstd::prelude::*;
use vstd::string::*;

verus! {

/// The part that the number `riddle_part` stands for: 2 for the second,
/// anything else for the first.
pub open spec fn part_of(riddle_part: u8) -> RiddlePart {
    if riddle_part == 2 {
        RiddlePart::Two
    } else {
        RiddlePart::One
    }
}

/// Says how to come by the input of the riddle of `day` in `year`.
///
/// `configuration` is what is configured, `token` a session token to use in
/// place of the configured one, `now` the time, and `cached` what the cache
/// answered to the request for the input. The driver that is handed back
/// holds the token to fetch with.
pub fn get_input(
    configuration: Configuration,
    day: usize,
    year: usize,
    token: Option<&str>,
    now: i64,
    cached: Result<String, InputCacheError>,
) -> (r: (Driver, InputStep))
    ensures
        r.0.configuration.cli == configuration.cli,
        r.0.configuration.aoc.token@ == match token {
            Some(t) => t@,
            None => configuration.aoc.token@,
        },
        match released(year, day, now) {
            None => r.1 == (InputStep::Refused { error: InputError::InvalidDate }),
            Some(false) => r.1 == (InputStep::Refused { error: InputError::NotReleased }),
            Some(true) => match cached {
                Ok(input) => r.1 == (InputStep::Ready { input }),
                Err(e) => r.1 matches InputStep::Fetch { url, clear_cache } && url@
                    == crate::aoc_api::day_url(year, day) + "/input"@ && clear_cache == (e is Load),
            },
        },
{
    let driver = Driver::new(configuration.with_token(token));
    let step = driver.input(year, day, now, cached);
    (driver, step)
}

/// Begins the submission of `answer` for the riddle of `day` in `year`.
///
/// `configuration` is what is configured and `token` a session token to use
/// in place of the configured one. The driver that is handed back takes the
/// submission on from the state given, once the action given is done.
pub fn submit(
    configuration: Configuration,
    day: usize,
    year: usize,
    answer: &str,
    riddle_part: u8,
    token: Option<&str>,
) -> (r: (Driver, Workflow, Action))
    ensures
        r.0.configuration.cli == configuration.cli,
        r.0.configuration.aoc.token@ == match token {
            Some(t) => t@,
            None => configuration.aoc.token@,
        },
        r.1 matches Workflow::Loading { submission } && submission@ == (SubmissionView {
            part: part_of(riddle_part),
            answer: answer@,
            year,
            day,
        }),
        r.2 == (Action::Load { year, day }),
{
    let driver = Driver::new(configuration.with_token(token));
    let part = match riddle_part {
        2 => RiddlePart::Two,
        _ => RiddlePart::One,
    };
    let (state, action) = driver.submit_answer(year, day, part, answer.to_owned());
    (driver, state, action)
}

} // verus!
