use vstd::prelude::*;
use vstd::string::*;

verus! {

#[derive(Debug, PartialEq, Eq, Clone, Copy, Structural)]
pub enum RiddleDateError {
    /// What was given does not tell which riddle is meant.
    GuessError,
}

impl RiddleDateError {
    pub fn to_string(&self) -> (s: String)
        ensures
            s@ == "Could not guess the riddle date based on the current date"@,
    {
        String::from_str("Could not guess the riddle date based on the current date")
    }
}

/// A day of the calendar, as far as guessing needs it.
#[derive(Debug, PartialEq, Eq, Clone, Copy, Structural)]
pub struct CurrentDate {
    pub year: i32,
    pub month: u32,
    pub day: u32,
}

/// The year and the day of a riddle.
#[derive(Debug, PartialEq, Eq, Clone, Copy, Structural)]
pub struct RiddleDate {
    pub year: i32,
    pub day: i32,
}

/// The riddle of today: there is one on each of the first 25 days of
/// December.
pub open spec fn todays_riddle(today: CurrentDate) -> Result<RiddleDate, RiddleDateError> {
    if today.month == 12 && today.day <= 25 {
        Ok(RiddleDate { year: today.year, day: today.day as i32 })
    } else {
        Err(RiddleDateError::GuessError)
    }
}

/// The newest riddle of the given day of December: this year's in
/// December, last year's before. There is no guess where last year cannot
/// be counted.
pub open spec fn newest_riddle_of_day(day: i32, today: CurrentDate) -> Result<
    RiddleDate,
    RiddleDateError,
> {
    if today.month == 12 {
        Ok(RiddleDate { year: today.year, day })
    } else if today.year > i32::MIN {
        Ok(RiddleDate { year: (today.year - 1) as i32, day })
    } else {
        Err(RiddleDateError::GuessError)
    }
}

/// The riddle that is meant by what the user gave: year and day as given;
/// the day alone, of the newest year that has it; nothing, today's riddle.
/// A year alone does not say which riddle is meant.
pub open spec fn guessed(year: Option<i32>, day: Option<i32>, today: CurrentDate) -> Result<
    RiddleDate,
    RiddleDateError,
> {
    match (year, day) {
        (Some(year), Some(day)) => Ok(RiddleDate { year, day }),
        (None, None) => todays_riddle(today),
        (None, Some(day)) => newest_riddle_of_day(day, today),
        (Some(_), None) => Err(RiddleDateError::GuessError),
    }
}

impl RiddleDate {
    pub fn new(year: i32, day: i32) -> (date: Self)
        ensures
            date == (RiddleDate { year, day }),
    {
        RiddleDate { year, day }
    }

    pub fn best_guess(year: Option<i32>, day: Option<i32>, current_date: CurrentDate) -> (r: Result<
        Self,
        RiddleDateError,
    >)
        ensures
            r == guessed(year, day, current_date),
    {
        match (year, day) {
            (Some(year), Some(day)) => Ok(Self::new(year, day)),
            (None, None) => Self::guess_from_current_date(current_date),
            (None, Some(day)) => Self::guess_from_day(day, current_date),
            (Some(_), None) => Err(RiddleDateError::GuessError),
        }
    }

    pub fn guess_from_current_date(current_date: CurrentDate) -> (r: Result<Self, RiddleDateError>)
        ensures
            r == todays_riddle(current_date),
    {
        if current_date.month == 12 && current_date.day <= 25 {
            Ok(Self::new(current_date.year, current_date.day as i32))
        } else {
            Err(RiddleDateError::GuessError)
        }
    }

    pub fn guess_from_day(day: i32, current_date: CurrentDate) -> (r: Result<Self, RiddleDateError>)
        ensures
            r == newest_riddle_of_day(day, current_date),
    {
        if current_date.month == 12 {
            Ok(Self::new(current_date.year, day))
        } else if current_date.year > i32::MIN {
            Ok(Self::new(current_date.year - 1, day))
        } else {
            Err(RiddleDateError::GuessError)
        }
    }
}

/// The year whose riddles are the newest: this year in December, last year
/// before.
pub open spec fn newest_year(today: CurrentDate) -> int {
    if today.month == 12 {
        today.year as int
    } else {
        today.year - 1
    }
}

pub fn determine_year(today: CurrentDate) -> (year: i32)
    requires
        today.month == 12 || today.year > i32::MIN,
    ensures
        year == newest_year(today),
{
    if today.month == 12 {
        today.year
    } else {
        today.year - 1
    }
}

} // verus!
