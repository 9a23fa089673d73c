//! Where the inputs of riddles are kept once they were fetched.

use crate::text::{decimal, decimal_string};
use vstd::prelude::*;
use vstd::string::*;

verus! {

/// Why a kept input could not be used.
#[derive(Debug, Clone, PartialEq, Eq)]
pub enum InputCacheError {
    Save,
    Load(String),
    Clear(String),
    Empty(String),
}

impl InputCacheError {
    pub open spec fn description(self) -> Seq<char> {
        match self {
            InputCacheError::Save => "Failed saving to cache"@,
            InputCacheError::Load(_) => "Failed to load from cache"@,
            InputCacheError::Clear(reason) => "Failed to clear the cache: "@ + reason@,
            InputCacheError::Empty(reason) => reason@,
        }
    }

    pub fn to_string(&self) -> (s: String)
        ensures
            s@ == self.description(),
    {
        match self {
            InputCacheError::Save => String::from_str("Failed saving to cache"),
            InputCacheError::Load(_) => String::from_str("Failed to load from cache"),
            InputCacheError::Clear(reason) => {
                let mut s = String::from_str("Failed to clear the cache: ");
                s.append(reason.as_str());
                s
            },
            InputCacheError::Empty(reason) => reason.clone(),
        }
    }
}

/// A store of inputs, one for each day of each year.
pub trait InputCache {
    fn save(input: &str, year: u16, day: u8) -> Result<(), InputCacheError>;

    fn load(year: u16, day: u8) -> Result<String, InputCacheError>;

    fn clear() -> Result<(), InputCacheError>;
}

/// `n` in at least two digits.
pub open spec fn two_digits(n: nat) -> Seq<char> {
    if n < 10 {
        "0"@ + decimal(n)
    } else {
        decimal(n)
    }
}

/// The name under which the input of a day is kept.
pub open spec fn input_name(year: u16, day: u8) -> Seq<char> {
    "input-"@ + decimal(year as nat) + "-"@ + two_digits(day as nat)
}

/// The store that keeps each input in a file of its own.
#[derive(Debug, Clone, Copy, PartialEq, Eq)]
pub struct FileInputCache;

impl FileInputCache {
    /// Where the input of a day is kept, below the directory of the cache:
    /// the name of the directory of all inputs, then the name of the file.
    pub fn cache_path(year: u16, day: u8) -> (path: (String, String))
        ensures
            path.0@ == "inputs"@,
            path.1@ == input_name(year, day),
    {
        let mut name = String::from_str("input-");
        name.append(decimal_string(year as u128).as_str());
        name.append("-");
        if day < 10 {
            name.append("0");
        }
        name.append(decimal_string(day as u128).as_str());
        (String::from_str("inputs"), name)
    }

    /// The words with which a missing input is reported.
    pub fn missing(year: u16, day: u8) -> (e: InputCacheError)
        ensures
            e matches InputCacheError::Empty(reason) && reason@ == "No cached input for "@ + decimal(
                year as nat,
            ) + "-"@ + two_digits(day as nat),
    {
        let mut reason = String::from_str("No cached input for ");
        reason.append(decimal_string(year as u128).as_str());
        reason.append("-");
        if day < 10 {
            reason.append("0");
        }
        reason.append(decimal_string(day as u128).as_str());
        InputCacheError::Empty(reason)
    }

    /// The words with which an unreadable input is reported.
    pub fn unreadable(year: u16, day: u8) -> (e: InputCacheError)
        ensures
            e matches InputCacheError::Load(reason) && reason@
                == "Failed to read cached input for "@ + decimal(year as nat) + "-"@ + two_digits(
                day as nat,
            ),
    {
        let mut reason = String::from_str("Failed to read cached input for ");
        reason.append(decimal_string(year as u128).as_str());
        reason.append("-");
        if day < 10 {
            reason.append("0");
        }
        reason.append(decimal_string(day as u128).as_str());
        InputCacheError::Load(reason)
    }
}

} // verus!
