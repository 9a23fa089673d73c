use crate::text::{decimal, decimal_string, join, join_strings};
use vstd::prelude::*;
use vstd::string::*;

verus! {

/// A span of time, in seconds, that can be written in words.
#[derive(Debug, Clone, Copy, PartialEq, Eq, PartialOrd, Ord, Hash)]
pub struct DurationString {
    pub duration: i128,
}

/// The count `n` of `unit`, where there is any.
pub open spec fn counted(n: int, unit: Seq<char>) -> Seq<Seq<char>> {
    if n > 0 {
        seq![decimal(n as nat) + unit]
    } else {
        Seq::empty()
    }
}

/// A span of `seconds` in words: its whole days, then the hours, minutes
/// and seconds left over, each only where it is not zero. A span of no
/// length, or less, is `0 seconds`.
pub open spec fn in_words(seconds: int) -> Seq<char> {
    if seconds <= 0 {
        "0 seconds"@
    } else {
        join(
            counted(seconds / 86400, " days"@) + counted(seconds % 86400 / 3600, " hours"@)
                + counted(seconds % 3600 / 60, " minutes"@) + counted(seconds % 60, " seconds"@),
            " "@,
        )
    }
}

fn push_counted(parts: &mut Vec<String>, n: u128, unit: &str)
    ensures
        final(parts).deep_view() == old(parts).deep_view() + counted(n as int, unit@),
{
    let ghost before = parts.deep_view();
    if n > 0 {
        let mut part = decimal_string(n);
        part.append(unit);
        parts.push(part);
        assert(parts.deep_view() =~= before + counted(n as int, unit@));
    } else {
        assert(parts.deep_view() =~= before + counted(n as int, unit@));
    }
}

impl DurationString {
    pub fn new(duration: i128) -> (d: Self)
        ensures
            d.duration == duration,
    {
        DurationString { duration }
    }

    pub fn to_string(&self) -> (s: String)
        ensures
            s@ == in_words(self.duration as int),
    {
        if self.duration <= 0 {
            return String::from_str("0 seconds");
        }
        let seconds: i128 = self.duration;
        let days: u128 = (seconds / 86400) as u128;
        let hours: u128 = (seconds % 86400 / 3600) as u128;
        let minutes: u128 = (seconds % 3600 / 60) as u128;
        let left: u128 = (seconds % 60) as u128;
        let mut parts: Vec<String> = Vec::new();
        assert(parts.deep_view() =~= Seq::<Seq<char>>::empty());
        push_counted(&mut parts, days, " days");
        push_counted(&mut parts, hours, " hours");
        push_counted(&mut parts, minutes, " minutes");
        push_counted(&mut parts, left, " seconds");
        let ghost span = seconds as int;
        assert(parts.deep_view() =~= counted(span / 86400, " days"@) + counted(
            span % 86400 / 3600,
            " hours"@,
        ) + counted(span % 3600 / 60, " minutes"@) + counted(span % 60, " seconds"@));
        join_strings(&parts, " ")
    }
}

} // verus!
