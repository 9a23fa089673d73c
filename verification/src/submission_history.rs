//! The record of what was submitted for one day's riddle, and what the site
//! said of it.

use crate::domain::riddle_part::RiddlePart;
use crate::domain::submission::{Submission, SubmissionView};
use crate::domain::submission_result::{SubmissionResult, SubmissionResultView};
use crate::domain::submission_status::SubmissionStatus;
use crate::text::{decimal, decimal_string};
use vstd::prelude::*;
use vstd::string::*;

verus! {

/// Why the stored history could not be used.
#[derive(Debug, Clone, PartialEq, Eq)]
pub enum SubmissionHistoryError {
    Load(String),
    Save(String),
    Clear(String),
}

impl SubmissionHistoryError {
    pub open spec fn description(self) -> Seq<char> {
        match self {
            SubmissionHistoryError::Load(reason) =>
                "Error loading the data from the submission history cache: "@ + reason@,
            SubmissionHistoryError::Save(reason) =>
                "Error saving data to the submission history cache: "@ + reason@,
            SubmissionHistoryError::Clear(reason) =>
                "Error clearing the submission history cache: "@ + reason@,
        }
    }

    pub fn to_string(&self) -> (s: String)
        ensures
            s@ == self.description(),
    {
        let (mut s, reason) = match self {
            SubmissionHistoryError::Load(reason) => (
                String::from_str("Error loading the data from the submission history cache: "),
                reason,
            ),
            SubmissionHistoryError::Save(reason) => (
                String::from_str("Error saving data to the submission history cache: "),
                reason,
            ),
            SubmissionHistoryError::Clear(reason) => (
                String::from_str("Error clearing the submission history cache: "),
                reason,
            ),
        };
        s.append(reason.as_str());
        s
    }
}

/// The entries of a history as mathematical values, oldest first.
pub type Entries = Seq<SubmissionResultView>;

pub open spec fn entries_of(results: Seq<SubmissionResult>) -> Entries {
    results.map_values(|r: SubmissionResult| r@)
}

/// `result` records a correct answer for `part`.
pub open spec fn is_correct_for(result: SubmissionResultView, part: RiddlePart) -> bool {
    result.submission.part == part && result.status == SubmissionStatus::Correct
}

/// The oldest entry that records a correct answer for `part`.
pub open spec fn first_correct(entries: Entries, part: RiddlePart) -> Option<SubmissionResultView>
    decreases entries.len(),
{
    if entries.len() == 0 {
        None
    } else if is_correct_for(entries[0], part) {
        Some(entries[0])
    } else {
        first_correct(entries.drop_first(), part)
    }
}

/// The oldest entry for the very attempt `submission`.
pub open spec fn first_attempt(entries: Entries, submission: SubmissionView) -> Option<
    SubmissionResultView,
>
    decreases entries.len(),
{
    if entries.len() == 0 {
        None
    } else if entries[0].submission == submission {
        Some(entries[0])
    } else {
        first_attempt(entries.drop_first(), submission)
    }
}

/// The newest entry for `part`.
pub open spec fn last_for(entries: Entries, part: RiddlePart) -> Option<SubmissionResultView>
    decreases entries.len(),
{
    if entries.len() == 0 {
        None
    } else if entries.last().submission.part == part {
        Some(entries.last())
    } else {
        last_for(entries.drop_last(), part)
    }
}

/// The seconds still to wait at `now` before another answer for `part`:
/// counted from the newest entry for the part, and nothing once the wait
/// is over.
pub open spec fn remaining_wait(entries: Entries, part: RiddlePart, now: i64) -> Option<int> {
    match last_for(entries, part) {
        Some(last) => {
            let remaining = last.submitted_at + last.wait_time - now;
            if remaining > 0 {
                Some(remaining)
            } else {
                None
            }
        },
        None => None,
    }
}

/// The number of entries that record a correct answer for `part`.
pub open spec fn correct_count(entries: Entries, part: RiddlePart) -> nat
    decreases entries.len(),
{
    if entries.len() == 0 {
        0
    } else {
        correct_count(entries.drop_last(), part) + if is_correct_for(entries.last(), part) {
            1nat
        } else {
            0nat
        }
    }
}

/// What holds of every history that this crate's workflow has built: it
/// has only outcomes that count towards the throttle, and for each part at
/// most one correct answer.
pub open spec fn well_formed(entries: Entries) -> bool {
    &&& forall|i: int| 0 <= i < entries.len() ==> (#[trigger] entries[i]).status.is_recorded()
    &&& correct_count(entries, RiddlePart::One) <= 1
    &&& correct_count(entries, RiddlePart::Two) <= 1
}

/// There is a first correct entry for `part` exactly when some entry is
/// correct for it.
pub proof fn lemma_first_correct_none(entries: Entries, part: RiddlePart)
    ensures
        first_correct(entries, part) is None <==> forall|i: int|
            0 <= i < entries.len() ==> !is_correct_for(#[trigger] entries[i], part),
    decreases entries.len(),
{
    if entries.len() > 0 {
        let rest = entries.drop_first();
        lemma_first_correct_none(rest, part);
        if !is_correct_for(entries[0], part) {
            if first_correct(rest, part) is None {
                assert forall|i: int| 0 <= i < entries.len() implies !is_correct_for(
                    #[trigger] entries[i],
                    part,
                ) by {
                    if i > 0 {
                        assert(entries[i] == rest[i - 1]);
                    }
                }
            } else {
                let i = choose|i: int| 0 <= i < rest.len() && is_correct_for(#[trigger] rest[i], part);
                assert(is_correct_for(entries[i + 1], part));
            }
        }
    }
}

/// No entry is correct for `part` exactly when the count of such entries
/// is zero.
pub proof fn lemma_correct_count_zero(entries: Entries, part: RiddlePart)
    ensures
        correct_count(entries, part) == 0 <==> forall|i: int|
            0 <= i < entries.len() ==> !is_correct_for(#[trigger] entries[i], part),
    decreases entries.len(),
{
    if entries.len() > 0 {
        let rest = entries.drop_last();
        lemma_correct_count_zero(rest, part);
        if !is_correct_for(entries.last(), part) {
            if correct_count(rest, part) == 0 {
                assert forall|i: int| 0 <= i < entries.len() implies !is_correct_for(
                    #[trigger] entries[i],
                    part,
                ) by {
                    if i < rest.len() {
                        assert(entries[i] == rest[i]);
                    }
                }
            } else {
                let i = choose|i: int| 0 <= i < rest.len() && is_correct_for(#[trigger] rest[i], part);
                assert(is_correct_for(entries[i], part));
            }
        } else {
            assert(is_correct_for(entries[entries.len() - 1], part));
        }
    }
}

/// A new entry at the end changes the first correct entry for `part` only
/// where there was none and the new entry is one.
pub proof fn lemma_first_correct_push(
    entries: Entries,
    result: SubmissionResultView,
    part: RiddlePart,
)
    ensures
        first_correct(entries.push(result), part) == if first_correct(entries, part) is Some {
            first_correct(entries, part)
        } else if is_correct_for(result, part) {
            Some(result)
        } else {
            None
        },
    decreases entries.len(),
{
    let longer = entries.push(result);
    if entries.len() == 0 {
        assert(longer.drop_first() =~= Seq::<SubmissionResultView>::empty());
        assert(first_correct(longer.drop_first(), part) is None);
        assert(longer[0] == result);
    } else {
        assert(longer[0] == entries[0]);
        assert(longer.drop_first() =~= entries.drop_first().push(result));
        lemma_first_correct_push(entries.drop_first(), result, part);
    }
}

/// A new entry at the end changes the first entry for an attempt only
/// where there was none and the new entry is for that attempt.
pub proof fn lemma_first_attempt_push(
    entries: Entries,
    result: SubmissionResultView,
    submission: SubmissionView,
)
    ensures
        first_attempt(entries.push(result), submission) == if first_attempt(entries, submission)
            is Some {
            first_attempt(entries, submission)
        } else if result.submission == submission {
            Some(result)
        } else {
            None
        },
    decreases entries.len(),
{
    let longer = entries.push(result);
    if entries.len() == 0 {
        assert(longer.drop_first() =~= Seq::<SubmissionResultView>::empty());
        assert(first_attempt(longer.drop_first(), submission) is None);
        assert(longer[0] == result);
    } else {
        assert(longer[0] == entries[0]);
        assert(longer.drop_first() =~= entries.drop_first().push(result));
        lemma_first_attempt_push(entries.drop_first(), result, submission);
    }
}

/// The wait runs down with the clock and, once over, stays over: between
/// two moments the remaining wait falls by the time that passed.
pub proof fn lemma_wait_runs_down(entries: Entries, part: RiddlePart, now: i64, later: i64)
    requires
        now <= later,
    ensures
        remaining_wait(entries, part, now) is None ==> remaining_wait(entries, part, later) is None,
        remaining_wait(entries, part, later) matches Some(left) ==> remaining_wait(
            entries,
            part,
            now,
        ) == Some(left + (later - now)),
{
}

/// What is known of one day's riddle: every recorded submission, oldest
/// first.
#[derive(Debug, Clone, PartialEq, Eq)]
pub struct SubmissionHistory {
    submissions: Vec<SubmissionResult>,
    year: usize,
    day: usize,
}

pub struct SubmissionHistoryView {
    pub submissions: Entries,
    pub year: usize,
    pub day: usize,
}

impl View for SubmissionHistory {
    type V = SubmissionHistoryView;

    closed spec fn view(&self) -> SubmissionHistoryView {
        SubmissionHistoryView {
            submissions: entries_of(self.submissions@),
            year: self.year,
            day: self.day,
        }
    }
}

impl SubmissionHistory {
    pub fn new(year: usize, day: usize) -> (history: Self)
        ensures
            history@.submissions == Seq::<SubmissionResultView>::empty(),
            history@.year == year,
            history@.day == day,
            well_formed(history@.submissions),
    {
        let history = SubmissionHistory { submissions: Vec::new(), year, day };
        assert(history@.submissions =~= Seq::<SubmissionResultView>::empty());
        history
    }

    /// A history with the given entries, as read back from storage.
    pub fn from_parts(year: usize, day: usize, submissions: Vec<SubmissionResult>) -> (history:
        Self)
        ensures
            history@.submissions == entries_of(submissions@),
            history@.year == year,
            history@.day == day,
    {
        SubmissionHistory { submissions, year, day }
    }

    pub fn year(&self) -> (year: usize)
        ensures
            year == self@.year,
    {
        self.year
    }

    pub fn day(&self) -> (day: usize)
        ensures
            day == self@.day,
    {
        self.day
    }

    pub fn get_submissions(&self) -> (submissions: &Vec<SubmissionResult>)
        ensures
            entries_of(submissions@) == self@.submissions,
    {
        &self.submissions
    }

    /// The stored correct answer for `part`, if there is one.
    pub fn correct_submission(&self, part: &RiddlePart) -> (found: Option<&SubmissionResult>)
        ensures
            match found {
                Some(result) => first_correct(self@.submissions, *part) == Some(result@),
                None => first_correct(self@.submissions, *part) is None,
            },
    {
        let ghost entries = self@.submissions;
        let mut i: usize = 0;
        assert(entries.skip(0) =~= entries);
        while i < self.submissions.len()
            invariant
                i <= self.submissions.len(),
                entries == entries_of(self.submissions@),
                first_correct(entries, *part) == first_correct(entries.skip(i as int), *part),
            decreases self.submissions.len() - i,
        {
            let result = &self.submissions[i];
            assert(entries.skip(i as int)[0] == result@);
            assert(entries.skip(i as int).drop_first() =~= entries.skip(i + 1));
            if result.submission.part == *part && result.status == SubmissionStatus::Correct {
                return Some(result);
            }
            i += 1;
        }
        None
    }

    /// The stored result of the very attempt `submission`, if it was made
    /// before.
    pub fn get_result_for_submission(&self, submission: &Submission) -> (found: Option<
        &SubmissionResult,
    >)
        ensures
            match found {
                Some(result) => first_attempt(self@.submissions, submission@) == Some(result@),
                None => first_attempt(self@.submissions, submission@) is None,
            },
    {
        let ghost entries = self@.submissions;
        let mut i: usize = 0;
        assert(entries.skip(0) =~= entries);
        while i < self.submissions.len()
            invariant
                i <= self.submissions.len(),
                entries == entries_of(self.submissions@),
                first_attempt(entries, submission@) == first_attempt(
                    entries.skip(i as int),
                    submission@,
                ),
            decreases self.submissions.len() - i,
        {
            let result = &self.submissions[i];
            assert(entries.skip(i as int)[0] == result@);
            assert(entries.skip(i as int).drop_first() =~= entries.skip(i + 1));
            if result.submission.same_attempt(submission) {
                return Some(result);
            }
            i += 1;
        }
        None
    }

    /// The newest stored result for `part`.
    pub fn last_submission(&self, part: &RiddlePart) -> (found: Option<&SubmissionResult>)
        ensures
            match found {
                Some(result) => last_for(self@.submissions, *part) == Some(result@),
                None => last_for(self@.submissions, *part) is None,
            },
    {
        let ghost entries = self@.submissions;
        let mut i: usize = self.submissions.len();
        assert(entries.take(i as int) =~= entries);
        while i > 0
            invariant
                i <= self.submissions.len(),
                entries == entries_of(self.submissions@),
                last_for(entries, *part) == last_for(entries.take(i as int), *part),
            decreases i,
        {
            let result = &self.submissions[i - 1];
            assert(entries.take(i as int).last() == result@);
            assert(entries.take(i as int).drop_last() =~= entries.take(i - 1));
            if result.submission.part == *part {
                return Some(result);
            }
            i -= 1;
        }
        None
    }

    /// The seconds still to wait at `now` before another answer for
    /// `part` may go out.
    pub fn wait_time(&self, now: i64, part: &RiddlePart) -> (wait: Option<i128>)
        ensures
            match wait {
                Some(seconds) => remaining_wait(self@.submissions, *part, now) == Some(
                    seconds as int,
                ),
                None => remaining_wait(self@.submissions, *part, now) is None,
            },
    {
        match self.last_submission(part) {
            Some(last) => {
                let remaining: i128 = last.submitted_at as i128 + last.wait_time as i128
                    - now as i128;
                if remaining > 0 {
                    Some(remaining)
                } else {
                    None
                }
            },
            None => None,
        }
    }

    /// Puts `result` at the end of the history.
    pub fn add(&mut self, result: SubmissionResult)
        ensures
            final(self)@.submissions == old(self)@.submissions.push(result@),
            final(self)@.year == old(self)@.year,
            final(self)@.day == old(self)@.day,
    {
        self.submissions.push(result);
        assert(final(self)@.submissions =~= old(self)@.submissions.push(result@));
    }

    /// The name under which the history of a day is stored.
    pub open spec fn cache_name(year: usize, day: usize) -> Seq<char> {
        decimal(year as nat) + "-"@ + decimal(day as nat)
    }

    /// Where the history of a day is stored, below the directory of the
    /// cache: the name of the directory of all histories, then the name of
    /// the file.
    pub fn cache_path(year: usize, day: usize) -> (path: (String, String))
        ensures
            path.0@ == "submissions"@,
            path.1@ == Self::cache_name(year, day),
    {
        let mut name = decimal_string(year as u128);
        name.append("-");
        name.append(decimal_string(day as u128).as_str());
        (String::from_str("submissions"), name)
    }
}

} // verus!
