use super::riddle_part::RiddlePart;
use vstd::prelude::*;

verus! {

/// An answer offered for one part of one day's riddle.
#[derive(Debug, PartialEq, Eq, Clone)]
pub struct Submission {
    pub part: RiddlePart,
    pub answer: String,
    pub year: usize,
    pub day: usize,
}

/// A submission as a mathematical value. Two submissions are the same
/// attempt exactly when their views are equal.
pub struct SubmissionView {
    pub part: RiddlePart,
    pub answer: Seq<char>,
    pub year: usize,
    pub day: usize,
}

impl View for Submission {
    type V = SubmissionView;

    open spec fn view(&self) -> SubmissionView {
        SubmissionView { part: self.part, answer: self.answer@, year: self.year, day: self.day }
    }
}

impl Submission {
    pub fn new(part: RiddlePart, answer: String, year: usize, day: usize) -> (s: Self)
        ensures
            s.part == part,
            s.answer == answer,
            s.year == year,
            s.day == day,
    {
        Submission { part, answer, year, day }
    }

    /// Whether `self` and `other` are the same attempt: the same part, the
    /// same literal answer, the same year and day.
    pub fn same_attempt(&self, other: &Submission) -> (b: bool)
        ensures
            b == (self@ == other@),
    {
        let b = self.part == other.part && self.answer == other.answer && self.year == other.year
            && self.day == other.day;
        b
    }
}

} // verus!
