use vstd::prelude::*;

verus! {

/// What the site said of a submitted answer.
#[derive(Debug, Clone, Copy, PartialEq, Eq, Structural)]
pub enum SubmissionStatus {
    Correct,
    Incorrect,
    /// No reply could be had at all.
    Unknown,
    TooSoon,
    WrongLevel,
}

impl SubmissionStatus {
    /// The outcomes that count towards the site's throttle and are
    /// therefore kept in the history.
    pub open spec fn spec_is_recorded(self) -> bool {
        self == SubmissionStatus::Correct || self == SubmissionStatus::Incorrect || self
            == SubmissionStatus::TooSoon
    }

    #[verifier::when_used_as_spec(spec_is_recorded)]
    pub fn is_recorded(self) -> (b: bool)
        ensures
            b == self.spec_is_recorded(),
    {
        match self {
            SubmissionStatus::Correct | SubmissionStatus::Incorrect | SubmissionStatus::TooSoon => true,
            SubmissionStatus::Unknown | SubmissionStatus::WrongLevel => false,
        }
    }

    /// The outcomes after which the site asks the user to wait.
    pub open spec fn spec_carries_wait(self) -> bool {
        self == SubmissionStatus::Incorrect || self == SubmissionStatus::TooSoon
    }

    #[verifier::when_used_as_spec(spec_carries_wait)]
    pub fn carries_wait(self) -> (b: bool)
        ensures
            b == self.spec_carries_wait(),
    {
        match self {
            SubmissionStatus::Incorrect | SubmissionStatus::TooSoon => true,
            _ => false,
        }
    }
}

} // verus!
