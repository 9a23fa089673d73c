use super::submission::{Submission, SubmissionView};
use super::submission_status::SubmissionStatus;
use vstd::prelude::*;

verus! {

/// The outcome of one submission, as the site gave it.
#[derive(Debug, PartialEq, Eq, Clone)]
pub struct SubmissionResult {
    pub submission: Submission,
    pub status: SubmissionStatus,
    pub message: String,
    /// When the answer was submitted, in seconds since the Unix epoch.
    pub submitted_at: i64,
    /// How long the site asked to wait before the next answer, in seconds.
    pub wait_time: u64,
}

pub struct SubmissionResultView {
    pub submission: SubmissionView,
    pub status: SubmissionStatus,
    pub message: Seq<char>,
    pub submitted_at: i64,
    pub wait_time: u64,
}

impl View for SubmissionResult {
    type V = SubmissionResultView;

    open spec fn view(&self) -> SubmissionResultView {
        SubmissionResultView {
            submission: self.submission@,
            status: self.status,
            message: self.message@,
            submitted_at: self.submitted_at,
            wait_time: self.wait_time,
        }
    }
}

impl SubmissionResult {
    pub fn new(
        submission: Submission,
        status: SubmissionStatus,
        message: String,
        submitted_at: i64,
        wait_time: u64,
    ) -> (r: Self)
        ensures
            r.submission == submission,
            r.status == status,
            r.message == message,
            r.submitted_at == submitted_at,
            r.wait_time == wait_time,
    {
        SubmissionResult { submission, status, message, submitted_at, wait_time }
    }
}

} // verus!
