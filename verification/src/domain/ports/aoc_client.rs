use super::errors::AocClientError;
use crate::domain::description::Description;
use crate::domain::submission::Submission;
use crate::domain::submission_result::SubmissionResult;
use vstd::prelude::*;

verus! {

pub trait AocClient {
    type Desc: Description;

    fn submit_answer(&self, submission: Submission) -> Result<SubmissionResult, AocClientError>;

    fn get_description(&self, year: usize, day: usize) -> Result<Self::Desc, AocClientError>;
}

} // verus!
