use vstd::prelude::*;
use vstd::string::*;

verus! {

/// Why a request to the site came to nothing.
#[derive(Debug, Clone, PartialEq, Eq)]
pub enum AocClientError {
    GetLeaderboardError,
    GetStarsError,
    GetDescriptionError,
    SubmitAnswerError(String),
    IoError(String),
    URLParsingError(String),
    RuntimeError(String),
    NetworkError(String),
}

impl AocClientError {
    /// The error in words.
    pub open spec fn description(self) -> Seq<char> {
        match self {
            AocClientError::GetLeaderboardError => "Failed to get the leaderboard"@,
            AocClientError::GetStarsError => "Failed to get stars"@,
            AocClientError::GetDescriptionError => "Failed to get the description"@,
            AocClientError::SubmitAnswerError(reason) => "Failed to submit the answer: "@ + reason@,
            AocClientError::IoError(_) => "IO error"@,
            AocClientError::URLParsingError(_) => "URL parsing"@,
            AocClientError::RuntimeError(_) => "Runtime error"@,
            AocClientError::NetworkError(_) => "Network error"@,
        }
    }

    pub fn to_string(&self) -> (s: String)
        ensures
            s@ == self.description(),
    {
        match self {
            AocClientError::GetLeaderboardError => String::from_str("Failed to get the leaderboard"),
            AocClientError::GetStarsError => String::from_str("Failed to get stars"),
            AocClientError::GetDescriptionError => String::from_str("Failed to get the description"),
            AocClientError::SubmitAnswerError(reason) => {
                let mut s = String::from_str("Failed to submit the answer: ");
                s.append(reason.as_str());
                s
            },
            AocClientError::IoError(_) => String::from_str("IO error"),
            AocClientError::URLParsingError(_) => String::from_str("URL parsing"),
            AocClientError::RuntimeError(_) => String::from_str("Runtime error"),
            AocClientError::NetworkError(_) => String::from_str("Network error"),
        }
    }
}

} // verus!
