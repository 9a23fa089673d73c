//! The way of one submission: what the history allows, what goes to the
//! site, and what is kept of the site's reply.
//!
//! The driver itself neither reads the history nor talks to the site. It is
//! told what happened ([`Event`]) and says what to do next ([`Action`]);
//! whoever runs it loads, sends and saves.

use crate::aoc_api::{
    answer_request, classification, classified, AocApi, HttpReply, HttpRequest,
};
use crate::cli_display::board_text;
use crate::clock::{day_start, start_of_day};
use crate::configuration::{Configuration, ProjectDirectories};
use crate::domain::leaderboard::leaderboard_of;
use crate::domain::ports::errors::AocClientError;
use crate::domain::private_leaderboard::{PrivateLeaderboard, PrivateLeaderboardResponse};
use crate::domain::stars::Stars;
use crate::http_description::{
    description_text, nth_answer, paragraph_selector, unsolved, HttpDescription,
};
use crate::input_cache::InputCacheError;
use crate::domain::riddle_part::RiddlePart;
use crate::domain::submission::{Submission, SubmissionView};
use crate::domain::submission_result::{SubmissionResult, SubmissionResultView};
use crate::submission_history::{
    first_attempt, first_correct, is_correct_for, lemma_correct_count_zero,
    lemma_first_attempt_push, lemma_first_correct_none, lemma_first_correct_push, remaining_wait,
    well_formed, Entries, SubmissionHistory, SubmissionHistoryError, SubmissionHistoryView,
};
use vstd::prelude::*;
use vstd::string::*;

verus! {

/// What the history says to a submission before anything is sent.
#[derive(Debug, Clone, PartialEq, Eq)]
pub enum Gate {
    /// The part is solved already; `message` is what the site said then.
    AlreadyCorrect { message: String },
    /// This very answer was given before; `message` is what the site said
    /// of it, `wait` the seconds still to wait for the part, if any.
    Repeated { message: String, wait: Option<i128> },
    /// The site still asks to wait `wait` seconds for the part.
    TooSoon { wait: i128 },
    /// Nothing stands in the way.
    Open,
}

pub enum GateView {
    AlreadyCorrect { message: Seq<char> },
    Repeated { message: Seq<char>, wait: Option<int> },
    TooSoon { wait: int },
    Open,
}

impl View for Gate {
    type V = GateView;

    open spec fn view(&self) -> GateView {
        match self {
            Gate::AlreadyCorrect { message } => GateView::AlreadyCorrect { message: message@ },
            Gate::Repeated { message, wait } => GateView::Repeated {
                message: message@,
                wait: match wait {
                    Some(seconds) => Some(*seconds as int),
                    None => None,
                },
            },
            Gate::TooSoon { wait } => GateView::TooSoon { wait: *wait as int },
            Gate::Open => GateView::Open,
        }
    }
}

/// What the history says to `submission` at `now`. The checks come in this
/// order, and the first that applies decides: a correct answer for the
/// part is known; this very answer was given before; the site's wait for
/// the part is not over. Without a history nothing stands in the way.
pub open spec fn gate(history: Option<Entries>, submission: SubmissionView, now: i64) -> GateView {
    match history {
        None => GateView::Open,
        Some(entries) => match first_correct(entries, submission.part) {
            Some(correct) => GateView::AlreadyCorrect { message: correct.message },
            None => match first_attempt(entries, submission) {
                Some(earlier) => GateView::Repeated {
                    message: earlier.message,
                    wait: remaining_wait(entries, submission.part, now),
                },
                None => match remaining_wait(entries, submission.part, now) {
                    Some(wait) => GateView::TooSoon { wait },
                    None => GateView::Open,
                },
            },
        },
    }
}

/// The entries of a history that could be had.
pub open spec fn known(history: Option<SubmissionHistory>) -> Option<Entries> {
    match history {
        Some(h) => Some(h@.submissions),
        None => None,
    }
}

/// The history to store once `result` has come in: the old one with
/// `result` at its end, or a new one for the result's day where there was
/// none. Outcomes that do not count towards the throttle are not stored.
pub open spec fn recorded(history: Option<SubmissionHistoryView>, result: SubmissionResultView)
    -> Option<SubmissionHistoryView> {
    if result.status.is_recorded() {
        Some(
            match history {
                Some(h) => SubmissionHistoryView {
                    submissions: h.submissions.push(result),
                    year: h.year,
                    day: h.day,
                },
                None => SubmissionHistoryView {
                    submissions: seq![result],
                    year: result.submission.year,
                    day: result.submission.day,
                },
            },
        )
    } else {
        None
    }
}

pub open spec fn history_view(history: Option<SubmissionHistory>) -> Option<SubmissionHistoryView> {
    match history {
        Some(h) => Some(h@),
        None => None,
    }
}

/// What the storage holds of a day's history.
#[derive(Debug, Clone, PartialEq, Eq)]
pub enum Stored {
    /// Nothing yet: the day was never touched.
    Missing,
    /// Something that cannot be read as a history.
    Unreadable { error: SubmissionHistoryError },
    /// The history.
    Found { history: SubmissionHistory },
}

/// The entries of the history that the storage holds, as far as it can be
/// had.
pub open spec fn kept(stored: Stored) -> Option<Entries> {
    match stored {
        Stored::Found { history } => Some(history@.submissions),
        _ => None,
    }
}

/// Where a submission stands.
#[derive(Debug, Clone, PartialEq, Eq)]
pub enum Workflow {
    /// The history was asked for.
    Loading { submission: Submission },
    /// The day is touched for the first time: its empty history is being
    /// stored.
    Creating { submission: Submission },
    /// The answer is on its way to the site. `history` is what could be
    /// had of the history.
    Sending { submission: Submission, history: Option<SubmissionHistory> },
    /// The history with the new result is being stored.
    Saving,
    /// Nothing is left to do.
    Done,
}

/// What happened since the last action.
#[derive(Debug, PartialEq, Eq)]
pub enum Event {
    /// The storage was asked at `now` and holds `stored`.
    Loaded { stored: Stored, now: i64 },
    /// The site replied at `now`, or the transport failed.
    Replied { reply: Result<HttpReply, AocClientError>, now: i64 },
    /// The history was stored, or could not be.
    Saved { outcome: Result<(), SubmissionHistoryError> },
}

/// How a submission ended.
#[derive(Debug, Clone, PartialEq, Eq)]
pub enum Outcome {
    /// The history stopped it.
    Stopped { gate: Gate },
    /// The site answered, and the answer is of a kind that is not stored.
    Answered { message: String },
    /// The site answered and the history holds the answer.
    Recorded,
    /// The site answered, but the history could not be stored.
    NotRecorded { error: SubmissionHistoryError },
    /// No answer could be had from the site.
    Failed { error: AocClientError },
    /// An event came for which the workflow did not wait.
    OutOfTurn,
}

/// What to do next.
#[derive(Debug, Clone, PartialEq, Eq)]
pub enum Action {
    /// Read the history of the day.
    Load { year: usize, day: usize },
    /// Store `history`, the empty history of a day that had none.
    Create { history: SubmissionHistory },
    /// Send `request` to the site.
    Send { request: HttpRequest },
    /// Show `message`, then store `history`.
    Save { history: SubmissionHistory, message: String },
    /// Stop.
    Finish { outcome: Outcome },
}

/// Why no input can be had.
#[derive(Debug, Clone, PartialEq, Eq)]
pub enum InputError {
    /// The calendar has no such day.
    InvalidDate,
    /// The riddle is not out yet.
    NotReleased,
    /// The site gave no input; `reason` says why.
    Failed { reason: String },
}

impl InputError {
    pub open spec fn description(self) -> Seq<char> {
        match self {
            InputError::InvalidDate => "Invalid date"@,
            InputError::NotReleased => "The input is not released yet"@,
            InputError::Failed { reason } => "Failed to get the input: "@ + reason@,
        }
    }

    pub fn to_string(&self) -> (s: String)
        ensures
            s@ == self.description(),
    {
        match self {
            InputError::InvalidDate => String::from_str("Invalid date"),
            InputError::NotReleased => String::from_str("The input is not released yet"),
            InputError::Failed { reason } => {
                let mut s = String::from_str("Failed to get the input: ");
                s.append(reason.as_str());
                s
            },
        }
    }
}

/// What to do to have the input of a riddle.
#[derive(Debug, Clone, PartialEq, Eq)]
pub enum InputStep {
    /// The input is at hand.
    Ready { input: String },
    /// Ask the site at `url`; before that, clear the cache if it proved
    /// unreadable.
    Fetch { url: String, clear_cache: bool },
    /// There is no input to be had.
    Refused { error: InputError },
}

/// Whether the riddle of the given day is out at `now`: riddles come out
/// at midnight of their day in December, on clocks five hours (18000
/// seconds) behind UTC.
/// Nothing where the calendar has no such day.
pub open spec fn released(year: usize, day: usize, now: i64) -> Option<bool> {
    if year <= i32::MAX && day <= u32::MAX {
        match start_of_day(18000, year as i32, 12, day as u32) {
            Some(start) => Some(now >= start),
            None => None,
        }
    } else {
        None
    }
}

/// The names and the places of the application's directories, as far as
/// they can be written.
pub open spec fn directory_list(dirs: ProjectDirectories) -> Seq<(Seq<char>, Seq<char>)> {
    (match dirs.config_dir {
        Some(place) => seq![("config"@, place@)],
        None => Seq::empty(),
    }) + (match dirs.cache_dir {
        Some(place) => seq![("cache"@, place@)],
        None => Seq::empty(),
    })
}

#[derive(Debug, Clone, PartialEq, Eq)]
pub struct Driver {
    pub configuration: Configuration,
}

impl Driver {
    pub fn new(configuration: Configuration) -> (driver: Self)
        ensures
            driver.configuration == configuration,
    {
        Driver { configuration }
    }

    pub open spec fn width(self) -> usize {
        self.configuration.cli.output_width as usize
    }

    pub fn is_input_released_yet(&self, year: usize, day: usize, now: i64) -> (r: Result<
        bool,
        InputError,
    >)
        ensures
            match r {
                Ok(out) => released(year, day, now) == Some(out),
                Err(e) => e == InputError::InvalidDate && released(year, day, now) is None,
            },
    {
        if year > i32::MAX as usize || day > u32::MAX as usize {
            return Err(InputError::InvalidDate);
        }
        match day_start(18000, year as i32, 12, day as u32) {
            Some(start) => Ok(now >= start),
            None => Err(InputError::InvalidDate),
        }
    }

    /// Says how to come by the input of the given day at `now`, when the
    /// cache answered the request for it with `cached`.
    ///
    /// A riddle that is not out has no input. A cached input is used as it
    /// is. Else the site is asked, and a cache that holds something
    /// unreadable is cleared first.
    pub fn input(
        &self,
        year: usize,
        day: usize,
        now: i64,
        cached: Result<String, InputCacheError>,
    ) -> (step: InputStep)
        ensures
            match released(year, day, now) {
                None => step == (InputStep::Refused { error: InputError::InvalidDate }),
                Some(false) => step == (InputStep::Refused { error: InputError::NotReleased }),
                Some(true) => match cached {
                    Ok(input) => step == (InputStep::Ready { input }),
                    Err(e) => step matches InputStep::Fetch { url, clear_cache } && url@
                        == crate::aoc_api::day_url(year, day) + "/input"@ && clear_cache == (e
                        is Load),
                },
            },
    {
        match self.is_input_released_yet(year, day, now) {
            Err(error) => InputStep::Refused { error },
            Ok(false) => InputStep::Refused { error: InputError::NotReleased },
            Ok(true) => match cached {
                Ok(input) => InputStep::Ready { input },
                Err(InputCacheError::Load(_)) => InputStep::Fetch {
                    url: AocApi::input_request(year, day),
                    clear_cache: true,
                },
                Err(_) => InputStep::Fetch {
                    url: AocApi::input_request(year, day),
                    clear_cache: false,
                },
            },
        }
    }

    /// Reads the site's reply to the request for an input; `reply` is
    /// nothing where the transport failed.
    pub fn input_received(reply: Option<HttpReply>) -> (r: Result<String, InputError>)
        ensures
            match r {
                Ok(input) => crate::aoc_api::input_of(reply) == (
                    input@,
                    crate::aoc_api::ResponseStatus::Received,
                ),
                Err(e) => e matches InputError::Failed { reason } && crate::aoc_api::input_of(
                    reply,
                ).0 == reason@ && crate::aoc_api::input_of(reply).1
                    != crate::aoc_api::ResponseStatus::Received,
            },
    {
        let response = AocApi::get_input(reply);
        match response.status {
            crate::aoc_api::ResponseStatus::Received => Ok(response.body),
            _ => Err(InputError::Failed { reason: response.body }),
        }
    }

    /// The description of a riddle as text for the terminal.
    pub fn get_description(&self, description: &HttpDescription) -> (r: Result<
        String,
        AocClientError,
    >)
        ensures
            match r {
                Ok(text) => description_text(description.body(), self.width()) == Some(text@),
                Err(e) => e == AocClientError::GetDescriptionError && description_text(
                    description.body(),
                    self.width(),
                ) is None,
            },
    {
        description.cli_fmt(&self.configuration)
    }

    /// The calendar of a year, read from the year's page.
    pub fn get_stars(&self, page: &str) -> (r: Result<Stars, AocClientError>)
        ensures
            match r {
                Ok(stars) => crate::domain::stars::first_calendar(
                    crate::html::selected_within(
                        page@,
                        crate::domain::stars::calendar_selector(),
                        crate::domain::stars::day_selector(),
                    ),
                ) == Some(stars.deep_view()),
                Err(e) => e == AocClientError::GetStarsError && crate::domain::stars::first_calendar(
                    crate::html::selected_within(
                        page@,
                        crate::domain::stars::calendar_selector(),
                        crate::domain::stars::day_selector(),
                    ),
                ) is None,
            },
    {
        Stars::parse_http_response(page)
    }

    /// The public leaderboard as text for the terminal, read from the
    /// leaderboard's page.
    pub fn get_leaderboard(&self, page: &str) -> (r: Result<String, AocClientError>)
        ensures
            match r {
                Ok(text) => crate::aoc_api::board_lines(page@) matches Some(lines) && leaderboard_of(
                    lines,
                ) matches Ok(entries) && text@ == board_text(entries),
                Err(e) => e == AocClientError::GetLeaderboardError && match crate::aoc_api::board_lines(
                    page@,
                ) {
                    Some(lines) => leaderboard_of(lines) is Err,
                    None => true,
                },
            },
    {
        match AocApi::parse_leaderboard_response(page) {
            Ok(board) => Ok(board.to_text()),
            Err(e) => Err(e),
        }
    }

    /// The private leaderboard of the members that the site reported,
    /// ranked.
    pub fn get_private_leaderboard(&self, response: PrivateLeaderboardResponse) -> (board:
        PrivateLeaderboard)
        ensures
            exists|entries: Seq<crate::domain::private_leaderboard::PrivateLeaderboardEntry>|
                {
                    &&& entries.len() == response.members.len()
                    &&& forall|i: int|
                        0 <= i < entries.len() ==> crate::domain::private_leaderboard::is_entry_of(
                            #[trigger] entries[i],
                            response.members[i],
                        )
                    &&& board.entries@ == crate::domain::private_leaderboard::ranked(entries)
                },
    {
        PrivateLeaderboard::from(response)
    }

    /// The list of `dirs`, as [`directory_list`] says.
    pub fn directories_of(dirs: ProjectDirectories) -> (list: Vec<(String, String)>)
        ensures
            list.deep_view() == directory_list(dirs),
    {
        let mut list: Vec<(String, String)> = Vec::new();
        if let Some(place) = dirs.config_dir {
            list.push((String::from_str("config"), place));
        }
        if let Some(place) = dirs.cache_dir {
            list.push((String::from_str("cache"), place));
        }
        assert(list.deep_view() =~= directory_list(dirs));
        list
    }

    /// The directories that the application uses on this system, each with
    /// its name; nothing where the system has no home for the user.
    pub fn list_app_directories(&self) -> (list: Option<Vec<(String, String)>>)
        ensures
            list matches Some(found) ==> exists|dirs: ProjectDirectories|
                found.deep_view() == directory_list(dirs),
    {
        match Configuration::get_project_directories() {
            Some(dirs) => Some(Self::directories_of(dirs)),
            None => None,
        }
    }

    /// The part of the riddle that is still to solve, read from the
    /// riddle's page.
    pub fn guess_riddle_part(&self, description: &HttpDescription) -> (r: Result<
        RiddlePart,
        AocClientError,
    >)
        ensures
            match r {
                Ok(part) => unsolved(
                    nth_answer(crate::html::selected(description.body(), paragraph_selector()), 0),
                    nth_answer(crate::html::selected(description.body(), paragraph_selector()), 1),
                ) == Some(part),
                Err(e) => e matches AocClientError::RuntimeError(reason) && reason@
                    == "Both parts answered"@ && unsolved(
                    nth_answer(crate::html::selected(description.body(), paragraph_selector()), 0),
                    nth_answer(crate::html::selected(description.body(), paragraph_selector()), 1),
                ) is None,
            },
    {
        match description.unsolved_part() {
            Some(part) => Ok(part),
            None => Err(AocClientError::RuntimeError(String::from_str("Both parts answered"))),
        }
    }

    /// Asks the history whether `submission` may go out at `now`.
    pub fn check(history: &Option<SubmissionHistory>, submission: &Submission, now: i64) -> (g:
        Gate)
        ensures
            g@ == gate(known(*history), submission@, now),
    {
        match history {
            None => Gate::Open,
            Some(h) => {
                if let Some(correct) = h.correct_submission(&submission.part) {
                    return Gate::AlreadyCorrect { message: correct.message.clone() };
                }
                let wait = h.wait_time(now, &submission.part);
                if let Some(earlier) = h.get_result_for_submission(submission) {
                    return Gate::Repeated { message: earlier.message.clone(), wait };
                }
                match wait {
                    Some(seconds) => Gate::TooSoon { wait: seconds },
                    None => Gate::Open,
                }
            },
        }
    }

    /// Puts `result` into the history if its outcome is one to store, and
    /// hands back the history to store.
    pub fn record(history: Option<SubmissionHistory>, result: SubmissionResult) -> (stored: Option<
        SubmissionHistory,
    >)
        ensures
            history_view(stored) == recorded(history_view(history), result@),
    {
        if !result.status.is_recorded() {
            return None;
        }
        let mut h = match history {
            Some(h) => h,
            None => SubmissionHistory::new(result.submission.year, result.submission.day),
        };
        h.add(result);
        proof {
            if history is None {
                assert(h@.submissions =~= seq![result@]);
            }
        }
        Some(h)
    }

    /// Begins the submission of `answer` for `part` of the riddle of `day`
    /// in `year`: the history is to be read first.
    pub fn submit_answer(&self, year: usize, day: usize, part: RiddlePart, answer: String) -> (next:
        (Workflow, Action))
        ensures
            next.0 matches Workflow::Loading { submission } && submission@ == (SubmissionView {
                part,
                answer: answer@,
                year,
                day,
            }),
            next.1 == (Action::Load { year, day }),
    {
        let submission = Submission::new(part, answer, year, day);
        (Workflow::Loading { submission }, Action::Load { year, day })
    }

    /// Whether `next` is the state and the action that follow when
    /// `event` reaches the workflow in `state`.
    pub open spec fn follows(self, state: Workflow, event: Event, next: (Workflow, Action)) -> bool {
        match (state, event) {
            (Workflow::Loading { submission }, Event::Loaded { stored: Stored::Missing, now }) => {
                &&& next.0 matches Workflow::Creating { submission: s }
                &&& s@ == submission@
                &&& next.1 matches Action::Create { history }
                &&& history@ == (SubmissionHistoryView {
                    submissions: Seq::empty(),
                    year: submission.year,
                    day: submission.day,
                })
            },
            (
                Workflow::Loading { submission },
                Event::Loaded { stored: Stored::Unreadable { error }, now },
            ) => {
                &&& next.0 matches Workflow::Sending { submission: s, history: None }
                &&& s@ == submission@
                &&& next.1 matches Action::Send { request }
                &&& request@ == answer_request(submission@)
            },
            (
                Workflow::Loading { submission },
                Event::Loaded { stored: Stored::Found { history }, now },
            ) => {
                match gate(Some(history@.submissions), submission@, now) {
                    GateView::Open => {
                        &&& next.0 matches Workflow::Sending { submission: s, history: Some(h) }
                        &&& s@ == submission@
                        &&& h@ == history@
                        &&& next.1 matches Action::Send { request }
                        &&& request@ == answer_request(submission@)
                    },
                    stop => {
                        &&& next.0 is Done
                        &&& next.1 matches Action::Finish { outcome: Outcome::Stopped { gate } }
                        &&& gate@ == stop
                    },
                }
            },
            (Workflow::Creating { submission }, Event::Saved { outcome }) => {
                &&& next.0 matches Workflow::Sending { submission: s, history: h }
                &&& s@ == submission@
                &&& history_view(h) == match outcome {
                    Ok(_) => Some(
                        SubmissionHistoryView {
                            submissions: Seq::empty(),
                            year: submission.year,
                            day: submission.day,
                        },
                    ),
                    Err(_) => None,
                }
                &&& next.1 matches Action::Send { request }
                &&& request@ == answer_request(submission@)
            },
            (Workflow::Sending { submission, history }, Event::Replied { reply: Ok(reply), now }) => {
                if !crate::aoc_api::is_success(reply.status) {
                    &&& next.0 is Done
                    &&& next.1 matches Action::Finish {
                        outcome: Outcome::Failed { error: AocClientError::SubmitAnswerError(reason) },
                    }
                    &&& reason@ == crate::aoc_api::status_report(
                        reply.status,
                        crate::aoc_api::reason_phrase(reply.status),
                    )
                } else {
                    match AocApi::answer_message(reply.body@, self.width()) {
                        None => {
                            &&& next.0 is Done
                            &&& next.1 matches Action::Finish {
                                outcome: Outcome::Failed { error: AocClientError::RuntimeError(reason) },
                            }
                            &&& reason@ == "Failed to parse the answer"@
                        },
                        Some(message) => {
                            match recorded(
                                history_view(history),
                                classified(submission@, message, now),
                            ) {
                                Some(stored) => {
                                    &&& next.0 is Saving
                                    &&& next.1 matches Action::Save { history: h, message: m }
                                    &&& h@ == stored
                                    &&& m@ == message
                                },
                                None => {
                                    &&& next.0 is Done
                                    &&& next.1 matches Action::Finish {
                                        outcome: Outcome::Answered { message: m },
                                    }
                                    &&& m@ == message
                                },
                            }
                        },
                    }
                }
            },
            (Workflow::Sending { submission, history }, Event::Replied { reply: Err(e), now }) => {
                &&& next.0 is Done
                &&& next.1 == (Action::Finish { outcome: Outcome::Failed { error: e } })
            },
            (Workflow::Saving, Event::Saved { outcome: Ok(_) }) => {
                &&& next.0 is Done
                &&& next.1 == (Action::Finish { outcome: Outcome::Recorded })
            },
            (Workflow::Saving, Event::Saved { outcome: Err(error) }) => {
                &&& next.0 is Done
                &&& next.1 == (Action::Finish { outcome: Outcome::NotRecorded { error } })
            },
            _ => {
                &&& next.0 is Done
                &&& next.1 == (Action::Finish { outcome: Outcome::OutOfTurn })
            },
        }
    }

    /// Takes the workflow one step on: from `state`, on `event`, to the
    /// next state and the action to perform.
    pub fn step(&self, state: Workflow, event: Event) -> (next: (Workflow, Action))
        ensures
            self.follows(state, event, next),
    {
        match (state, event) {
            (Workflow::Loading { submission }, Event::Loaded { stored: Stored::Missing, now }) => {
                let history = SubmissionHistory::new(submission.year, submission.day);
                (Workflow::Creating { submission }, Action::Create { history })
            },
            (
                Workflow::Loading { submission },
                Event::Loaded { stored: Stored::Unreadable { error }, now },
            ) => {
                let request = AocApi::answer_request(&submission);
                (Workflow::Sending { submission, history: None }, Action::Send { request })
            },
            (
                Workflow::Loading { submission },
                Event::Loaded { stored: Stored::Found { history }, now },
            ) => {
                let history = Some(history);
                match Self::check(&history, &submission, now) {
                    Gate::Open => {
                        let request = AocApi::answer_request(&submission);
                        (Workflow::Sending { submission, history }, Action::Send { request })
                    },
                    gate => (Workflow::Done, Action::Finish { outcome: Outcome::Stopped { gate } }),
                }
            },
            (Workflow::Creating { submission }, Event::Saved { outcome }) => {
                let history = match outcome {
                    Ok(_) => Some(SubmissionHistory::new(submission.year, submission.day)),
                    Err(_) => None,
                };
                let request = AocApi::answer_request(&submission);
                (Workflow::Sending { submission, history }, Action::Send { request })
            },
            (Workflow::Sending { submission, history }, Event::Replied { reply: Ok(reply), now }) => {
                let api = AocApi::new(self.configuration.clone());
                match api.submit_answer(submission, &reply, now) {
                    Err(error) => (
                        Workflow::Done,
                        Action::Finish { outcome: Outcome::Failed { error } },
                    ),
                    Ok(result) => {
                        let message = result.message.clone();
                        match Self::record(history, result) {
                            Some(history) => (Workflow::Saving, Action::Save { history, message }),
                            None => (
                                Workflow::Done,
                                Action::Finish { outcome: Outcome::Answered { message } },
                            ),
                        }
                    },
                }
            },
            (Workflow::Sending { submission, history }, Event::Replied { reply: Err(error), now }) => (
                Workflow::Done,
                Action::Finish { outcome: Outcome::Failed { error } },
            ),
            (Workflow::Saving, Event::Saved { outcome: Ok(_) }) => (
                Workflow::Done,
                Action::Finish { outcome: Outcome::Recorded },
            ),
            (Workflow::Saving, Event::Saved { outcome: Err(error) }) => (
                Workflow::Done,
                Action::Finish { outcome: Outcome::NotRecorded { error } },
            ),
            _ => (Workflow::Done, Action::Finish { outcome: Outcome::OutOfTurn }),
        }
    }
}

/// A request goes to the site only at two points: when the history was
/// read and did not stop the submission, or could not be read; and when
/// the day had no history and its empty one was just stored or could not
/// be.
pub proof fn law_sent_only_through_open_gate(
    driver: Driver,
    state: Workflow,
    event: Event,
    next: (Workflow, Action),
)
    requires
        driver.follows(state, event, next),
        next.1 is Send,
    ensures
        match (state, event) {
            (Workflow::Loading { submission }, Event::Loaded { stored, now }) => !(stored
                is Missing) && gate(kept(stored), submission@, now) is Open,
            (Workflow::Creating { submission }, Event::Saved { outcome }) => true,
            _ => false,
        },
{
}

/// Once the history holds a correct answer for a part, no submission for
/// that part goes to the site, whatever its answer: the workflow ends at
/// once with the message stored with the correct answer.
pub proof fn law_solved_part_is_never_sent(
    driver: Driver,
    history: SubmissionHistory,
    submission: Submission,
    now: i64,
    next: (Workflow, Action),
)
    requires
        first_correct(history@.submissions, submission.part) is Some,
        driver.follows(
            Workflow::Loading { submission },
            Event::Loaded { stored: Stored::Found { history }, now },
            next,
        ),
    ensures
        !(next.1 is Send),
        next.0 is Done,
        next.1 matches Action::Finish {
            outcome: Outcome::Stopped { gate: Gate::AlreadyCorrect { message } },
        } && message@ == first_correct(history@.submissions, submission.part)->0.message,
{
}

/// A correct answer, once in the history, stays its first correct answer
/// for that part whatever is put after it.
pub proof fn law_correct_answer_is_kept(
    entries: Entries,
    result: SubmissionResultView,
    part: RiddlePart,
)
    ensures
        first_correct(entries, part) is Some ==> first_correct(entries.push(result), part)
            == first_correct(entries, part),
        is_correct_for(result, part) ==> first_correct(entries.push(result), part) is Some,
{
    lemma_first_correct_push(entries, result, part);
}

/// A submission that went to the site and whose outcome was stored is
/// answered from the history when it is made again: it is stopped with the
/// very message that the site gave. This holds whenever the history let it
/// through (`now`), whenever the site replied (`replied`) and whenever it
/// is made again (`later`).
pub proof fn law_repeat_is_answered_from_history(
    entries: Entries,
    submission: SubmissionView,
    message: Seq<char>,
    now: i64,
    replied: i64,
    later: i64,
)
    requires
        gate(Some(entries), submission, now) is Open,
        classification(message).is_recorded(),
    ensures
        match gate(Some(entries.push(classified(submission, message, replied))), submission, later) {
            GateView::AlreadyCorrect { message: shown } => shown == message,
            GateView::Repeated { message: shown, wait } => shown == message,
            _ => false,
        },
{
    let result = classified(submission, message, replied);
    lemma_first_correct_push(entries, result, submission.part);
    lemma_first_attempt_push(entries, result, submission);
}

/// A submission that the history stopped with a stored message is stopped
/// with the same message when it is made again against the same history.
pub proof fn law_stopped_again_alike(
    entries: Entries,
    submission: SubmissionView,
    now: i64,
    later: i64,
)
    ensures
        gate(Some(entries), submission, now) matches GateView::AlreadyCorrect { message } ==> gate(
            Some(entries),
            submission,
            later,
        ) == (GateView::AlreadyCorrect { message }),
        gate(Some(entries), submission, now) matches GateView::Repeated { message, wait } ==> (gate(
            Some(entries),
            submission,
            later,
        ) matches GateView::Repeated { message: again, wait: left } && again == message),
{
}

/// The workflow keeps a history well formed: what it puts at the end of a
/// well-formed history that let the submission through leaves it well
/// formed.
pub proof fn law_workflow_keeps_history_well_formed(
    entries: Entries,
    submission: SubmissionView,
    message: Seq<char>,
    now: i64,
    replied: i64,
)
    requires
        well_formed(entries),
        gate(Some(entries), submission, now) is Open,
        classification(message).is_recorded(),
    ensures
        well_formed(entries.push(classified(submission, message, replied))),
{
    let result = classified(submission, message, replied);
    let longer = entries.push(result);
    assert(longer.drop_last() =~= entries);
    assert(longer.last() == result);
    lemma_first_correct_none(entries, submission.part);
    lemma_correct_count_zero(entries, submission.part);
    assert forall|i: int| 0 <= i < longer.len() implies (#[trigger] longer[i]).status.is_recorded() by {
        if i < entries.len() {
            assert(longer[i] == entries[i]);
        }
    }
}

} // verus!
