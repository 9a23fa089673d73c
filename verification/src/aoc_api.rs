//! The site's side of a submission: what is sent, and what its reply means.

use crate::configuration::Configuration;
use crate::domain::leaderboard::{
    leaderboard_of, Leaderboard, LeaderboardEntryErrorView, LeaderboardEntryView,
};
use crate::domain::ports::errors::AocClientError;
use crate::domain::submission::{Submission, SubmissionView};
use crate::domain::submission_result::{SubmissionResult, SubmissionResultView};
use crate::domain::submission_status::SubmissionStatus;
use crate::html::{
    plain_text, render_plain, select, select_within, selected, selected_within, Element,
    ElementView,
};
use crate::markup::{escape, escaped, is_steady, steady};
use crate::text::{
    chars_of, concat, concat_strings, decimal, decimal_string, find, find_token_end,
    first_occurrence, matches_at, parse_unsigned, read_unsigned, starts_with,
    token_end, trim, trim_end_matches, trimmed, without_trailing,
};
use vstd::prelude::*;
use vstd::string::*;

verus! {

/// A request for the transport to send.
#[derive(Debug, Clone, PartialEq, Eq)]
pub struct HttpRequest {
    pub url: String,
    pub body: String,
    pub content_type: String,
    pub origin: String,
    pub referer: String,
}

pub struct HttpRequestView {
    pub url: Seq<char>,
    pub body: Seq<char>,
    pub content_type: Seq<char>,
    pub origin: Seq<char>,
    pub referer: Seq<char>,
}

impl View for HttpRequest {
    type V = HttpRequestView;

    open spec fn view(&self) -> HttpRequestView {
        HttpRequestView {
            url: self.url@,
            body: self.body@,
            content_type: self.content_type@,
            origin: self.origin@,
            referer: self.referer@,
        }
    }
}

/// Where the site lives.
pub open spec fn site() -> Seq<char> {
    "https://adventofcode.com"@
}

/// The page of one day's riddle.
pub open spec fn day_url(year: usize, day: usize) -> Seq<char> {
    site() + "/"@ + decimal(year as nat) + "/day/"@ + decimal(day as nat)
}

/// The request that submits `submission`: a form posted to the day's
/// answer page, as a browser on that day's page would send it.
pub open spec fn answer_request(submission: SubmissionView) -> HttpRequestView {
    HttpRequestView {
        url: day_url(submission.year, submission.day) + "/answer"@,
        body: "level="@ + decimal(submission.part.level() as nat) + "&answer="@ + submission.answer,
        content_type: "application/x-www-form-urlencoded"@,
        origin: site(),
        referer: day_url(submission.year, submission.day),
    }
}

/// What the transport got back.
#[derive(Debug, Clone, PartialEq, Eq)]
pub struct HttpReply {
    pub status: u16,
    pub body: String,
}

/// The outcome that the opening words of `message` stand for. The first
/// opening that fits decides.
pub open spec fn classification(message: Seq<char>) -> SubmissionStatus {
    if "That's the right answer!"@.is_prefix_of(message) {
        SubmissionStatus::Correct
    } else if "You gave an answer too recently"@.is_prefix_of(message) {
        SubmissionStatus::TooSoon
    } else if "You don't seem to be solving the right level"@.is_prefix_of(message) {
        SubmissionStatus::WrongLevel
    } else {
        SubmissionStatus::Incorrect
    }
}

/// The words after which the site names the minutes to wait. The first
/// letter is left out, so that the marker fits at the start of a sentence
/// and inside one.
pub open spec fn wait_marker() -> Seq<char> {
    "lease wait "@
}

/// The number of minutes that `message` asks to wait: the word after the
/// first marker, where `one` stands for 1 and anything that is not a number
/// for 0. Without a marker it is 0.
pub open spec fn wait_minutes(message: Seq<char>) -> nat {
    match first_occurrence(message, wait_marker()) {
        None => 0,
        Some(at) => {
            let start = at + wait_marker().len();
            let word = message.subrange(start, token_end(message, start));
            if word == "one"@ {
                1
            } else {
                match parse_unsigned(word, u64::MAX as nat) {
                    Some(minutes) => minutes,
                    None => 0,
                }
            }
        },
    }
}

/// The wait that `message` asks for, in seconds. A wait too long to count
/// in 64 bits is no known wait.
pub open spec fn wait_seconds(message: Seq<char>) -> nat {
    if 60 * wait_minutes(message) <= u64::MAX {
        60 * wait_minutes(message)
    } else {
        0
    }
}

/// The text of the first element found, its pieces put together.
pub open spec fn first_text(found: Option<Seq<ElementView>>) -> Option<Seq<char>> {
    match found {
        Some(elements) => if elements.len() > 0 {
            Some(concat(elements[0].text))
        } else {
            None
        },
        None => None,
    }
}

pub fn first_text_of(found: &Option<Vec<Element>>) -> (text: Option<String>)
    ensures
        text.deep_view() == first_text(found.deep_view()),
{
    match found {
        Some(elements) => {
            if elements.len() > 0 {
                Some(concat_strings(&elements[0].text))
            } else {
                None
            }
        },
        None => None,
    }
}

/// What a submission with the reply `message`, received at `now`, goes
/// down as. A wait is read only from replies that carry one.
pub open spec fn classified(submission: SubmissionView, message: Seq<char>, now: i64)
    -> SubmissionResultView {
    let status = classification(message);
    SubmissionResultView {
        submission,
        status,
        message,
        submitted_at: now,
        wait_time: if status.carries_wait() {
            wait_seconds(message) as u64
        } else {
            0
        },
    }
}

pub open spec fn is_success(status: u16) -> bool {
    200 <= status < 300
}

/// The words that go with the status `status`, as the `http` crate lists
/// them; nothing where the number is no status or has no words.
pub uninterp spec fn reason_phrase(status: u16) -> Option<Seq<char>>;

/// Calls `reqwest::StatusCode::from_u16` and `StatusCode::canonical_reason`.
///
/// Believed: the result is a function of the argument alone.
#[verifier::external_body]
pub(crate) fn canonical_reason(status: u16) -> (reason: Option<String>)
    ensures
        reason.deep_view() == reason_phrase(status),
{
    reqwest::StatusCode::from_u16(status).ok()?.canonical_reason().map(String::from)
}

/// The words that `reason` gives for a status, or the words for a status
/// that has none.
pub open spec fn reason_or_unknown(reason: Option<Seq<char>>) -> Seq<char> {
    match reason {
        Some(words) => words,
        None => "<unknown status code>"@,
    }
}

/// A status as it is reported: the number, then the words that go with
/// it.
pub open spec fn status_report(status: u16, reason: Option<Seq<char>>) -> Seq<char> {
    "Status code: "@ + decimal(status as nat) + " "@ + reason_or_unknown(reason)
}

/// How a request for a riddle's input ended.
#[derive(Debug, Clone, Copy, PartialEq, Eq, Structural)]
pub enum ResponseStatus {
    Received,
    TooSoon,
    Error,
}

/// The input of a riddle, or the reason why there is none.
#[derive(Debug, Clone, PartialEq, Eq)]
pub struct InputResponse {
    pub body: String,
    pub status: ResponseStatus,
}

impl InputResponse {
    pub fn new(body: String, status: ResponseStatus) -> (r: Self)
        ensures
            r.body == body,
            r.status == status,
    {
        InputResponse { body, status }
    }

    pub fn failed() -> (r: Self)
        ensures
            r.body@ == "Failed to get input"@,
            r.status == ResponseStatus::Error,
    {
        Self::new(String::from_str("Failed to get input"), ResponseStatus::Error)
    }
}

/// What the site's reply to a request for an input means: the input
/// itself where the reply has the status 200 and is not the site's
/// request to wait, and else the reason in words.
pub open spec fn input_of(reply: Option<HttpReply>) -> (Seq<char>, ResponseStatus) {
    match reply {
        None => ("Failed to get input"@, ResponseStatus::Error),
        Some(reply) => if reply.status != 200 {
            (
                "Got a non-200 status code from the server. Is your token up to date?"@,
                ResponseStatus::Error,
            )
        } else if "Please don't repeatedly request this"@.is_prefix_of(reply.body@) {
            ("You have to wait for the input to be available"@, ResponseStatus::TooSoon)
        } else {
            (reply.body@, ResponseStatus::Received)
        },
    }
}

/// The text of all of `elements`, one after the other.
pub open spec fn text_of_all(elements: Seq<ElementView>) -> Seq<char>
    decreases elements.len(),
{
    if elements.len() == 0 {
        Seq::empty()
    } else {
        text_of_all(elements.drop_last()) + concat(elements.last().text)
    }
}

pub fn text_of_all_in(elements: &Vec<Element>) -> (s: String)
    ensures
        s@ == text_of_all(elements.deep_view()),
{
    let mut s = String::new();
    let mut i: usize = 0;
    while i < elements.len()
        invariant
            i <= elements.len(),
            s@ == text_of_all(elements.deep_view().take(i as int)),
        decreases elements.len() - i,
    {
        proof {
            let next = elements.deep_view().take(i + 1);
            assert(next.drop_last() =~= elements.deep_view().take(i as int));
            assert(next.last() == elements[i as int].deep_view());
        }
        s.append(concat_strings(&elements[i].text).as_str());
        i += 1;
    }
    assert(elements.deep_view().take(elements.len() as int) =~= elements.deep_view());
    s
}

/// The line of the leaderboard that the `id`-th entry of the page writes:
/// position, points and name with one space between them. An entry without
/// a position takes its number on the page; an entry without a name of its
/// own takes the text of its first link.
pub open spec fn board_line(
    id: int,
    entry: ElementView,
    positions: Seq<ElementView>,
    points: Seq<ElementView>,
    links: Seq<ElementView>,
) -> Seq<char> {
    let position = without_trailing(trimmed(text_of_all(positions)), ')');
    let name = trimmed(concat(entry.own_text));
    (if position.len() == 0 {
        decimal(id as nat)
    } else {
        position
    }) + " "@ + trimmed(text_of_all(points)) + " "@ + (if name.len() == 0 {
        if links.len() > 0 {
            concat(links[0].text)
        } else {
            Seq::empty()
        }
    } else {
        name
    })
}

pub open spec fn entry_selector() -> Seq<char> {
    ".leaderboard-entry"@
}

pub open spec fn position_selector() -> Seq<char> {
    ".leaderboard-position"@
}

pub open spec fn points_selector() -> Seq<char> {
    ".leaderboard-totalscore"@
}

pub open spec fn link_selector() -> Seq<char> {
    ".leaderboard-anon, a"@
}

/// The lines of the leaderboard on the page `body`.
pub open spec fn board_lines(body: Seq<char>) -> Option<Seq<Seq<char>>> {
    match (
        selected(body, entry_selector()),
        selected_within(body, entry_selector(), position_selector()),
        selected_within(body, entry_selector(), points_selector()),
        selected_within(body, entry_selector(), link_selector()),
    ) {
        (Some(entries), Some(positions), Some(points), Some(links)) => Some(
            Seq::new(
                entries.len(),
                |i: int| board_line(i, entries[i], positions[i], points[i], links[i]),
            ),
        ),
        _ => None,
    }
}

#[derive(Debug, Clone, PartialEq, Eq)]
pub struct AocApi {
    pub configuration: Configuration,
}

impl AocApi {
    pub fn new(configuration: Configuration) -> (api: Self)
        ensures
            api.configuration == configuration,
    {
        AocApi { configuration }
    }

    /// The selector of the paragraph in which the site answers a
    /// submission.
    pub open spec fn answer_selector() -> Seq<char> {
        "main > article > p"@
    }

    pub fn get_aoc_answer_selector() -> (selector: &'static str)
        ensures
            selector@ == Self::answer_selector(),
    {
        "main > article > p"
    }

    /// The site's answer in the page `body`, laid out in `width` columns;
    /// nothing where the page has no answer paragraph or the text cannot
    /// be laid out. The text of the paragraph is laid out as text: a `<`
    /// in it opens no tag and a `&` stands for itself. Text that is not
    /// steady is not laid out.
    pub open spec fn answer_message(body: Seq<char>, width: usize) -> Option<Seq<char>> {
        match first_text(selected(body, Self::answer_selector())) {
            Some(text) => if steady(text) {
                plain_text(escaped(text), width)
            } else {
                None
            },
            None => None,
        }
    }

    pub open spec fn width(self) -> usize {
        self.configuration.cli.output_width as usize
    }

    pub fn parse_submission_answer_body(&self, body: &str) -> (r: Result<String, AocClientError>)
        ensures
            match r {
                Ok(message) => Self::answer_message(body@, self.width()) == Some(message@),
                Err(e) => {
                    &&& Self::answer_message(body@, self.width()) is None
                    &&& e matches AocClientError::RuntimeError(reason)
                    &&& reason@ == "Failed to parse the answer"@
                },
            },
    {
        let found = select(body, Self::get_aoc_answer_selector());
        let rendered = match first_text_of(&found) {
            Some(text) => {
                if is_steady(text.as_str()) {
                    render_plain(
                        escape(text.as_str()).as_str(),
                        self.configuration.cli.output_width as usize,
                    )
                } else {
                    None
                }
            },
            None => None,
        };
        match rendered {
            Some(message) => Ok(message),
            None => Err(AocClientError::RuntimeError(String::from_str("Failed to parse the answer"))),
        }
    }

    pub fn day_page(year: usize, day: usize) -> (url: String)
        ensures
            url@ == day_url(year, day),
    {
        let mut url = String::from_str("https://adventofcode.com");
        url.append("/");
        url.append(decimal_string(year as u128).as_str());
        url.append("/day/");
        url.append(decimal_string(day as u128).as_str());
        url
    }

    pub fn answer_request(submission: &Submission) -> (request: HttpRequest)
        ensures
            request@ == answer_request(submission@),
    {
        let mut url = Self::day_page(submission.year, submission.day);
        url.append("/answer");
        let mut body = String::from_str("level=");
        body.append(decimal_string(submission.part.level() as u128).as_str());
        body.append("&answer=");
        body.append(submission.answer.as_str());
        HttpRequest {
            url,
            body,
            content_type: String::from_str("application/x-www-form-urlencoded"),
            origin: String::from_str("https://adventofcode.com"),
            referer: Self::day_page(submission.year, submission.day),
        }
    }

    /// One line of the leaderboard, as [`board_line`] says.
    pub fn leaderboard_line(
        id: usize,
        entry: &Element,
        positions: &Vec<Element>,
        points: &Vec<Element>,
        links: &Vec<Element>,
    ) -> (line: String)
        ensures
            line@ == board_line(
                id as int,
                entry.deep_view(),
                positions.deep_view(),
                points.deep_view(),
                links.deep_view(),
            ),
    {
        let position = trim_end_matches(trim(text_of_all_in(positions).as_str()).as_str(), ')');
        let name = trim(concat_strings(&entry.own_text).as_str());
        let mut line = if position.as_str().unicode_len() == 0 {
            decimal_string(id as u128)
        } else {
            position
        };
        line.append(" ");
        line.append(trim(text_of_all_in(points).as_str()).as_str());
        line.append(" ");
        if name.as_str().unicode_len() == 0 {
            if links.len() > 0 {
                line.append(concat_strings(&links[0].text).as_str());
            }
        } else {
            line.append(name.as_str());
        }
        assert(line@ =~= board_line(
            id as int,
            entry.deep_view(),
            positions.deep_view(),
            points.deep_view(),
            links.deep_view(),
        ));
        line
    }

    /// The lines of the leaderboard on the page `body`; nothing where the
    /// page cannot be searched.
    pub fn leaderboard_lines(body: &str) -> (lines: Option<Vec<String>>)
        ensures
            lines.deep_view() == board_lines(body@),
    {
        let entries = select(body, ".leaderboard-entry");
        let positions = select_within(body, ".leaderboard-entry", ".leaderboard-position");
        let points = select_within(body, ".leaderboard-entry", ".leaderboard-totalscore");
        let links = select_within(body, ".leaderboard-entry", ".leaderboard-anon, a");
        match (entries, positions, points, links) {
            (Some(entries), Some(positions), Some(points), Some(links)) => {
                let mut lines: Vec<String> = Vec::new();
                let mut i: usize = 0;
                while i < entries.len()
                    invariant
                        i <= entries.len(),
                        positions.len() == entries.len(),
                        points.len() == entries.len(),
                        links.len() == entries.len(),
                        lines.len() == i,
                        forall|k: int|
                            0 <= k < i ==> (#[trigger] lines[k])@ == board_line(
                                k,
                                entries.deep_view()[k],
                                positions.deep_view()[k],
                                points.deep_view()[k],
                                links.deep_view()[k],
                            ),
                    decreases entries.len() - i,
                {
                    lines.push(
                        Self::leaderboard_line(i, &entries[i], &positions[i], &points[i], &links[i]),
                    );
                    i += 1;
                }
                assert(lines.deep_view() =~= board_lines(body@)->0);
                Some(lines)
            },
            _ => None,
        }
    }

    /// Reads the leaderboard from the page `response_body`.
    pub fn parse_leaderboard_response(response_body: &str) -> (r: Result<
        Leaderboard,
        AocClientError,
    >)
        ensures
            match r {
                Ok(board) => board_lines(response_body@) matches Some(lines) && leaderboard_of(
                    lines,
                ) == Ok::<Seq<LeaderboardEntryView>, LeaderboardEntryErrorView>(board.deep_view()),
                Err(e) => e == AocClientError::GetLeaderboardError && match board_lines(
                    response_body@,
                ) {
                    Some(lines) => leaderboard_of(lines) is Err,
                    None => true,
                },
            },
    {
        match Self::leaderboard_lines(response_body) {
            Some(lines) => match Leaderboard::try_from(lines) {
                Ok(board) => Ok(board),
                Err(_) => Err(AocClientError::GetLeaderboardError),
            },
            None => Err(AocClientError::GetLeaderboardError),
        }
    }

    /// The request for the input of a day's riddle.
    pub fn input_request(year: usize, day: usize) -> (url: String)
        ensures
            url@ == day_url(year, day) + "/input"@,
    {
        let mut url = Self::day_page(year, day);
        url.append("/input");
        url
    }

    /// Reads the site's reply to a request for an input; `reply` is
    /// nothing where the transport failed.
    pub fn get_input(reply: Option<HttpReply>) -> (response: InputResponse)
        ensures
            (response.body@, response.status) == input_of(reply),
    {
        match reply {
            None => InputResponse::failed(),
            Some(reply) => {
                if reply.status != 200 {
                    InputResponse::new(
                        String::from_str(
                            "Got a non-200 status code from the server. Is your token up to date?",
                        ),
                        ResponseStatus::Error,
                    )
                } else if starts_with(reply.body.as_str(), "Please don't repeatedly request this") {
                    InputResponse::new(
                        String::from_str("You have to wait for the input to be available"),
                        ResponseStatus::TooSoon,
                    )
                } else {
                    InputResponse::new(reply.body, ResponseStatus::Received)
                }
            },
        }
    }

    pub fn classify(message: &str) -> (status: SubmissionStatus)
        ensures
            status == classification(message@),
    {
        if starts_with(message, "That's the right answer!") {
            SubmissionStatus::Correct
        } else if starts_with(message, "You gave an answer too recently") {
            SubmissionStatus::TooSoon
        } else if starts_with(message, "You don't seem to be solving the right level") {
            SubmissionStatus::WrongLevel
        } else {
            SubmissionStatus::Incorrect
        }
    }

    pub fn extract_wait_time_from_message(message: &str) -> (seconds: u64)
        ensures
            seconds == wait_seconds(message@),
    {
        let chars = chars_of(message);
        let marker = chars_of("lease wait ");
        match find(&chars, &marker) {
            None => 0,
            Some(at) => {
                assert(at + marker.len() <= chars.len());
                let start = at + marker.len();
                let end = find_token_end(&chars, start);
                let one = chars_of("one");
                let ghost word = chars@.subrange(start as int, end as int);
                let is_one = end - start == one.len() && matches_at(&chars, &one, start);
                let minutes = if is_one {
                    1
                } else {
                    match read_unsigned(&chars, start, end, u64::MAX) {
                        Some(minutes) => minutes,
                        None => 0,
                    }
                };
                assert(minutes == wait_minutes(message@));
                if minutes <= u64::MAX / 60 {
                    minutes * 60
                } else {
                    0
                }
            },
        }
    }

    /// The result that a submission with the reply `message` goes down as.
    pub fn classify_message(submission: Submission, message: String, now: i64) -> (r:
        SubmissionResult)
        ensures
            r@ == classified(submission@, message@, now),
    {
        let status = Self::classify(message.as_str());
        let wait_time = if status.carries_wait() {
            Self::extract_wait_time_from_message(message.as_str())
        } else {
            0
        };
        SubmissionResult::new(submission, status, message, now, wait_time)
    }

    /// The report of a status with the words `reason` for it.
    pub fn report_status(status: u16, reason: Option<String>) -> (report: String)
        ensures
            report@ == status_report(status, reason.deep_view()),
    {
        let mut report = String::from_str("Status code: ");
        report.append(decimal_string(status as u128).as_str());
        report.append(" ");
        match reason {
            Some(words) => report.append(words.as_str()),
            None => report.append("<unknown status code>"),
        }
        report
    }

    /// How the client names itself to the site: the program and its
    /// version, then where the program lives and how to reach its author.
    pub open spec fn user_agent() -> Seq<char> {
        "elv/0.13.3 (+https://github.com/kpagacz/elv author:konrad.pagacz@gmail.com)"@
    }

    pub fn aoc_elf_user_agent() -> (agent: String)
        ensures
            agent@ == Self::user_agent(),
    {
        String::from_str(
            "elv/0.13.3 (+https://github.com/kpagacz/elv author:konrad.pagacz@gmail.com)",
        )
    }

    /// Reads the site's reply to `submission`, received at `now`.
    ///
    /// A reply outside the 200s is an error that reports the status; so is a
    /// page without an answer paragraph, which is never taken for a wrong
    /// answer.
    pub fn submit_answer(&self, submission: Submission, reply: &HttpReply, now: i64) -> (r: Result<
        SubmissionResult,
        AocClientError,
    >)
        ensures
            match r {
                Ok(result) => {
                    &&& is_success(reply.status)
                    &&& Self::answer_message(reply.body@, self.width()) == Some(result.message@)
                    &&& result@ == classified(submission@, result.message@, now)
                },
                Err(AocClientError::SubmitAnswerError(reason)) => {
                    &&& !is_success(reply.status)
                    &&& reason@ == status_report(reply.status, reason_phrase(reply.status))
                },
                Err(AocClientError::RuntimeError(reason)) => {
                    &&& is_success(reply.status)
                    &&& Self::answer_message(reply.body@, self.width()) is None
                    &&& reason@ == "Failed to parse the answer"@
                },
                Err(_) => false,
            },
    {
        if reply.status < 200 || reply.status >= 300 {
            let reason = Self::report_status(reply.status, canonical_reason(reply.status));
            return Err(AocClientError::SubmitAnswerError(reason));
        }
        match self.parse_submission_answer_body(reply.body.as_str()) {
            Ok(message) => Ok(Self::classify_message(submission, message, now)),
            Err(e) => Err(e),
        }
    }
}

} // verus!
