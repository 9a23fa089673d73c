use chrono::TimeZone;
use elv::aoc_api::{AocApi, HttpReply, HttpRequest};
use elv::configuration::{Configuration, ProjectDirectories};
use elv::domain::ports::errors::AocClientError;
use elv::domain::private_leaderboard::{
    DayResults, MemberResults, PrivateLeaderboardResponse, StageResults,
};
use elv::domain::riddle_part::RiddlePart;
use elv::domain::solved_parts::SolvedParts;
use elv::domain::submission::Submission;
use elv::domain::submission_result::SubmissionResult;
use elv::domain::submission_status::SubmissionStatus;
use elv::driver::{
    Action, Driver, Event, Gate, InputError, InputStep, Outcome, Stored, Workflow,
};
use elv::http_description::HttpDescription;
use elv::input_cache::InputCacheError;
use elv::submission_history::{SubmissionHistory, SubmissionHistoryError};
use std::collections::HashMap;

fn driver() -> Driver {
    Driver::new(Configuration::default())
}

fn page(message: &str) -> String {
    format!("<html><body><main><article><p>{}</p></article></main></body></html>", message)
}

fn reply(message: &str) -> HttpReply {
    HttpReply { status: 200, body: page(message) }
}

fn stored(part: RiddlePart, answer: &str, status: SubmissionStatus, message: &str, at: i64, wait: u64) -> SubmissionResult {
    SubmissionResult::new(
        Submission::new(part, answer.to_owned(), 2020, 1),
        status,
        message.to_owned(),
        at,
        wait,
    )
}

/// Runs a submission to its end. `site` answers each request that is sent;
/// the history is read from `storage` and written back to it.
fn run(
    driver: &Driver,
    storage: &mut Option<SubmissionHistory>,
    part: RiddlePart,
    answer: &str,
    now: i64,
    site: &mut Vec<HttpReply>,
) -> (Outcome, Vec<HttpRequest>, Vec<String>) {
    let mut sent = Vec::new();
    let mut shown = Vec::new();
    let (mut state, mut action) = driver.submit_answer(2020, 1, part, answer.to_owned());
    loop {
        let event = match action {
            Action::Load { year, day } => {
                assert_eq!((year, day), (2020, 1));
                let stored = match storage.clone() {
                    Some(history) => Stored::Found { history },
                    None => Stored::Missing,
                };
                Event::Loaded { stored, now }
            }
            Action::Create { history } => {
                assert_eq!(history, SubmissionHistory::new(2020, 1));
                *storage = Some(history);
                Event::Saved { outcome: Ok(()) }
            }
            Action::Send { request } => {
                sent.push(request);
                Event::Replied { reply: Ok(site.remove(0)), now }
            }
            Action::Save { history, message } => {
                shown.push(message);
                *storage = Some(history);
                Event::Saved { outcome: Ok(()) }
            }
            Action::Finish { outcome } => {
                assert_eq!(state, Workflow::Done);
                return (outcome, sent, shown);
            }
        };
        let next = driver.step(state, event);
        state = next.0;
        action = next.1;
    }
}

#[test]
fn driver_test_is_input_released_yet() {
    let driver = driver();
    let now = chrono::Utc.with_ymd_and_hms(2022, 12, 1, 5, 0, 0).unwrap();
    for (year, day, expected) in &[
        (2019, 1, true),
        (2020, 1, true),
        (2021, 1, true),
        (2022, 1, true),
        (2022, 2, false),
        (2023, 1, false),
        (2024, 1, false),
    ] {
        assert_eq!(
            driver.is_input_released_yet(*year, *day, now.timestamp()).unwrap(),
            *expected,
            "Input for {}-{} should be released: {}",
            year,
            day,
            expected
        );
    }
}

#[test]
fn input_is_released_at_midnight_five_hours_behind_utc() {
    let driver = driver();
    let midnight = chrono::Utc.with_ymd_and_hms(2022, 12, 1, 5, 0, 0).unwrap().timestamp();
    assert_eq!(midnight, 1669870800);
    assert_eq!(driver.is_input_released_yet(2022, 1, midnight - 1), Ok(false));
    assert_eq!(driver.is_input_released_yet(2022, 1, midnight), Ok(true));
    assert_eq!(driver.is_input_released_yet(2022, 31, midnight + 30 * 86400), Ok(true));
}

#[test]
fn driver_test_invalid_date_to_input() {
    let driver = driver();
    let input = driver.input(0, 0, 0, Err(InputCacheError::Empty(String::new())));
    match input {
        InputStep::Refused { error } => {
            assert_eq!(error, InputError::InvalidDate);
            assert!(error.to_string() == "Invalid date");
        }
        other => panic!("the input of no day was not refused: {:?}", other),
    }
}

#[test]
fn day_that_december_lacks_is_invalid() {
    let driver = driver();
    assert_eq!(driver.is_input_released_yet(2022, 32, 0), Err(InputError::InvalidDate));
    assert_eq!(driver.is_input_released_yet(2022, 0, 0), Err(InputError::InvalidDate));
    assert_eq!(driver.is_input_released_yet(usize::MAX, 1, 0), Err(InputError::InvalidDate));
    assert_eq!(driver.is_input_released_yet(2022, usize::MAX, 0), Err(InputError::InvalidDate));
}

#[test]
fn input_that_is_not_out_is_refused() {
    let step = driver().input(2022, 2, 1669870800, Ok("cached".to_owned()));
    assert_eq!(step, InputStep::Refused { error: InputError::NotReleased });
    match step {
        InputStep::Refused { error } => assert_eq!(error.to_string(), "The input is not released yet"),
        _ => unreachable!(),
    }
}

#[test]
fn cached_input_is_used() {
    let step = driver().input(2022, 1, 1669870800, Ok("cached".to_owned()));
    assert_eq!(step, InputStep::Ready { input: "cached".to_owned() });
}

#[test]
fn missing_input_is_fetched() {
    let step = driver().input(2022, 1, 1669870800, Err(InputCacheError::Empty("none".to_owned())));
    assert_eq!(
        step,
        InputStep::Fetch { url: "https://adventofcode.com/2022/day/1/input".to_owned(), clear_cache: false }
    );
    let step = driver().input(2022, 1, 1669870800, Err(InputCacheError::Save));
    assert_eq!(
        step,
        InputStep::Fetch { url: "https://adventofcode.com/2022/day/1/input".to_owned(), clear_cache: false }
    );
}

#[test]
fn unreadable_cache_is_cleared_before_fetching() {
    let step = driver().input(2022, 1, 1669870800, Err(InputCacheError::Load("broken".to_owned())));
    assert_eq!(
        step,
        InputStep::Fetch { url: "https://adventofcode.com/2022/day/1/input".to_owned(), clear_cache: true }
    );
}

#[test]
fn received_input_is_handed_on() {
    let reply = HttpReply { status: 200, body: "1\n2\n3\n".to_owned() };
    assert_eq!(Driver::input_received(Some(reply)), Ok("1\n2\n3\n".to_owned()));
}

#[test]
fn input_that_the_site_refuses_is_an_error() {
    let reply = HttpReply { status: 500, body: "1\n2\n3\n".to_owned() };
    let error = Driver::input_received(Some(reply)).unwrap_err();
    assert_eq!(
        error.to_string(),
        "Failed to get the input: Got a non-200 status code from the server. Is your token up to date?"
    );
    let reply = HttpReply {
        status: 200,
        body: "Please don't repeatedly request this endpoint before it unlocks!".to_owned(),
    };
    assert_eq!(
        Driver::input_received(Some(reply)),
        Err(InputError::Failed { reason: "You have to wait for the input to be available".to_owned() })
    );
    assert_eq!(
        Driver::input_received(None),
        Err(InputError::Failed { reason: "Failed to get input".to_owned() })
    );
}

#[test]
fn submission_begins_with_reading_the_history() {
    let (state, action) = driver().submit_answer(2020, 1, RiddlePart::Two, "7".to_owned());
    assert_eq!(
        state,
        Workflow::Loading { submission: Submission::new(RiddlePart::Two, "7".to_owned(), 2020, 1) }
    );
    assert_eq!(action, Action::Load { year: 2020, day: 1 });
}

#[test]
fn gate_is_open_without_a_history() {
    let submission = Submission::new(RiddlePart::One, "7".to_owned(), 2020, 1);
    assert_eq!(Driver::check(&None, &submission, 0), Gate::Open);
    assert_eq!(Driver::check(&Some(SubmissionHistory::new(2020, 1)), &submission, 0), Gate::Open);
}

#[test]
fn gate_checks_in_order() {
    let submission = Submission::new(RiddlePart::One, "7".to_owned(), 2020, 1);
    let mut history = SubmissionHistory::new(2020, 1);
    history.add(stored(RiddlePart::One, "5", SubmissionStatus::Incorrect, "too low", 1000, 600));
    assert_eq!(Driver::check(&Some(history.clone()), &submission, 1100), Gate::TooSoon { wait: 500 });
    assert_eq!(Driver::check(&Some(history.clone()), &submission, 1600), Gate::Open);

    history.add(stored(RiddlePart::One, "7", SubmissionStatus::Incorrect, "too high", 1700, 60));
    assert_eq!(
        Driver::check(&Some(history.clone()), &submission, 1710),
        Gate::Repeated { message: "too high".to_owned(), wait: Some(50) }
    );
    assert_eq!(
        Driver::check(&Some(history.clone()), &submission, 1760),
        Gate::Repeated { message: "too high".to_owned(), wait: None }
    );

    history.add(stored(RiddlePart::One, "6", SubmissionStatus::Correct, "right", 1800, 0));
    assert_eq!(
        Driver::check(&Some(history.clone()), &submission, 1801),
        Gate::AlreadyCorrect { message: "right".to_owned() }
    );
    let other_part = Submission::new(RiddlePart::Two, "7".to_owned(), 2020, 1);
    assert_eq!(Driver::check(&Some(history), &other_part, 1801), Gate::Open);
}

#[test]
fn same_submission_twice_reaches_the_site_once() {
    let driver = driver();
    let mut storage = Some(SubmissionHistory::new(2020, 1));
    let mut site = vec![reply("That's not the right answer; your answer is too low. Please wait one minute before trying again.")];

    let (first, sent, shown) = run(&driver, &mut storage, RiddlePart::One, "7", 1000, &mut site);
    assert_eq!(first, Outcome::Recorded);
    assert_eq!(sent.len(), 1);
    assert_eq!(sent[0], AocApi::answer_request(&Submission::new(RiddlePart::One, "7".to_owned(), 2020, 1)));
    let message = "That's not the right answer; your answer is too low. Please wait one minute before trying again.\n";
    assert_eq!(shown, vec![message.to_owned()]);

    let (second, sent, shown) = run(&driver, &mut storage, RiddlePart::One, "7", 1010, &mut site);
    assert_eq!(
        second,
        Outcome::Stopped { gate: Gate::Repeated { message: message.to_owned(), wait: Some(50) } }
    );
    assert!(sent.is_empty());
    assert!(shown.is_empty());

    let (third, sent, _) = run(&driver, &mut storage, RiddlePart::One, "7", 5000, &mut site);
    assert_eq!(
        third,
        Outcome::Stopped { gate: Gate::Repeated { message: message.to_owned(), wait: None } }
    );
    assert!(sent.is_empty());
    assert_eq!(storage.unwrap().get_submissions().len(), 1);
}

#[test]
fn solved_part_never_reaches_the_site_again() {
    let driver = driver();
    let mut storage = Some(SubmissionHistory::new(2020, 1));
    let right = "That's the right answer! You are one gold star closer to saving your vacation.";
    let mut site = vec![reply(right)];

    let (first, sent, _) = run(&driver, &mut storage, RiddlePart::One, "7", 1000, &mut site);
    assert_eq!(first, Outcome::Recorded);
    assert_eq!(sent.len(), 1);

    for answer in ["7", "8", "", "anything else"] {
        let (again, sent, _) = run(&driver, &mut storage, RiddlePart::One, answer, 2000, &mut site);
        assert_eq!(
            again,
            Outcome::Stopped { gate: Gate::AlreadyCorrect { message: format!("{}\n", right) } }
        );
        assert!(sent.is_empty());
    }
    assert_eq!(storage.as_ref().unwrap().get_submissions().len(), 1);

    let mut site = vec![reply("That's not the right answer.")];
    let (other_part, sent, _) = run(&driver, &mut storage, RiddlePart::Two, "7", 2000, &mut site);
    assert_eq!(other_part, Outcome::Recorded);
    assert_eq!(sent.len(), 1);
}

#[test]
fn waiting_part_does_not_reach_the_site() {
    let driver = driver();
    let mut history = SubmissionHistory::new(2020, 1);
    history.add(stored(RiddlePart::One, "5", SubmissionStatus::Incorrect, "too low", 1000, 600));
    let mut storage = Some(history);
    let mut site = vec![];
    let (outcome, sent, _) = run(&driver, &mut storage, RiddlePart::One, "6", 1100, &mut site);
    assert_eq!(outcome, Outcome::Stopped { gate: Gate::TooSoon { wait: 500 } });
    assert!(sent.is_empty());
}

#[test]
fn answer_for_the_wrong_level_is_not_recorded() {
    let driver = driver();
    let mut storage = Some(SubmissionHistory::new(2020, 1));
    let wrong_level = "You don't seem to be solving the right level.  Did you already complete it?";
    let mut site = vec![reply(wrong_level), reply(wrong_level)];
    let (outcome, sent, shown) = run(&driver, &mut storage, RiddlePart::One, "7", 1000, &mut site);
    assert_eq!(
        outcome,
        Outcome::Answered { message: "You don't seem to be solving the right level. Did you already complete it?\n".to_owned() }
    );
    assert_eq!(sent.len(), 1);
    assert!(shown.is_empty());
    assert!(storage.as_ref().unwrap().get_submissions().is_empty());

    let (_, sent, _) = run(&driver, &mut storage, RiddlePart::One, "7", 1001, &mut site);
    assert_eq!(sent.len(), 1);
}

#[test]
fn submission_without_history_starts_a_new_one() {
    let driver = driver();
    let mut storage = None;
    let mut site = vec![reply("You gave an answer too recently; you have to wait. Please wait 2 minutes.")];
    let (outcome, sent, _) = run(&driver, &mut storage, RiddlePart::Two, "7", 1000, &mut site);
    assert_eq!(outcome, Outcome::Recorded);
    assert_eq!(sent.len(), 1);
    let history = storage.unwrap();
    assert_eq!((history.year(), history.day()), (2020, 1));
    assert_eq!(history.get_submissions().len(), 1);
    let entry = &history.get_submissions()[0];
    assert_eq!(entry.status, SubmissionStatus::TooSoon);
    assert_eq!(entry.submitted_at, 1000);
    assert_eq!(entry.wait_time, 120);
    assert_eq!(entry.submission, Submission::new(RiddlePart::Two, "7".to_owned(), 2020, 1));
}

#[test]
fn failed_transport_ends_the_submission() {
    let driver = driver();
    let submission = Submission::new(RiddlePart::One, "7".to_owned(), 2020, 1);
    let state = Workflow::Sending { submission, history: None };
    let error = AocClientError::NetworkError("unreachable".to_owned());
    let (state, action) = driver.step(state, Event::Replied { reply: Err(error.clone()), now: 0 });
    assert_eq!(state, Workflow::Done);
    assert_eq!(action, Action::Finish { outcome: Outcome::Failed { error } });
}

#[test]
fn unreadable_reply_ends_the_submission_and_records_nothing() {
    let driver = driver();
    let submission = Submission::new(RiddlePart::One, "7".to_owned(), 2020, 1);
    let state = Workflow::Sending { submission: submission.clone(), history: Some(SubmissionHistory::new(2020, 1)) };
    let event = Event::Replied { reply: Ok(HttpReply { status: 200, body: "<main></main>".to_owned() }), now: 0 };
    let (state, action) = driver.step(state, event);
    assert_eq!(state, Workflow::Done);
    assert_eq!(
        action,
        Action::Finish {
            outcome: Outcome::Failed {
                error: AocClientError::RuntimeError("Failed to parse the answer".to_owned())
            }
        }
    );

    let state = Workflow::Sending { submission, history: None };
    let event = Event::Replied { reply: Ok(HttpReply { status: 500, body: page("That's the right answer!") }), now: 0 };
    let (state, action) = driver.step(state, event);
    assert_eq!(state, Workflow::Done);
    assert_eq!(
        action,
        Action::Finish {
            outcome: Outcome::Failed {
                error: AocClientError::SubmitAnswerError("Status code: 500 Internal Server Error".to_owned())
            }
        }
    );
}

#[test]
fn failed_save_is_reported() {
    let driver = driver();
    let error = SubmissionHistoryError::Save("disk full".to_owned());
    let (state, action) = driver.step(Workflow::Saving, Event::Saved { outcome: Err(error.clone()) });
    assert_eq!(state, Workflow::Done);
    assert_eq!(action, Action::Finish { outcome: Outcome::NotRecorded { error } });
    let (state, action) = driver.step(Workflow::Saving, Event::Saved { outcome: Ok(()) });
    assert_eq!(state, Workflow::Done);
    assert_eq!(action, Action::Finish { outcome: Outcome::Recorded });
}

#[test]
fn event_out_of_turn_ends_the_workflow() {
    let driver = driver();
    let submission = Submission::new(RiddlePart::One, "7".to_owned(), 2020, 1);
    let out_of_turn = Action::Finish { outcome: Outcome::OutOfTurn };
    let (state, action) = driver.step(
        Workflow::Loading { submission: submission.clone() },
        Event::Saved { outcome: Ok(()) },
    );
    assert_eq!((state, action), (Workflow::Done, out_of_turn.clone()));
    let (state, action) = driver.step(Workflow::Done, Event::Loaded { stored: Stored::Missing, now: 0 });
    assert_eq!((state, action), (Workflow::Done, out_of_turn.clone()));
    let (state, action) = driver.step(
        Workflow::Creating { submission: submission.clone() },
        Event::Loaded { stored: Stored::Missing, now: 0 },
    );
    assert_eq!((state, action), (Workflow::Done, out_of_turn.clone()));
    let (state, action) = driver.step(
        Workflow::Saving,
        Event::Replied { reply: Ok(reply("That's the right answer!")), now: 0 },
    );
    assert_eq!((state, action), (Workflow::Done, out_of_turn.clone()));
    let (state, action) = driver.step(
        Workflow::Sending { submission, history: None },
        Event::Loaded { stored: Stored::Missing, now: 0 },
    );
    assert_eq!((state, action), (Workflow::Done, out_of_turn));
}

#[test]
fn record_keeps_only_what_counts() {
    let kept = stored(RiddlePart::One, "7", SubmissionStatus::Incorrect, "no", 10, 60);
    let history = Driver::record(None, kept.clone()).unwrap();
    assert_eq!(history, SubmissionHistory::from_parts(2020, 1, vec![kept.clone()]));
    let more = stored(RiddlePart::One, "8", SubmissionStatus::Correct, "yes", 20, 0);
    let history = Driver::record(Some(history), more.clone()).unwrap();
    assert_eq!(history, SubmissionHistory::from_parts(2020, 1, vec![kept, more]));
    let skipped = stored(RiddlePart::One, "9", SubmissionStatus::WrongLevel, "level", 30, 0);
    assert_eq!(Driver::record(Some(history.clone()), skipped), None);
    let unknown = stored(RiddlePart::One, "9", SubmissionStatus::Unknown, "?", 30, 0);
    assert_eq!(Driver::record(Some(history), unknown), None);
}

#[test]
fn directories_are_listed_by_name() {
    let dirs = ProjectDirectories {
        config_dir: Some("/home/elf/.config/elv".to_owned()),
        cache_dir: Some("/home/elf/.cache/elv".to_owned()),
    };
    assert_eq!(
        Driver::directories_of(dirs),
        vec![
            ("config".to_owned(), "/home/elf/.config/elv".to_owned()),
            ("cache".to_owned(), "/home/elf/.cache/elv".to_owned()),
        ]
    );
    let dirs = ProjectDirectories { config_dir: None, cache_dir: Some("c".to_owned()) };
    assert_eq!(Driver::directories_of(dirs), vec![("cache".to_owned(), "c".to_owned())]);
    let dirs = ProjectDirectories { config_dir: None, cache_dir: None };
    assert!(Driver::directories_of(dirs).is_empty());
}

#[test]
fn application_directories_have_known_names() {
    if let Some(list) = driver().list_app_directories() {
        assert!(list.len() <= 2);
        for (name, place) in list {
            assert!(name == "config" || name == "cache");
            assert!(place.ends_with("elv"));
        }
    }
}

#[test]
fn leaderboard_page_is_written_out() {
    let page = r#"<html><body><main>
<div class="leaderboard-entry"><span class="leaderboard-position">  1)</span> <span class="leaderboard-totalscore">3693</span>  <a href="https://github.com/betaveros" target="_blank">betaveros</a></div>
<div class="leaderboard-entry"><span class="leaderboard-position">  2)</span> <span class="leaderboard-totalscore">3042</span>  <span class="leaderboard-anon">(anonymous user #1510407)</span></div>
<div class="leaderboard-entry"><span class="leaderboard-totalscore">2990</span> plain name <a href="/x">(AoC++)</a></div>
</main></body></html>"#;
    assert_eq!(
        AocApi::leaderboard_lines(page),
        Some(vec![
            "1 3693 betaveros".to_owned(),
            "2 3042 (anonymous user #1510407)".to_owned(),
            "2 2990 plain name".to_owned(),
        ])
    );
    assert_eq!(
        driver().get_leaderboard(page),
        Ok("1) 3693 betaveros\n2) 3042 (anonymous user #1510407)\n2) 2990 plain name".to_owned())
    );
}

#[test]
fn leaderboard_page_with_a_bad_entry_is_an_error() {
    let page = r#"<div class="leaderboard-entry"><span class="leaderboard-position">1)</span> <span class="leaderboard-totalscore">many</span> me</div>"#;
    assert_eq!(driver().get_leaderboard(page), Err(AocClientError::GetLeaderboardError));
    assert_eq!(driver().get_leaderboard("<main></main>"), Ok(String::new()));
}

#[test]
fn stars_are_read_from_the_page_of_a_year() {
    let page = r#"<pre class="calendar"><a class="calendar-day1 calendar-complete">a *<span>*</span></a></pre>"#;
    let stars = driver().get_stars(page).unwrap();
    assert_eq!(stars.stars, vec![SolvedParts::One]);
    assert_eq!(stars.pattern, vec!["a *".to_owned()]);
    assert_eq!(driver().get_stars("<p></p>"), Err(AocClientError::GetStarsError));
}

#[test]
fn description_is_written_for_the_configured_width() {
    let body = r#"<main><article class="day-desc"><p>one two three four five six seven eight nine ten</p></article></main>"#;
    let description = HttpDescription::new(2022, 1, body.to_owned());
    let mut configuration = Configuration::default();
    configuration.cli.output_width = 20;
    let text = Driver::new(configuration).get_description(&description).unwrap();
    assert_eq!(text, "one two three four\nfive six seven eight\nnine ten\n");
    assert_eq!(
        driver().get_description(&description).unwrap(),
        "one two three four five six seven eight nine ten\n"
    );
}

#[test]
fn riddle_part_is_guessed_from_the_answers_on_the_page() {
    let none = HttpDescription::new(2022, 1, "<main><p>To begin.</p></main>".to_owned());
    assert_eq!(driver().guess_riddle_part(&none), Ok(RiddlePart::One));
    let one = HttpDescription::new(2022, 1, "<main><p>Your puzzle answer was 1.</p></main>".to_owned());
    assert_eq!(driver().guess_riddle_part(&one), Ok(RiddlePart::Two));
    let both = HttpDescription::new(
        2022,
        1,
        "<main><p>Your puzzle answer was 1.</p><p>Your puzzle answer was 2.</p></main>".to_owned(),
    );
    assert_eq!(
        driver().guess_riddle_part(&both),
        Err(AocClientError::RuntimeError("Both parts answered".to_owned()))
    );
}

fn member(name: &str, score: usize, days: &[(usize, bool, bool)]) -> MemberResults {
    let mut completion_day_level = HashMap::new();
    for (day, one, two) in days {
        completion_day_level.insert(
            *day,
            DayResults {
                stage_one: if *one { Some(StageResults {}) } else { None },
                stage_two: if *two { Some(StageResults {}) } else { None },
            },
        );
    }
    MemberResults { completion_day_level, name: name.to_owned(), local_score: score }
}

#[test]
fn private_leaderboard_is_ranked_by_points() {
    let response = PrivateLeaderboardResponse {
        members: vec![
            member("a", 10, &[(1, true, false)]),
            member("b", 187, &[(1, true, true), (25, true, false)]),
            member("c", 10, &[]),
            member("d", 50, &[(2, false, true), (0, true, true), (26, true, true)]),
        ],
    };
    let board = driver().get_private_leaderboard(response);
    let users: Vec<&str> = board.entries.iter().map(|e| e.user.as_str()).collect();
    assert_eq!(users, vec!["b", "d", "a", "c"]);
    let points: Vec<usize> = board.entries.iter().map(|e| e.points).collect();
    assert_eq!(points, vec![187, 50, 10, 10]);
    for entry in &board.entries {
        assert_eq!(entry.stars.len(), 25);
    }
    assert_eq!(board.entries[0].stars[0], SolvedParts::Both);
    assert_eq!(board.entries[0].stars[24], SolvedParts::One);
    assert_eq!(board.entries[0].stars[1], SolvedParts::Neither);
    assert!(board.entries[1].stars.iter().all(|s| *s == SolvedParts::Neither));
    assert_eq!(board.entries[2].stars[0], SolvedParts::One);
    assert!(board.entries[3].stars.iter().all(|s| *s == SolvedParts::Neither));
}

#[test]
fn day_without_history_gets_an_empty_one_first() {
    let driver = driver();
    let submission = Submission::new(RiddlePart::One, "7".to_owned(), 2020, 1);
    let (state, action) = driver.step(
        Workflow::Loading { submission: submission.clone() },
        Event::Loaded { stored: Stored::Missing, now: 5 },
    );
    assert_eq!(state, Workflow::Creating { submission: submission.clone() });
    assert_eq!(action, Action::Create { history: SubmissionHistory::new(2020, 1) });

    let (state, action) = driver.step(state, Event::Saved { outcome: Ok(()) });
    assert_eq!(
        state,
        Workflow::Sending { submission: submission.clone(), history: Some(SubmissionHistory::new(2020, 1)) }
    );
    assert_eq!(action, Action::Send { request: AocApi::answer_request(&submission) });
}

#[test]
fn submission_goes_on_without_memory_when_the_history_cannot_be_stored() {
    let driver = driver();
    let submission = Submission::new(RiddlePart::One, "7".to_owned(), 2020, 1);
    let (state, action) = driver.step(
        Workflow::Creating { submission: submission.clone() },
        Event::Saved { outcome: Err(SubmissionHistoryError::Save("read-only".to_owned())) },
    );
    assert_eq!(state, Workflow::Sending { submission: submission.clone(), history: None });
    assert_eq!(action, Action::Send { request: AocApi::answer_request(&submission) });
}

#[test]
fn submission_goes_on_without_memory_when_the_history_cannot_be_read() {
    let driver = driver();
    let submission = Submission::new(RiddlePart::One, "7".to_owned(), 2020, 1);
    let (state, action) = driver.step(
        Workflow::Loading { submission: submission.clone() },
        Event::Loaded {
            stored: Stored::Unreadable { error: SubmissionHistoryError::Load("corrupt".to_owned()) },
            now: 5,
        },
    );
    assert_eq!(state, Workflow::Sending { submission: submission.clone(), history: None });
    assert_eq!(action, Action::Send { request: AocApi::answer_request(&submission) });
}

#[test]
fn first_submission_of_a_day_is_recorded_in_its_new_history() {
    let driver = driver();
    let mut storage = None;
    let mut site = vec![reply("That's not the right answer. Please wait one minute before trying again.")];
    let (outcome, sent, _) = run(&driver, &mut storage, RiddlePart::One, "7", 1000, &mut site);
    assert_eq!(outcome, Outcome::Recorded);
    assert_eq!(sent.len(), 1);
    assert_eq!(storage.as_ref().unwrap().get_submissions().len(), 1);
    let (outcome, sent, _) = run(&driver, &mut storage, RiddlePart::One, "8", 1010, &mut site);
    assert_eq!(outcome, Outcome::Stopped { gate: Gate::TooSoon { wait: 50 } });
    assert!(sent.is_empty());
}
