use elv::domain::riddle_part::RiddlePart;
use elv::domain::submission::Submission;
use elv::domain::submission_result::SubmissionResult;
use elv::domain::submission_status::SubmissionStatus;
use elv::submission_history::{SubmissionHistory, SubmissionHistoryError};

const RIGHT_ANSWER: [&str; 2] = [
    "That's the right answer! You are one gold star closer to saving your vacation.",
    " You got rank 1 on this star's leaderboard. [Return to Day 1]",
];

fn now() -> i64 {
    chrono::Utc::now().timestamp()
}

fn result(part: RiddlePart, answer: &str, status: SubmissionStatus, at: i64, wait: u64) -> SubmissionResult {
    SubmissionResult::new(
        Submission::new(part, answer.to_string(), 2020, 1),
        status,
        format!("{:?} {}", status, answer),
        at,
        wait,
    )
}

#[test]
fn submission_history_can_add_submission() {
    let submission = Submission::new(RiddlePart::One, "7".to_string(), 2020, 1);
    let submission_result = SubmissionResult::new(
        submission,
        SubmissionStatus::Correct,
        RIGHT_ANSWER.concat(),
        now(),
        7 * 60,
    );
    let mut submission_history = SubmissionHistory::new(2020, 1);
    submission_history.add(submission_result);
    assert_eq!(submission_history.get_submissions().len(), 1);
}

#[test]
fn submission_history_tests_can_add_submission() {
    let submission = Submission::new(RiddlePart::One, "7".to_string(), 2020, 1);
    let submission_result = SubmissionResult::new(
        submission,
        SubmissionStatus::Correct,
        RIGHT_ANSWER.concat(),
        now(),
        7 * 60,
    );
    let mut submission_history = SubmissionHistory::new(2020, 1);
    submission_history.add(submission_result.clone());
    assert_eq!(submission_history.get_submissions().len(), 1);
    assert_eq!(submission_history.get_submissions()[0], submission_result);
}

#[test]
fn submission_history_previously_added_submission_result_can_be_retrieved() {
    let submission = Submission::new(RiddlePart::One, "7".to_string(), 2020, 1);
    let submission_result = SubmissionResult::new(
        submission,
        SubmissionStatus::Correct,
        RIGHT_ANSWER.concat(),
        now(),
        7 * 60,
    );
    let mut submission_history = SubmissionHistory::new(2020, 1);
    submission_history.add(submission_result);
    let new_submission = Submission::new(RiddlePart::One, "7".to_string(), 2020, 1);
    let retrieved_submission_result = submission_history.get_result_for_submission(&new_submission);
    assert_eq!(
        retrieved_submission_result.unwrap().submission,
        new_submission
    );
}

#[test]
fn submission_history_tests_previously_added_submission_result_can_be_retrieved() {
    let submission = Submission::new(RiddlePart::One, "7".to_string(), 2020, 1);
    let submission_result = SubmissionResult::new(
        submission,
        SubmissionStatus::Correct,
        RIGHT_ANSWER.concat(),
        now(),
        7 * 60,
    );
    let mut submission_history = SubmissionHistory::new(2020, 1);
    submission_history.add(submission_result.clone());
    let new_submission = Submission::new(RiddlePart::One, "7".to_string(), 2020, 1);
    let retrieved_submission_result = submission_history.get_result_for_submission(&new_submission);
    assert_eq!(retrieved_submission_result, Some(&submission_result));
}

#[test]
fn submission_history_get_result_for_submission_returns_none_for_a_new_submission() {
    let submission = Submission::new(RiddlePart::One, "7".to_string(), 2020, 1);
    let submission_history = SubmissionHistory::new(2020, 1);
    assert_eq!(
        submission_history.get_result_for_submission(&submission),
        None
    );
}

#[test]
fn submission_history_tests_get_result_for_submission_returns_none_for_a_new_submission() {
    let submission = Submission::new(RiddlePart::One, "7".to_string(), 2020, 1);
    let mut submission_history = SubmissionHistory::new(2020, 1);
    assert_eq!(submission_history.get_result_for_submission(&submission), None);
    submission_history.add(result(RiddlePart::One, "8", SubmissionStatus::Incorrect, 0, 60));
    submission_history.add(result(RiddlePart::Two, "7", SubmissionStatus::Incorrect, 0, 60));
    assert_eq!(submission_history.get_result_for_submission(&submission), None);
    let other_day = Submission::new(RiddlePart::One, "8".to_string(), 2020, 2);
    assert_eq!(submission_history.get_result_for_submission(&other_day), None);
    let other_year = Submission::new(RiddlePart::One, "8".to_string(), 2021, 1);
    assert_eq!(submission_history.get_result_for_submission(&other_year), None);
}

#[test]
fn submission_history_test_wait_time() {
    let now = now();
    let submission_result = SubmissionResult::new(
        Submission::new(RiddlePart::One, "7".to_string(), 2020, 1),
        SubmissionStatus::Correct,
        RIGHT_ANSWER.concat(),
        now,
        7 * 60,
    );
    let mut submission_history = SubmissionHistory::new(2020, 1);
    submission_history.add(submission_result);
    assert_eq!(
        submission_history.wait_time(now + 4 * 60, &RiddlePart::One),
        Some(3 * 60)
    );

    assert_eq!(
        submission_history.wait_time(now + 8 * 60, &RiddlePart::One),
        None
    )
}

#[test]
fn submission_history_correct_submission() {
    let submission_result = SubmissionResult::new(
        Submission::new(RiddlePart::One, "7".to_string(), 2020, 1),
        SubmissionStatus::Correct,
        RIGHT_ANSWER.concat(),
        now(),
        7 * 60,
    );
    let mut submission_history = SubmissionHistory::new(2020, 1);
    submission_history.add(submission_result.clone());
    let correct_submission = submission_history.correct_submission(&RiddlePart::One);
    assert!(correct_submission.is_some());
    assert_eq!(correct_submission.unwrap(), &submission_result);
}

#[test]
fn can_submit_returns_false_if_submitted_too_soon() {
    let now = now();
    let submission_result = SubmissionResult::new(
        Submission::new(RiddlePart::One, "7".to_string(), 2020, 1),
        SubmissionStatus::Correct,
        RIGHT_ANSWER.concat(),
        now,
        7 * 60,
    );
    let mut submission_history = SubmissionHistory::new(2020, 1);
    submission_history.add(submission_result);
    let can_submit = submission_history.wait_time(now, &RiddlePart::One).is_none();
    assert_eq!(can_submit, false);
}

#[test]
fn can_submit_if_there_are_no_submissions() {
    let submission_history = SubmissionHistory::new(2020, 1);
    let can_submit = submission_history.wait_time(now(), &RiddlePart::One).is_none();
    assert_eq!(can_submit, true);
}

#[test]
fn new_history_is_empty() {
    let history = SubmissionHistory::new(2021, 25);
    assert_eq!(history.year(), 2021);
    assert_eq!(history.day(), 25);
    assert!(history.get_submissions().is_empty());
    assert_eq!(history.correct_submission(&RiddlePart::One), None);
    assert_eq!(history.last_submission(&RiddlePart::One), None);
}

#[test]
fn history_keeps_the_order_of_its_entries() {
    let entries = vec![
        result(RiddlePart::One, "1", SubmissionStatus::Incorrect, 10, 60),
        result(RiddlePart::Two, "2", SubmissionStatus::TooSoon, 20, 30),
        result(RiddlePart::One, "3", SubmissionStatus::Correct, 30, 0),
    ];
    let mut history = SubmissionHistory::new(2020, 1);
    for entry in &entries {
        history.add(entry.clone());
    }
    assert_eq!(history.get_submissions(), &entries);
    assert_eq!(SubmissionHistory::from_parts(2020, 1, entries.clone()), history);
}

#[test]
fn correct_submission_is_the_first_correct_one_of_the_part() {
    let mut history = SubmissionHistory::new(2020, 1);
    history.add(result(RiddlePart::One, "1", SubmissionStatus::Incorrect, 10, 60));
    history.add(result(RiddlePart::Two, "2", SubmissionStatus::Correct, 20, 0));
    assert_eq!(history.correct_submission(&RiddlePart::One), None);
    history.add(result(RiddlePart::One, "3", SubmissionStatus::Correct, 30, 0));
    history.add(result(RiddlePart::One, "4", SubmissionStatus::Correct, 40, 0));
    assert_eq!(history.correct_submission(&RiddlePart::One).unwrap().submission.answer, "3");
    assert_eq!(history.correct_submission(&RiddlePart::Two).unwrap().submission.answer, "2");
}

#[test]
fn result_for_submission_is_the_first_of_that_attempt() {
    let mut history = SubmissionHistory::new(2020, 1);
    history.add(result(RiddlePart::One, "7", SubmissionStatus::Incorrect, 10, 60));
    history.add(result(RiddlePart::One, "7", SubmissionStatus::TooSoon, 20, 60));
    let submission = Submission::new(RiddlePart::One, "7".to_string(), 2020, 1);
    assert_eq!(history.get_result_for_submission(&submission).unwrap().submitted_at, 10);
    let other_answer = Submission::new(RiddlePart::One, "7 ".to_string(), 2020, 1);
    assert_eq!(history.get_result_for_submission(&other_answer), None);
}

#[test]
fn wait_counts_from_the_last_entry_of_the_part() {
    let mut history = SubmissionHistory::new(2020, 1);
    history.add(result(RiddlePart::One, "1", SubmissionStatus::Incorrect, 1000, 600));
    history.add(result(RiddlePart::Two, "2", SubmissionStatus::Incorrect, 1100, 900));
    history.add(result(RiddlePart::One, "3", SubmissionStatus::Incorrect, 1200, 60));
    assert_eq!(history.last_submission(&RiddlePart::One).unwrap().submission.answer, "3");
    assert_eq!(history.wait_time(1200, &RiddlePart::One), Some(60));
    assert_eq!(history.wait_time(1259, &RiddlePart::One), Some(1));
    assert_eq!(history.wait_time(1260, &RiddlePart::One), None);
    assert_eq!(history.wait_time(1261, &RiddlePart::One), None);
    assert_eq!(history.wait_time(1200, &RiddlePart::Two), Some(800));
    assert_eq!(history.wait_time(0, &RiddlePart::One), Some(1260));
}

#[test]
fn wait_is_counted_without_overflow() {
    let mut history = SubmissionHistory::new(2020, 1);
    history.add(result(RiddlePart::One, "1", SubmissionStatus::Incorrect, i64::MAX, u64::MAX));
    assert_eq!(
        history.wait_time(i64::MIN, &RiddlePart::One),
        Some(i64::MAX as i128 + u64::MAX as i128 - i64::MIN as i128)
    );
    let mut history = SubmissionHistory::new(2020, 1);
    history.add(result(RiddlePart::One, "1", SubmissionStatus::Incorrect, i64::MIN, 0));
    assert_eq!(history.wait_time(i64::MAX, &RiddlePart::One), None);
}

#[test]
fn history_is_stored_under_year_and_day() {
    assert_eq!(
        SubmissionHistory::cache_path(2020, 1),
        ("submissions".to_owned(), "2020-1".to_owned())
    );
    assert_eq!(
        SubmissionHistory::cache_path(0, 25),
        ("submissions".to_owned(), "0-25".to_owned())
    );
}

#[test]
fn history_errors_say_what_failed() {
    assert_eq!(
        SubmissionHistoryError::Load("a".to_owned()).to_string(),
        "Error loading the data from the submission history cache: a"
    );
    assert_eq!(
        SubmissionHistoryError::Save("b".to_owned()).to_string(),
        "Error saving data to the submission history cache: b"
    );
    assert_eq!(
        SubmissionHistoryError::Clear("c".to_owned()).to_string(),
        "Error clearing the submission history cache: c"
    );
}
