use elv::domain::duration_string::DurationString;

#[test]
fn test_duration_string() {
    let duration = chrono::Duration::days(1)
        + chrono::Duration::hours(2)
        + chrono::Duration::minutes(3)
        + chrono::Duration::seconds(4);
    let duration_string = DurationString::new(duration.num_seconds() as i128);
    assert_eq!(
        format!("{}", duration_string.to_string()),
        "1 days 2 hours 3 minutes 4 seconds"
    );
}

#[test]
fn test_duration_string_when_duration_is_smaller_than_seconds() {
    let duration = chrono::Duration::milliseconds(4);
    let duration_string = DurationString::new(duration.num_seconds() as i128);
    assert_eq!(format!("{}", duration_string.to_string()), "0 seconds");
}

#[test]
fn parts_of_no_length_are_left_out() {
    assert_eq!(DurationString::new(1).to_string(), "1 seconds");
    assert_eq!(DurationString::new(59).to_string(), "59 seconds");
    assert_eq!(DurationString::new(60).to_string(), "1 minutes");
    assert_eq!(DurationString::new(61).to_string(), "1 minutes 1 seconds");
    assert_eq!(DurationString::new(3600).to_string(), "1 hours");
    assert_eq!(DurationString::new(3601).to_string(), "1 hours 1 seconds");
    assert_eq!(DurationString::new(86400).to_string(), "1 days");
    assert_eq!(DurationString::new(86400 + 60).to_string(), "1 days 1 minutes");
    assert_eq!(DurationString::new(180).to_string(), "3 minutes");
}

#[test]
fn negative_duration_is_no_time() {
    assert_eq!(DurationString::new(0).to_string(), "0 seconds");
    assert_eq!(DurationString::new(-1).to_string(), "0 seconds");
    assert_eq!(DurationString::new(i128::MIN).to_string(), "0 seconds");
}

#[test]
fn longest_duration_is_written_out() {
    assert_eq!(
        DurationString::new(i128::MAX).to_string(),
        "1969226660422097589487121570785695 days 16 hours 2 minutes 7 seconds"
    );
}
