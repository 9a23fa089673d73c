use elv::aoc_api::AocApi;
use elv::domain::leaderboard::{Leaderboard, LeaderboardEntry, LeaderboardEntryError};

#[test]
fn try_from_for_leaderboard_entry() {
    let entry = "1) 3693  betaveros";
    let expected_entry = {
        let username = "betaveros".to_owned();
        LeaderboardEntry {
            position: 1,
            points: 3693,
            username,
        }
    };
    let result_entry = LeaderboardEntry::try_from(entry);
    match result_entry {
        Ok(result) => assert_eq!(expected_entry, result),
        Err(e) => panic!("error parsing the entry: {}", e.to_string()),
    }
}

#[test]
fn try_from_for_leaderboard_entry_anonymous_user() {
    let entry = "3) 3042  (anonymous user #1510407)";
    let expected_entry = {
        let username = "(anonymous user #1510407)".to_owned();
        LeaderboardEntry {
            position: 3,
            points: 3042,
            username,
        }
    };
    let result_entry = LeaderboardEntry::try_from(entry);
    match result_entry {
        Ok(result) => assert_eq!(expected_entry, result),
        Err(e) => panic!("error parsing the entry: {}", e.to_string()),
    }
}

#[test]
fn try_from_string_vec_for_leaderboard() {
    let entries: Vec<String> = vec!["1) 3693  betaveros", "2) 14 me"]
        .iter()
        .map(|&x| x.to_owned())
        .collect();
    let expected_leaderboard = Leaderboard {
        entries: vec![
            LeaderboardEntry {
                position: 1,
                points: 3693,
                username: "betaveros".to_owned(),
            },
            LeaderboardEntry {
                position: 2,
                points: 14,
                username: "me".to_owned(),
            },
        ],
    };
    match Leaderboard::try_from(entries) {
        Ok(result) => assert_eq!(expected_leaderboard, result),
        Err(e) => panic!("Test case failed {}", e.to_string()),
    }
}

#[test]
fn entry_without_words_has_no_position() {
    assert_eq!(LeaderboardEntry::try_from("  \t "), Err(LeaderboardEntryError::Position));
}

#[test]
fn entry_with_one_word_has_no_points() {
    assert_eq!(LeaderboardEntry::try_from("1)"), Err(LeaderboardEntryError::Points));
}

#[test]
fn entry_with_bad_numbers_names_the_field() {
    assert_eq!(
        LeaderboardEntry::try_from("first 10 someone"),
        Err(LeaderboardEntryError::Parsing("position".to_owned()))
    );
    assert_eq!(
        LeaderboardEntry::try_from("1) ten someone"),
        Err(LeaderboardEntryError::Parsing("points".to_owned()))
    );
    assert_eq!(
        LeaderboardEntry::try_from("1) 2147483648 someone"),
        Err(LeaderboardEntryError::Parsing("points".to_owned()))
    );
}

#[test]
fn entry_numbers_may_carry_a_sign() {
    let entry = LeaderboardEntry::try_from("+7) -2147483648").unwrap();
    assert_eq!(entry.position, 7);
    assert_eq!(entry.points, -2147483648);
    assert_eq!(entry.username, "");
}

#[test]
fn leaderboard_fails_with_its_first_bad_line() {
    let lines = vec!["1) 5 a".to_owned(), "x 5 b".to_owned(), "3)".to_owned()];
    match Leaderboard::try_from(lines) {
        Ok(_) => panic!("a bad line was accepted"),
        Err(e) => assert_eq!(e.0, LeaderboardEntryError::Parsing("position".to_owned())),
    }
}

#[test]
fn parse_leaderboard_response() {
    let contents = r#"<!DOCTYPE html>
<html lang="en-us"><head><title>Leaderboard - Advent of Code 2022</title></head><body>
<main>
<p>Below is the <em>Advent of Code 2022</em> overall leaderboard.</p>
<div class="leaderboard-entry"><span class="leaderboard-position">  1)</span> <span class="leaderboard-totalscore">3693</span>  <a href="https://github.com/betaveros" target="_blank"><span class="leaderboard-userphoto"><img src="x.png" height="20"/></span>betaveros</a></div>
<div class="leaderboard-entry"><span class="leaderboard-position">  2)</span> <span class="leaderboard-totalscore">3119</span>  <span class="leaderboard-userphoto"></span>dan-simon</div>
<div class="leaderboard-entry"><span class="leaderboard-position">  3)</span> <span class="leaderboard-totalscore">3042</span>  <span class="leaderboard-userphoto"></span><span class="leaderboard-anon">(anonymous user #1510407)</span></div>
<div class="leaderboard-entry"><span class="leaderboard-position"></span> <span class="leaderboard-totalscore">3042</span>  Tied With The Third <a href="/2022/support" class="supporter-badge" title="Advent of Code Supporter">(AoC++)</a></div>
</main>
</body></html>"#
        .to_owned();
    let leaderboard = AocApi::parse_leaderboard_response(&contents);
    assert!(leaderboard.is_ok());
    assert_eq!(
        leaderboard.unwrap(),
        Leaderboard {
            entries: vec![
                LeaderboardEntry { position: 1, points: 3693, username: "betaveros".to_owned() },
                LeaderboardEntry { position: 2, points: 3119, username: "dan-simon".to_owned() },
                LeaderboardEntry { position: 3, points: 3042, username: "(anonymous user #1510407)".to_owned() },
                LeaderboardEntry { position: 3, points: 3042, username: "Tied With The Third".to_owned() },
            ],
        }
    );
}
