use elv::cli_display::{CliDisplay, StarSigns};
use elv::configuration::Configuration;
use elv::domain::leaderboard::{Leaderboard, LeaderboardEntry};
use elv::domain::ports::errors::AocClientError;
use elv::domain::private_leaderboard::{PrivateLeaderboard, PrivateLeaderboardEntry};
use elv::domain::solved_parts::SolvedParts;

fn signs() -> StarSigns {
    StarSigns { neither: ".".to_owned(), one: "+".to_owned(), both: "*".to_owned() }
}

fn entry(user: &str, points: usize, stars: Vec<SolvedParts>) -> PrivateLeaderboardEntry {
    PrivateLeaderboardEntry { user: user.to_owned(), points, stars }
}

#[test]
fn leaderboard_is_written_one_entry_a_line() {
    let board = Leaderboard {
        entries: vec![
            LeaderboardEntry { position: 1, points: 3693, username: "betaveros".to_owned() },
            LeaderboardEntry { position: 2, points: -14, username: "".to_owned() },
            LeaderboardEntry { position: -3, points: 0, username: "(anonymous user #1)".to_owned() },
        ],
    };
    assert_eq!(board.to_text(), "1) 3693 betaveros\n2) -14 \n-3) 0 (anonymous user #1)");
    assert_eq!(board.cli_fmt(&Configuration::default()), Ok(board.to_text()));
    assert_eq!(Leaderboard { entries: vec![] }.to_text(), "");
}

#[test]
fn private_leaderboard_is_written_as_a_table() {
    let board = PrivateLeaderboard {
        entries: vec![
            entry("Konrad", 187, vec![SolvedParts::Both, SolvedParts::One, SolvedParts::Neither]),
            entry("Anna", 12345, vec![SolvedParts::Neither]),
            entry("", 0, vec![]),
        ],
    };
    assert_eq!(
        board.to_table(&signs()),
        Some(
            [
                "          ",
                "       123",
                "1) 187 *+.  Konrad",
                "2)12345 .  Anna",
                "3)   0   ",
            ]
            .join("\n")
        )
    );
}

#[test]
fn table_numbers_as_many_days_as_the_first_member_has() {
    let days = vec![SolvedParts::Both; 25];
    let board = PrivateLeaderboard { entries: vec![entry("a", 1, days)] };
    let table = board.to_table(&signs()).unwrap();
    let lines: Vec<&str> = table.split('\n').collect();
    assert_eq!(lines[0], "                1111111111222222");
    assert_eq!(lines[1], "       1234567890123456789012345");
    assert_eq!(lines[2], "1)   1 *************************  a");

    let board = PrivateLeaderboard { entries: vec![entry("a", 1, vec![SolvedParts::One; 28])] };
    let table = board.to_table(&signs()).unwrap();
    let lines: Vec<&str> = table.split('\n').collect();
    assert_eq!(lines[0], "                1111111111222222222");
    assert_eq!(lines[1], "       1234567890123456789012345678");
}

#[test]
fn there_is_no_table_without_members_or_for_too_many_days() {
    assert_eq!(PrivateLeaderboard { entries: vec![] }.to_table(&signs()), None);
    let board = PrivateLeaderboard { entries: vec![entry("a", 1, vec![SolvedParts::One; 29])] };
    assert_eq!(board.to_table(&signs()), None);
    assert_eq!(board.cli_fmt(&Configuration::default()), Err(AocClientError::GetLeaderboardError));
    assert_eq!(
        PrivateLeaderboard { entries: vec![] }.cli_fmt(&Configuration::default()),
        Err(AocClientError::GetLeaderboardError)
    );
}

#[test]
fn days_are_drawn_as_stars() {
    let board = PrivateLeaderboard {
        entries: vec![entry("Konrad", 187, vec![SolvedParts::Both, SolvedParts::One, SolvedParts::Neither])],
    };
    let table = board.cli_fmt(&Configuration::default()).unwrap();
    let lines: Vec<&str> = table.split('\n').collect();
    assert_eq!(lines.len(), 3);
    assert_eq!(lines[0], "          ");
    assert_eq!(lines[1], "       123");
    assert!(lines[2].starts_with("1) 187 "));
    assert!(lines[2].ends_with("  Konrad"));
    assert_eq!(lines[2].matches('*').count(), 3);
}
