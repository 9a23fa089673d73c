//! How leaderboards are written out for a terminal.

use crate::configuration::Configuration;
use crate::domain::leaderboard::{Leaderboard, LeaderboardEntryView};
use crate::domain::ports::errors::AocClientError;
use crate::domain::private_leaderboard::{PrivateLeaderboard, PrivateLeaderboardEntry};
use crate::domain::solved_parts::SolvedParts;
use crate::http_description::{description_text, HttpDescription};
use crate::text::{
    decimal, decimal_string, join, join_strings, pad_left, padded_left, signed_decimal,
    signed_decimal_string,
};
use colored::Colorize;
use vstd::prelude::*;
use vstd::string::*;

verus! {

/// What can be written out for a terminal.
pub trait CliDisplay {
    fn cli_fmt(&self, configuration: &Configuration) -> Result<String, AocClientError>;
}

/// The line of one entry of the public leaderboard.
pub open spec fn entry_line(entry: LeaderboardEntryView) -> Seq<char> {
    signed_decimal(entry.position as int) + ") "@ + signed_decimal(entry.points as int) + " "@
        + entry.username
}

/// The public leaderboard, one entry on each line.
pub open spec fn board_text(entries: Seq<LeaderboardEntryView>) -> Seq<char> {
    join(entries.map_values(|e: LeaderboardEntryView| entry_line(e)), "\n"@)
}

impl Leaderboard {
    pub fn to_text(&self) -> (text: String)
        ensures
            text@ == board_text(self.deep_view()),
    {
        let mut lines: Vec<String> = Vec::new();
        let mut i: usize = 0;
        while i < self.entries.len()
            invariant
                i <= self.entries.len(),
                lines.len() == i,
                forall|k: int|
                    0 <= k < i ==> (#[trigger] lines[k])@ == entry_line(self.entries[k].deep_view()),
            decreases self.entries.len() - i,
        {
            let entry = &self.entries[i];
            let mut line = signed_decimal_string(entry.position as i64);
            line.append(") ");
            line.append(signed_decimal_string(entry.points as i64).as_str());
            line.append(" ");
            line.append(entry.username.as_str());
            lines.push(line);
            i += 1;
        }
        assert(lines.deep_view() =~= self.deep_view().map_values(
            |e: LeaderboardEntryView| entry_line(e),
        ));
        join_strings(&lines, "\n")
    }
}

impl CliDisplay for Leaderboard {
    fn cli_fmt(&self, _configuration: &Configuration) -> (r: Result<String, AocClientError>)
        ensures
            r matches Ok(text) && text@ == board_text(self.deep_view()),
    {
        Ok(self.to_text())
    }
}

/// The signs with which a day is drawn, by what is solved of it.
#[derive(Debug, Clone, PartialEq, Eq)]
pub struct StarSigns {
    pub neither: String,
    pub one: String,
    pub both: String,
}

impl StarSigns {
    pub open spec fn sign(self, solved: SolvedParts) -> Seq<char> {
        match solved {
            SolvedParts::Neither => self.neither@,
            SolvedParts::One => self.one@,
            SolvedParts::Both => self.both@,
        }
    }
}

/// The days of a member, each drawn with its sign.
pub open spec fn stars_text(stars: Seq<SolvedParts>, signs: StarSigns) -> Seq<char>
    decreases stars.len(),
{
    if stars.len() == 0 {
        Seq::empty()
    } else {
        stars_text(stars.drop_last(), signs) + signs.sign(stars.last())
    }
}

/// The line of the member with the given rank, counted from 0.
pub open spec fn member_line(rank: int, entry: PrivateLeaderboardEntry, signs: StarSigns) -> Seq<
    char,
> {
    decimal((rank + 1) as nat) + ")"@ + padded_left(decimal(entry.points as nat), 4) + " "@
        + stars_text(entry.stars@, signs) + "  "@ + entry.user@
}

/// The tens of the numbers of the days, above the columns of the days.
pub open spec fn tens_line() -> Seq<char> {
    "                1111111111222222222"@
}

/// The units of the numbers of the days, above the columns of the days.
pub open spec fn units_line() -> Seq<char> {
    "       12345678901234567890123456789"@
}

/// A private leaderboard as a table: two lines that number the days, as
/// many as the first member has, then one line for each member. There is
/// no table without members, nor for more days than the numbering has.
pub open spec fn table_text(entries: Seq<PrivateLeaderboardEntry>, signs: StarSigns) -> Option<
    Seq<char>,
> {
    if entries.len() > 0 && 7 + entries[0].stars.len() <= tens_line().len() && 7
        + entries[0].stars.len() <= units_line().len() {
        Some(
            tens_line().take(7 + entries[0].stars.len()) + "\n"@ + units_line().take(
                7 + entries[0].stars.len(),
            ) + "\n"@ + join(Seq::new(entries.len(), |i: int| member_line(i, entries[i], signs)), "\n"@),
        )
    } else {
        None
    }
}

/// `shown` is `text` as a terminal is given it: as it is, or between the
/// signal for a style and the signal that ends all styles.
pub open spec fn styled(text: Seq<char>, shown: Seq<char>) -> bool {
    shown == text || exists|style: Seq<char>| shown == style + text + "\x1B[0m"@
}

/// Calls `colored::Colorize::dimmed` and writes the result out.
///
/// Believed: text that holds no escape character comes back as it is or
/// between a style and the reset. Which of the two depends on the
/// terminal, and so does the style.
#[verifier::external_body]
pub(crate) fn dimmed(text: &str) -> (shown: String)
    ensures
        !text@.contains('\x1B') ==> styled(text@, shown@),
{
    text.dimmed().to_string()
}

/// Calls `colored::Colorize::white` and writes the result out.
///
/// Believed: text that holds no escape character comes back as it is or
/// between a style and the reset. Which of the two depends on the
/// terminal, and so does the style.
#[verifier::external_body]
pub(crate) fn white(text: &str) -> (shown: String)
    ensures
        !text@.contains('\x1B') ==> styled(text@, shown@),
{
    text.white().to_string()
}

/// Calls `colored::Colorize::yellow` and writes the result out.
///
/// Believed: text that holds no escape character comes back as it is or
/// between a style and the reset. Which of the two depends on the
/// terminal, and so does the style.
#[verifier::external_body]
pub(crate) fn yellow(text: &str) -> (shown: String)
    ensures
        !text@.contains('\x1B') ==> styled(text@, shown@),
{
    text.yellow().to_string()
}

/// Each sign is a star, with or without a style.
pub open spec fn are_stars(signs: StarSigns) -> bool {
    &&& styled("*"@, signs.neither@)
    &&& styled("*"@, signs.one@)
    &&& styled("*"@, signs.both@)
}

impl PrivateLeaderboard {
    fn stars_line(stars: &Vec<SolvedParts>, signs: &StarSigns) -> (s: String)
        ensures
            s@ == stars_text(stars@, *signs),
    {
        let mut s = String::new();
        let mut i: usize = 0;
        while i < stars.len()
            invariant
                i <= stars.len(),
                s@ == stars_text(stars@.take(i as int), *signs),
            decreases stars.len() - i,
        {
            proof {
                let next = stars@.take(i + 1);
                assert(next.drop_last() =~= stars@.take(i as int));
                assert(next.last() == stars@[i as int]);
            }
            match stars[i] {
                SolvedParts::Neither => s.append(signs.neither.as_str()),
                SolvedParts::One => s.append(signs.one.as_str()),
                SolvedParts::Both => s.append(signs.both.as_str()),
            }
            i += 1;
        }
        assert(stars@.take(stars.len() as int) =~= stars@);
        s
    }

    /// The leaderboard as a table, its days drawn with `signs`.
    pub fn to_table(&self, signs: &StarSigns) -> (table: Option<String>)
        ensures
            table.deep_view() == table_text(self.entries@, *signs),
    {
        let tens = "                1111111111222222222";
        let units = "       12345678901234567890123456789";
        if self.entries.len() == 0 {
            return None;
        }
        let days = self.entries[0].stars.len();
        if days > tens.unicode_len() || 7 > tens.unicode_len() - days || days > units.unicode_len()
            || 7 > units.unicode_len() - days {
            return None;
        }
        let mut lines: Vec<String> = Vec::new();
        let mut i: usize = 0;
        while i < self.entries.len()
            invariant
                i <= self.entries.len(),
                lines.len() == i,
                forall|k: int|
                    0 <= k < i ==> (#[trigger] lines[k])@ == member_line(k, self.entries[k], *signs),
            decreases self.entries.len() - i,
        {
            let entry = &self.entries[i];
            let mut line = decimal_string(i as u128 + 1);
            line.append(")");
            line.append(pad_left(decimal_string(entry.points as u128).as_str(), 4).as_str());
            line.append(" ");
            line.append(Self::stars_line(&entry.stars, signs).as_str());
            line.append("  ");
            line.append(entry.user.as_str());
            lines.push(line);
            i += 1;
        }
        assert(lines.deep_view() =~= Seq::new(
            self.entries@.len(),
            |i: int| member_line(i, self.entries@[i], *signs),
        ));
        let mut table = tens.substring_char(0, 7 + days).to_owned();
        table.append("\n");
        table.append(units.substring_char(0, 7 + days));
        table.append("\n");
        table.append(join_strings(&lines, "\n").as_str());
        assert(table@ =~= table_text(self.entries@, *signs)->0);
        Some(table)
    }
}

impl CliDisplay for PrivateLeaderboard {
    /// The leaderboard as a table whose days are drawn with a star each:
    /// dimmed for a day of which nothing is solved, white for one part,
    /// yellow for both, as far as the terminal shows colours.
    fn cli_fmt(&self, _configuration: &Configuration) -> (r: Result<String, AocClientError>)
        ensures
            match r {
                Ok(table) => exists|signs: StarSigns|
                    are_stars(signs) && table_text(self.entries@, signs) == Some(table@),
                Err(e) => e == AocClientError::GetLeaderboardError && forall|signs: StarSigns|
                    table_text(self.entries@, signs) is None,
            },
    {
        proof {
            reveal_strlit("*");
        }
        let signs = StarSigns { neither: dimmed("*"), one: white("*"), both: yellow("*") };
        assert(are_stars(signs));
        match self.to_table(&signs) {
            Some(table) => Ok(table),
            None => Err(AocClientError::GetLeaderboardError),
        }
    }
}

impl CliDisplay for HttpDescription {
    fn cli_fmt(&self, configuration: &Configuration) -> (r: Result<String, AocClientError>)
        ensures
            match r {
                Ok(text) => description_text(self.body(), configuration.cli.output_width as usize)
                    == Some(text@),
                Err(e) => e == AocClientError::GetDescriptionError && description_text(
                    self.body(),
                    configuration.cli.output_width as usize,
                ) is None,
            },
    {
        HttpDescription::cli_fmt(self, configuration)
    }
}

} // verus!
