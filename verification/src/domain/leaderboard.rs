use crate::text::{
    chars_of, join, join_strings_from, parse_signed, read_signed, remove_char, split_whitespace,
    without, words,
};
use vstd::prelude::*;
use vstd::string::*;

verus! {

/// One line of the public leaderboard.
#[derive(PartialEq, Eq, Debug, Clone)]
pub struct LeaderboardEntry {
    pub position: i32,
    pub points: i32,
    pub username: String,
}

pub struct LeaderboardEntryView {
    pub position: i32,
    pub points: i32,
    pub username: Seq<char>,
}

impl DeepView for LeaderboardEntry {
    type V = LeaderboardEntryView;

    open spec fn deep_view(&self) -> LeaderboardEntryView {
        LeaderboardEntryView {
            position: self.position,
            points: self.points,
            username: self.username@,
        }
    }
}

/// What is wrong with a line of the leaderboard.
#[derive(PartialEq, Eq, Debug, Clone)]
pub enum LeaderboardEntryError {
    /// The line has no first word.
    Position,
    /// The line has no second word.
    Points,
    /// The named field is not a number.
    Parsing(String),
}

pub enum LeaderboardEntryErrorView {
    Position,
    Points,
    Parsing(Seq<char>),
}

impl DeepView for LeaderboardEntryError {
    type V = LeaderboardEntryErrorView;

    open spec fn deep_view(&self) -> LeaderboardEntryErrorView {
        match self {
            LeaderboardEntryError::Position => LeaderboardEntryErrorView::Position,
            LeaderboardEntryError::Points => LeaderboardEntryErrorView::Points,
            LeaderboardEntryError::Parsing(field) => LeaderboardEntryErrorView::Parsing(field@),
        }
    }
}

impl LeaderboardEntryError {
    pub open spec fn description(self) -> Seq<char> {
        match self {
            LeaderboardEntryError::Position => "No position in the leaderboard entry"@,
            LeaderboardEntryError::Points => "No points in the leaderboard entry"@,
            LeaderboardEntryError::Parsing(field) => "Error parsing: "@ + field@,
        }
    }

    pub fn to_string(&self) -> (s: String)
        ensures
            s@ == self.description(),
    {
        match self {
            LeaderboardEntryError::Position => String::from_str(
                "No position in the leaderboard entry",
            ),
            LeaderboardEntryError::Points => String::from_str("No points in the leaderboard entry"),
            LeaderboardEntryError::Parsing(field) => {
                let mut s = String::from_str("Error parsing: ");
                s.append(field.as_str());
                s
            },
        }
    }
}

/// A number of 32 bits with a sign, written in base ten.
pub open spec fn parse_i32(s: Seq<char>) -> Option<int> {
    parse_signed(s, i32::MIN as int, i32::MAX as int)
}

/// The entry that `line` writes: its first word, without any `)`, is the
/// position, its second word the points, and the rest, with one space
/// between the words, the user's name.
pub open spec fn entry_of(line: Seq<char>) -> Result<
    LeaderboardEntryView,
    LeaderboardEntryErrorView,
> {
    let fields = words(line);
    if fields.len() == 0 {
        Err(LeaderboardEntryErrorView::Position)
    } else if fields.len() == 1 {
        Err(LeaderboardEntryErrorView::Points)
    } else {
        match parse_i32(without(fields[0], ')')) {
            None => Err(LeaderboardEntryErrorView::Parsing("position"@)),
            Some(position) => match parse_i32(fields[1]) {
                None => Err(LeaderboardEntryErrorView::Parsing("points"@)),
                Some(points) => Ok(
                    LeaderboardEntryView {
                        position: position as i32,
                        points: points as i32,
                        username: join(fields.skip(2), " "@),
                    },
                ),
            },
        }
    }
}

fn read_i32(chars: &Vec<char>) -> (r: Option<i32>)
    ensures
        r matches Some(n) ==> parse_i32(chars@) == Some(n as int),
        r is None ==> parse_i32(chars@) is None,
{
    assert(chars@.subrange(0, chars.len() as int) =~= chars@);
    match read_signed(chars, 0, chars.len(), i32::MIN as i64, i32::MAX as i64) {
        Some(n) => Some(n as i32),
        None => None,
    }
}

impl LeaderboardEntry {
    /// Reads one line of the leaderboard.
    pub fn try_from(value: &str) -> (r: Result<LeaderboardEntry, LeaderboardEntryError>)
        ensures
            match r {
                Ok(entry) => entry_of(value@) == Ok::<
                    LeaderboardEntryView,
                    LeaderboardEntryErrorView,
                >(entry.deep_view()),
                Err(e) => entry_of(value@) == Err::<
                    LeaderboardEntryView,
                    LeaderboardEntryErrorView,
                >(e.deep_view()),
            },
    {
        let fields = split_whitespace(value);
        if fields.len() == 0 {
            return Err(LeaderboardEntryError::Position);
        }
        if fields.len() == 1 {
            return Err(LeaderboardEntryError::Points);
        }
        let username = join_strings_from(&fields, 2, " ");
        let position_digits = remove_char(&chars_of(fields[0].as_str()), ')');
        let position = match read_i32(&position_digits) {
            Some(position) => position,
            None => {
                return Err(LeaderboardEntryError::Parsing(String::from_str("position")));
            },
        };
        let points = match read_i32(&chars_of(fields[1].as_str())) {
            Some(points) => points,
            None => {
                return Err(LeaderboardEntryError::Parsing(String::from_str("points")));
            },
        };
        Ok(LeaderboardEntry { position, points, username })
    }
}

/// The public leaderboard, best first as the site lists it.
#[derive(PartialEq, Eq, Debug, Clone)]
pub struct Leaderboard {
    pub entries: Vec<LeaderboardEntry>,
}

impl DeepView for Leaderboard {
    type V = Seq<LeaderboardEntryView>;

    open spec fn deep_view(&self) -> Seq<LeaderboardEntryView> {
        self.entries.deep_view()
    }
}

/// A leaderboard could not be read.
#[derive(PartialEq, Eq, Debug, Clone)]
pub struct LeaderboardError(pub LeaderboardEntryError);

impl DeepView for LeaderboardError {
    type V = LeaderboardEntryErrorView;

    open spec fn deep_view(&self) -> LeaderboardEntryErrorView {
        self.0.deep_view()
    }
}

impl LeaderboardError {
    pub fn to_string(&self) -> (s: String)
        ensures
            s@ == self.0.description(),
    {
        self.0.to_string()
    }
}

/// The entries that `lines` write, or what is wrong with the first line
/// that writes none.
pub open spec fn leaderboard_of(lines: Seq<Seq<char>>) -> Result<
    Seq<LeaderboardEntryView>,
    LeaderboardEntryErrorView,
>
    decreases lines.len(),
{
    if lines.len() == 0 {
        Ok(Seq::empty())
    } else {
        match leaderboard_of(lines.drop_last()) {
            Err(e) => Err(e),
            Ok(entries) => match entry_of(lines.last()) {
                Err(e) => Err(e),
                Ok(entry) => Ok(entries.push(entry)),
            },
        }
    }
}

impl Leaderboard {
    pub fn from_iter(entries: Vec<LeaderboardEntry>) -> (board: Self)
        ensures
            board.entries == entries,
    {
        Leaderboard { entries }
    }

    /// Reads a leaderboard, one entry from each line.
    pub fn try_from(value: Vec<String>) -> (r: Result<Leaderboard, LeaderboardError>)
        ensures
            match r {
                Ok(board) => leaderboard_of(value.deep_view()) == Ok::<
                    Seq<LeaderboardEntryView>,
                    LeaderboardEntryErrorView,
                >(board.deep_view()),
                Err(e) => leaderboard_of(value.deep_view()) == Err::<
                    Seq<LeaderboardEntryView>,
                    LeaderboardEntryErrorView,
                >(e.deep_view()),
            },
    {
        let mut entries: Vec<LeaderboardEntry> = Vec::new();
        let mut i: usize = 0;
        assert(entries.deep_view() =~= Seq::<LeaderboardEntryView>::empty());
        while i < value.len()
            invariant
                i <= value.len(),
                leaderboard_of(value.deep_view().take(i as int)) == Ok::<
                    Seq<LeaderboardEntryView>,
                    LeaderboardEntryErrorView,
                >(entries.deep_view()),
            decreases value.len() - i,
        {
            proof {
                let next = value.deep_view().take(i + 1);
                assert(next.drop_last() =~= value.deep_view().take(i as int));
                assert(next.last() == value[i as int]@);
            }
            match LeaderboardEntry::try_from(value[i].as_str()) {
                Ok(entry) => {
                    let ghost before = entries.deep_view();
                    entries.push(entry);
                    assert(entries.deep_view() =~= before.push(entry.deep_view()));
                },
                Err(e) => {
                    proof {
                        lemma_leaderboard_error_stays(value.deep_view(), i + 1);
                    }
                    return Err(LeaderboardError(e));
                },
            }
            i += 1;
        }
        assert(value.deep_view().take(value.len() as int) =~= value.deep_view());
        Ok(Leaderboard::from_iter(entries))
    }
}

/// Once the first `k` lines fail, the whole list fails in the same way.
pub proof fn lemma_leaderboard_error_stays(lines: Seq<Seq<char>>, k: int)
    requires
        0 <= k <= lines.len(),
        leaderboard_of(lines.take(k)) is Err,
    ensures
        leaderboard_of(lines) == leaderboard_of(lines.take(k)),
    decreases lines.len(),
{
    if k == lines.len() {
        assert(lines.take(k) =~= lines);
    } else {
        assert(lines.drop_last().take(k) =~= lines.take(k));
        lemma_leaderboard_error_stays(lines.drop_last(), k);
    }
}

} // verus!
