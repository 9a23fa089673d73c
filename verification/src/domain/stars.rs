use super::ports::errors::AocClientError;
use super::solved_parts::SolvedParts;
use crate::html::{select_within, selected_within, Element, ElementView};
use crate::text::{
    concat, concat_strings, contains_string, join, join_strings, strip_suffix, strip_suffix_of,
};
use vstd::prelude::*;
use vstd::string::*;

verus! {

/// The calendar of one year: what is solved of each day, and the picture
/// that the site draws, line by line.
#[derive(Debug, PartialEq, Eq, Clone)]
pub struct Stars {
    pub stars: Vec<SolvedParts>,
    pub pattern: Vec<String>,
}

pub struct StarsView {
    pub stars: Seq<SolvedParts>,
    pub pattern: Seq<Seq<char>>,
}

impl DeepView for Stars {
    type V = StarsView;

    open spec fn deep_view(&self) -> StarsView {
        StarsView { stars: self.stars@, pattern: self.pattern.deep_view() }
    }
}

/// What is solved of a day whose line has the given classes.
pub open spec fn solved_of(classes: Seq<Seq<char>>) -> SolvedParts {
    if classes.contains("calendar-verycomplete"@) {
        SolvedParts::Both
    } else if classes.contains("calendar-complete"@) {
        SolvedParts::One
    } else {
        SolvedParts::Neither
    }
}

/// The line of a day without the stars that are not won: the site writes
/// two stars at the end of every line and hides those not won by
/// styling. Nothing where the line does not end in them.
pub open spec fn line_of(day: ElementView) -> Option<Seq<char>> {
    match solved_of(day.classes) {
        SolvedParts::Both => Some(concat(day.text)),
        SolvedParts::One => strip_suffix(concat(day.text), "*"@),
        SolvedParts::Neither => strip_suffix(concat(day.text), "**"@),
    }
}

/// The calendar that the lines `days` draw; nothing where one of them has
/// no line.
pub open spec fn calendar_of(days: Seq<ElementView>) -> Option<StarsView>
    decreases days.len(),
{
    if days.len() == 0 {
        Some(StarsView { stars: Seq::empty(), pattern: Seq::empty() })
    } else {
        match (calendar_of(days.drop_last()), line_of(days.last())) {
            (Some(calendar), Some(line)) => Some(
                StarsView {
                    stars: calendar.stars.push(solved_of(days.last().classes)),
                    pattern: calendar.pattern.push(line),
                },
            ),
            _ => None,
        }
    }
}

/// The calendar in the first of `calendars`.
pub open spec fn first_calendar(calendars: Option<Seq<Seq<ElementView>>>) -> Option<StarsView> {
    match calendars {
        Some(lists) => if lists.len() > 0 {
            calendar_of(lists[0])
        } else {
            None
        },
        None => None,
    }
}

pub open spec fn calendar_selector() -> Seq<char> {
    ".calendar"@
}

pub open spec fn day_selector() -> Seq<char> {
    "[class^='calendar-day']:not(.calendar-day)"@
}

/// Once the first `k` lines draw no calendar, the whole list draws none.
pub proof fn lemma_calendar_failure_stays(days: Seq<ElementView>, k: int)
    requires
        0 <= k <= days.len(),
        calendar_of(days.take(k)) is None,
    ensures
        calendar_of(days) is None,
    decreases days.len(),
{
    if k == days.len() {
        assert(days.take(k) =~= days);
    } else {
        assert(days.drop_last().take(k) =~= days.take(k));
        lemma_calendar_failure_stays(days.drop_last(), k);
    }
}

impl Stars {
    pub fn new(stars: Vec<SolvedParts>, pattern: Vec<String>) -> (s: Self)
        ensures
            s.stars == stars,
            s.pattern == pattern,
    {
        Stars { stars, pattern }
    }

    /// The picture, one line below the other.
    pub fn to_string(&self) -> (s: String)
        ensures
            s@ == join(self.pattern.deep_view(), "\n"@) + "\n"@,
    {
        let mut s = join_strings(&self.pattern, "\n");
        s.append("\n");
        s
    }

    pub fn solved(day: &Element) -> (solved: SolvedParts)
        ensures
            solved == solved_of(day.deep_view().classes),
    {
        if contains_string(&day.classes, "calendar-verycomplete") {
            SolvedParts::Both
        } else if contains_string(&day.classes, "calendar-complete") {
            SolvedParts::One
        } else {
            SolvedParts::Neither
        }
    }

    /// Reads the calendar from the lines of its days.
    pub fn from_days(days: &Vec<Element>) -> (r: Option<Stars>)
        ensures
            r.deep_view() == calendar_of(days.deep_view()),
    {
        let mut stars: Vec<SolvedParts> = Vec::new();
        let mut pattern: Vec<String> = Vec::new();
        let mut i: usize = 0;
        assert(pattern.deep_view() =~= Seq::<Seq<char>>::empty());
        while i < days.len()
            invariant
                i <= days.len(),
                calendar_of(days.deep_view().take(i as int)) == Some(
                    StarsView { stars: stars@, pattern: pattern.deep_view() },
                ),
            decreases days.len() - i,
        {
            proof {
                let next = days.deep_view().take(i + 1);
                assert(next.drop_last() =~= days.deep_view().take(i as int));
                assert(next.last() == days[i as int].deep_view());
            }
            let solved = Self::solved(&days[i]);
            let text = concat_strings(&days[i].text);
            let line = match solved {
                SolvedParts::Both => Some(text),
                SolvedParts::One => strip_suffix_of(text.as_str(), "*"),
                SolvedParts::Neither => strip_suffix_of(text.as_str(), "**"),
            };
            match line {
                Some(line) => {
                    let ghost before = pattern.deep_view();
                    stars.push(solved);
                    pattern.push(line);
                    assert(pattern.deep_view() =~= before.push(line@));
                },
                None => {
                    proof {
                        lemma_calendar_failure_stays(days.deep_view(), i + 1);
                    }
                    return None;
                },
            }
            i += 1;
        }
        assert(days.deep_view().take(days.len() as int) =~= days.deep_view());
        Some(Stars::new(stars, pattern))
    }

    /// Reads the calendar from the page of a year.
    pub fn parse_http_response(calendar_http_body: &str) -> (r: Result<Stars, AocClientError>)
        ensures
            match r {
                Ok(stars) => first_calendar(
                    selected_within(calendar_http_body@, calendar_selector(), day_selector()),
                ) == Some(stars.deep_view()),
                Err(e) => e == AocClientError::GetStarsError && first_calendar(
                    selected_within(calendar_http_body@, calendar_selector(), day_selector()),
                ) is None,
            },
    {
        let calendars = select_within(
            calendar_http_body,
            ".calendar",
            "[class^='calendar-day']:not(.calendar-day)",
        );
        let stars = match &calendars {
            Some(lists) => {
                if lists.len() > 0 {
                    Self::from_days(&lists[0])
                } else {
                    None
                }
            },
            None => None,
        };
        match stars {
            Some(stars) => Ok(stars),
            None => Err(AocClientError::GetStarsError),
        }
    }
}

} // verus!
