//! The page of a day's riddle.

use crate::configuration::Configuration;
use crate::domain::description::Description;
use crate::domain::ports::errors::AocClientError;
use crate::domain::riddle_part::RiddlePart;
use crate::html::{bare_text, render_bare, select, selected, Element, ElementView};
use crate::markup::{
    defuse, defused, has_plain_references, is_steady, plain_references, steady,
};
use crate::pattern::{expand_match, expansion};
use crate::text::{chars_of, join, join_strings, parse_unsigned, read_unsigned, starts_with};
use vstd::prelude::*;
use vstd::string::*;

verus! {

pub struct HttpDescription {
    year: u16,
    day: u8,
    body: String,
}

/// The markup inside the `n`-th of the elements found, counted from 0.
pub open spec fn nth_markup(found: Option<Seq<ElementView>>, n: int) -> Option<Seq<char>> {
    match found {
        Some(elements) => if 0 <= n < elements.len() {
            Some(elements[n].inner_html)
        } else {
            None
        },
        None => None,
    }
}

/// The words with which the site begins the paragraph that tells the
/// answer of a solved part.
pub open spec fn answer_opening() -> Seq<char> {
    "Your puzzle answer was"@
}

/// The markup of the paragraphs among `elements` that tell an answer.
pub open spec fn answers_in(elements: Seq<ElementView>) -> Seq<Seq<char>>
    decreases elements.len(),
{
    if elements.len() == 0 {
        Seq::empty()
    } else if answer_opening().is_prefix_of(elements.last().inner_html) {
        answers_in(elements.drop_last()).push(elements.last().inner_html)
    } else {
        answers_in(elements.drop_last())
    }
}

/// The `n`-th of the paragraphs found that tell an answer, counted from 0.
pub open spec fn nth_answer(found: Option<Seq<ElementView>>, n: int) -> Option<Seq<char>> {
    match found {
        Some(elements) => if 0 <= n < answers_in(elements).len() {
            Some(answers_in(elements)[n])
        } else {
            None
        },
        None => None,
    }
}

/// Those of `parts` that are there, in order.
pub open spec fn present(parts: Seq<Option<Seq<char>>>) -> Seq<Seq<char>>
    decreases parts.len(),
{
    if parts.len() == 0 {
        Seq::empty()
    } else {
        match parts.last() {
            Some(part) => present(parts.drop_last()).push(part),
            None => present(parts.drop_last()),
        }
    }
}

pub open spec fn description_selector() -> Seq<char> {
    ".day-desc"@
}

pub open spec fn paragraph_selector() -> Seq<char> {
    "main > p"@
}

/// The markup of the description in the page `body`: the first part and
/// its answer, then the second part and its answer, as far as the page
/// has them, each on a line of its own.
pub open spec fn description_markup(body: Seq<char>) -> Seq<char> {
    join(
        present(
            seq![
                nth_markup(selected(body, description_selector()), 0),
                nth_answer(selected(body, paragraph_selector()), 0),
                nth_markup(selected(body, description_selector()), 1),
                nth_answer(selected(body, paragraph_selector()), 1),
            ],
        ),
        "\n"@,
    )
}

/// The markup `markup` as text in lines of at most `width` columns. It is
/// laid out in its defused form: no attribute of it sets a size. Nothing
/// where it cannot be laid out in that width, and nothing where it holds an
/// unsteady character or a reference that may stand for one, because such
/// markup is not laid out at all.
pub open spec fn laid_out(markup: Seq<char>, width: usize) -> Option<Seq<char>> {
    if steady(defused(markup)) && plain_references(defused(markup)) {
        bare_text(defused(markup), width)
    } else {
        None
    }
}

/// The description in the page `body` as text in lines of at most `width`
/// columns.
pub open spec fn description_text(body: Seq<char>, width: usize) -> Option<Seq<char>> {
    laid_out(description_markup(body), width)
}

/// The width in which a description is written out where none is asked
/// for.
pub open spec fn written_width() -> usize {
    200
}

/// The part that is still to solve on a page with the given answers.
pub open spec fn unsolved(first: Option<Seq<char>>, second: Option<Seq<char>>) -> Option<
    RiddlePart,
> {
    match (first, second) {
        (None, _) => Some(RiddlePart::One),
        (Some(_), None) => Some(RiddlePart::Two),
        _ => None,
    }
}

/// The pattern of the address of a day's page.
pub open spec fn address_pattern() -> Seq<char> {
    ".+\\.com/([[:alnum:]]+)/day/([[:alnum:]]+)$"@
}

/// The number of 16 bits that `text` writes, if it writes one.
pub open spec fn parse_u16(text: Option<Seq<char>>) -> Option<nat> {
    match text {
        Some(t) => parse_unsigned(t, u16::MAX as nat),
        None => None,
    }
}

/// The number of 8 bits that `text` writes, if it writes one.
pub open spec fn parse_u8(text: Option<Seq<char>>) -> Option<nat> {
    match text {
        Some(t) => parse_unsigned(t, u8::MAX as nat),
        None => None,
    }
}

/// The number that `text` writes, where it writes one no greater than
/// `max`.
pub fn read_number(text: &Option<String>, max: u64) -> (r: Option<u64>)
    ensures
        match text {
            Some(t) => match r {
                Some(n) => parse_unsigned(t@, max as nat) == Some(n as nat),
                None => parse_unsigned(t@, max as nat) is None,
            },
            None => r is None,
        },
{
    match text {
        Some(t) => {
            let chars = chars_of(t.as_str());
            assert(chars@.subrange(0, chars.len() as int) =~= chars@);
            read_unsigned(&chars, 0, chars.len(), max)
        },
        None => None,
    }
}

/// The markup inside the `n`-th of the elements found.
pub fn nth_markup_of(found: &Option<Vec<Element>>, n: usize) -> (r: Option<String>)
    ensures
        r.deep_view() == nth_markup(found.deep_view(), n as int),
{
    match found {
        Some(elements) => {
            if n < elements.len() {
                Some(elements[n].inner_html.clone())
            } else {
                None
            }
        },
        None => None,
    }
}

/// The `n`-th of the paragraphs found that tell an answer.
pub fn nth_answer_of(found: &Option<Vec<Element>>, n: usize) -> (r: Option<String>)
    ensures
        r.deep_view() == nth_answer(found.deep_view(), n as int),
{
    match found {
        Some(elements) => {
            let mut seen: usize = 0;
            let mut i: usize = 0;
            let ghost all = elements.deep_view();
            while i < elements.len()
                invariant
                    i <= elements.len(),
                    all == elements.deep_view(),
                    found.deep_view() == Some(all),
                    seen == answers_in(all.take(i as int)).len(),
                    seen <= n,
                    seen <= i,
                decreases elements.len() - i,
            {
                proof {
                    let next = all.take(i + 1);
                    assert(next.drop_last() =~= all.take(i as int));
                    assert(next.last() == elements[i as int].deep_view());
                }
                if starts_with(elements[i].inner_html.as_str(), "Your puzzle answer was") {
                    if seen == n {
                        proof {
                            let next = all.take(i + 1);
                            assert(answers_in(next) == answers_in(all.take(i as int)).push(
                                elements[i as int].inner_html@,
                            ));
                            assert(answers_in(next)[n as int] == elements[i as int].inner_html@);
                            lemma_answers_grow(all, i + 1);
                            assert(answers_in(all)[n as int] == answers_in(next)[n as int]);
                            assert(found.deep_view() == Some(all));
                        }
                        return Some(elements[i].inner_html.clone());
                    }
                    seen += 1;
                }
                i += 1;
            }
            assert(all.take(elements.len() as int) =~= all);
            None
        },
        None => None,
    }
}

/// The answers among the first `k` elements stay where they are among the
/// answers of all.
pub proof fn lemma_answers_grow(elements: Seq<ElementView>, k: int)
    requires
        0 <= k <= elements.len(),
    ensures
        answers_in(elements.take(k)).len() <= answers_in(elements).len(),
        forall|i: int|
            0 <= i < answers_in(elements.take(k)).len() ==> #[trigger] answers_in(elements)[i]
                == answers_in(elements.take(k))[i],
    decreases elements.len(),
{
    if k == elements.len() {
        assert(elements.take(k) =~= elements);
    } else {
        assert(elements.drop_last().take(k) =~= elements.take(k));
        lemma_answers_grow(elements.drop_last(), k);
    }
}

fn push_present(parts: &mut Vec<String>, part: Option<String>)
    ensures
        final(parts).deep_view() == match part {
            Some(p) => old(parts).deep_view().push(p@),
            None => old(parts).deep_view(),
        },
{
    let ghost before = parts.deep_view();
    match part {
        Some(p) => {
            parts.push(p);
            assert(parts.deep_view() =~= before.push(p@));
        },
        None => {
            assert(parts.deep_view() =~= before);
        },
    }
}

impl HttpDescription {
    pub closed spec fn body(self) -> Seq<char> {
        self.body@
    }

    pub closed spec fn spec_year(self) -> u16 {
        self.year
    }

    pub closed spec fn spec_day(self) -> u8 {
        self.day
    }

    pub fn new(year: u16, day: u8, body: String) -> (d: Self)
        ensures
            d.spec_year() == year,
            d.spec_day() == day,
            d.body() == body@,
    {
        HttpDescription { year, day, body }
    }

    /// Reads the description from the site's reply: `address` is where the
    /// reply came from, `status` and `body` what it holds.
    ///
    /// The year and the day are the two numbers in the address of a day's
    /// page.
    pub fn from_response(address: &str, status: u16, body: String) -> (r: Result<
        Self,
        AocClientError,
    >)
        ensures
            match r {
                Ok(d) => {
                    &&& crate::aoc_api::is_success(status)
                    &&& parse_u16(expansion(address_pattern(), address@, "$1"@)) == Some(
                        d.spec_year() as nat,
                    )
                    &&& parse_u8(expansion(address_pattern(), address@, "$2"@)) == Some(
                        d.spec_day() as nat,
                    )
                    &&& d.body() == body@
                },
                Err(e) => {
                    &&& e == AocClientError::GetDescriptionError
                    &&& (!crate::aoc_api::is_success(status) || parse_u16(
                        expansion(address_pattern(), address@, "$1"@),
                    ) is None || parse_u8(expansion(address_pattern(), address@, "$2"@)) is None)
                },
            },
    {
        if status < 200 || status >= 300 {
            return Err(AocClientError::GetDescriptionError);
        }
        let pattern = ".+\\.com/([[:alnum:]]+)/day/([[:alnum:]]+)$";
        let year = read_number(&expand_match(pattern, address, "$1"), u16::MAX as u64);
        let day = read_number(&expand_match(pattern, address, "$2"), u8::MAX as u64);
        match (year, day) {
            (Some(year), Some(day)) => Ok(HttpDescription { year: year as u16, day: day as u8, body }),
            _ => Err(AocClientError::GetDescriptionError),
        }
    }

    pub fn part_one(&self) -> (r: Option<String>)
        ensures
            r.deep_view() == nth_markup(selected(self.body(), description_selector()), 0),
    {
        nth_markup_of(&select(self.body.as_str(), ".day-desc"), 0)
    }

    pub fn part_one_answer(&self) -> (r: Option<String>)
        ensures
            r.deep_view() == nth_answer(selected(self.body(), paragraph_selector()), 0),
    {
        nth_answer_of(&select(self.body.as_str(), "main > p"), 0)
    }

    pub fn part_two(&self) -> (r: Option<String>)
        ensures
            r.deep_view() == nth_markup(selected(self.body(), description_selector()), 1),
    {
        nth_markup_of(&select(self.body.as_str(), ".day-desc"), 1)
    }

    pub fn part_two_answer(&self) -> (r: Option<String>)
        ensures
            r.deep_view() == nth_answer(selected(self.body(), paragraph_selector()), 1),
    {
        nth_answer_of(&select(self.body.as_str(), "main > p"), 1)
    }

    /// The markup of the description, as [`description_markup`] says.
    pub fn markup(&self) -> (s: String)
        ensures
            s@ == description_markup(self.body()),
    {
        let mut parts: Vec<String> = Vec::new();
        assert(parts.deep_view() =~= Seq::<Seq<char>>::empty());
        let ghost wanted = seq![
            nth_markup(selected(self.body(), description_selector()), 0),
            nth_answer(selected(self.body(), paragraph_selector()), 0),
            nth_markup(selected(self.body(), description_selector()), 1),
            nth_answer(selected(self.body(), paragraph_selector()), 1),
        ];
        assert(present(wanted.take(0)) =~= Seq::<Seq<char>>::empty());
        push_present(&mut parts, self.part_one());
        proof {
            assert(wanted.take(1).drop_last() =~= wanted.take(0));
            assert(parts.deep_view() == present(wanted.take(1)));
        }
        push_present(&mut parts, self.part_one_answer());
        proof {
            assert(wanted.take(2).drop_last() =~= wanted.take(1));
            assert(parts.deep_view() == present(wanted.take(2)));
        }
        push_present(&mut parts, self.part_two());
        proof {
            assert(wanted.take(3).drop_last() =~= wanted.take(2));
            assert(parts.deep_view() == present(wanted.take(3)));
        }
        push_present(&mut parts, self.part_two_answer());
        proof {
            assert(wanted.take(4).drop_last() =~= wanted.take(3));
            assert(wanted.take(4) =~= wanted);
            assert(parts.deep_view() == present(wanted));
        }
        join_strings(&parts, "\n")
    }

    /// Lays `markup` out as text in lines of at most `width` columns.
    pub fn lay_out(markup: &str, width: usize) -> (r: Result<String, AocClientError>)
        ensures
            match r {
                Ok(text) => laid_out(markup@, width) == Some(text@),
                Err(e) => e == AocClientError::GetDescriptionError && laid_out(markup@, width)
                    is None,
            },
    {
        let safe = defuse(markup);
        if !is_steady(safe.as_str()) || !has_plain_references(safe.as_str()) {
            return Err(AocClientError::GetDescriptionError);
        }
        match render_bare(safe.as_str(), width) {
            Some(text) => Ok(text),
            None => Err(AocClientError::GetDescriptionError),
        }
    }

    /// The description as text for a terminal of the configured width.
    pub fn cli_fmt(&self, configuration: &Configuration) -> (r: Result<String, AocClientError>)
        ensures
            match r {
                Ok(text) => description_text(self.body(), configuration.cli.output_width as usize)
                    == Some(text@),
                Err(e) => e == AocClientError::GetDescriptionError && description_text(
                    self.body(),
                    configuration.cli.output_width as usize,
                ) is None,
            },
    {
        Self::lay_out(self.markup().as_str(), configuration.cli.output_width as usize)
    }

    /// The description as text in lines of at most 200 columns.
    pub fn to_string(&self) -> (r: Result<String, AocClientError>)
        ensures
            match r {
                Ok(text) => description_text(self.body(), written_width()) == Some(text@),
                Err(e) => e == AocClientError::GetDescriptionError && description_text(
                    self.body(),
                    written_width(),
                ) is None,
            },
    {
        Self::lay_out(self.markup().as_str(), 200)
    }

    /// The part that is still to solve; nothing once both are solved.
    pub fn unsolved_part(&self) -> (part: Option<RiddlePart>)
        ensures
            part == unsolved(
                nth_answer(selected(self.body(), paragraph_selector()), 0),
                nth_answer(selected(self.body(), paragraph_selector()), 1),
            ),
    {
        match (self.part_one_answer(), self.part_two_answer()) {
            (None, _) => Some(RiddlePart::One),
            (Some(_), None) => Some(RiddlePart::Two),
            _ => None,
        }
    }
}

impl Description for HttpDescription {
    fn year(&self) -> (year: u16)
        ensures
            year == self.spec_year(),
    {
        self.year
    }

    fn day(&self) -> (day: u8)
        ensures
            day == self.spec_day(),
    {
        self.day
    }
}

} // verus!
