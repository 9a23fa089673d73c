//! What this crate takes from HTML: the elements that a CSS selector picks
//! and the text that is left when markup is laid out in columns. Both are
//! computed by outside crates; the functions here hand their results over
//! as plain values, and their contracts are believed, not proved.

use html2text::render::TrivialDecorator;
use scraper::{Html, Selector};
use crate::markup::{escaped, plain_references, sets_sizes, steady};
use vstd::prelude::*;

verus! {

/// What the parsers read of one element of a page.
#[derive(Debug, Clone, PartialEq, Eq)]
pub struct Element {
    /// The names in the element's `class` attribute, each once, sorted.
    pub classes: Vec<String>,
    /// The text nodes below the element, in document order.
    pub text: Vec<String>,
    /// The text nodes that are children of the element itself.
    pub own_text: Vec<String>,
    /// The markup between the element's tags.
    pub inner_html: String,
}

pub struct ElementView {
    pub classes: Seq<Seq<char>>,
    pub text: Seq<Seq<char>>,
    pub own_text: Seq<Seq<char>>,
    pub inner_html: Seq<char>,
}

impl DeepView for Element {
    type V = ElementView;

    open spec fn deep_view(&self) -> ElementView {
        ElementView {
            classes: self.classes.deep_view(),
            text: self.text.deep_view(),
            own_text: self.own_text.deep_view(),
            inner_html: self.inner_html@,
        }
    }
}

/// The elements of the document `body` that `selector` picks, in the order
/// in which the `scraper` crate finds them; nothing where `selector` is not
/// valid CSS.
pub uninterp spec fn selected(body: Seq<char>, selector: Seq<char>) -> Option<Seq<ElementView>>;

/// Parses `body` with `scraper::Html::parse_document` and `selector` with
/// `scraper::Selector::parse`, and walks `Html::select`.
///
/// Believed: the result is a function of the two arguments alone.
#[verifier::external_body]
pub(crate) fn select(body: &str, selector: &str) -> (found: Option<Vec<Element>>)
    ensures
        found.deep_view() == selected(body@, selector@),
{
    let selector = Selector::parse(selector).ok()?;
    let document = Html::parse_document(body);
    Some(document.select(&selector).map(|e| Element {
        classes: e.value().classes().map(String::from).collect(),
        text: e.text().map(String::from).collect(),
        own_text: e.children().filter_map(|n| n.value().as_text().map(|t| t.to_string())).collect(),
        inner_html: e.inner_html(),
    }).collect())
}

/// For each element of the document `body` that `outer` picks, the
/// elements below it that `inner` picks; nothing where one of the two is
/// not valid CSS.
pub uninterp spec fn selected_within(body: Seq<char>, outer: Seq<char>, inner: Seq<char>) -> Option<
    Seq<Seq<ElementView>>,
>;

/// Parses as [`select`] does and walks `ElementRef::select` below each
/// element that `Html::select` gives for `outer`.
///
/// Believed: the result is a function of the three arguments alone, and it
/// has one list for each element that [`select`] finds for `outer`.
#[verifier::external_body]
pub(crate) fn select_within(body: &str, outer: &str, inner: &str) -> (found: Option<
    Vec<Vec<Element>>,
>)
    ensures
        found.deep_view() == selected_within(body@, outer@, inner@),
        found matches Some(lists) ==> (selected(body@, outer@) matches Some(elements)
            && elements.len() == lists.len()),
{
    let (outer, inner) = (Selector::parse(outer).ok()?, Selector::parse(inner).ok()?);
    let document = Html::parse_document(body);
    Some(document.select(&outer).map(|o| o.select(&inner).map(|e| Element {
        classes: e.value().classes().map(String::from).collect(),
        text: e.text().map(String::from).collect(),
        own_text: e.children().filter_map(|n| n.value().as_text().map(|t| t.to_string())).collect(),
        inner_html: e.inner_html(),
    }).collect()).collect())
}

/// The text that `html2text` makes of the markup `html` in lines of at most
/// `width` columns; nothing where it cannot render to that width.
pub uninterp spec fn plain_text(html: Seq<char>, width: usize) -> Option<Seq<char>>;

/// Calls `html2text::from_read` on the bytes of `html`.
///
/// Believed: the result is a function of the two arguments alone.
///
/// Only steady text in its escaped form is handed over. `html2text` counts
/// with the numbers of some attributes unchecked, and it trusts that a run
/// of characters is as wide as its characters taken one by one; on markup
/// that breaks either it may not return. Escaped text has no tag and no
/// reference but to `<` and `&`, and steady text has no run that is
/// measured otherwise than character by character.
#[verifier::external_body]
pub(crate) fn render_plain(html: &str, width: usize) -> (text: Option<String>)
    requires
        exists|shown: Seq<char>| html@ == escaped(shown) && steady(shown),
    ensures
        text.deep_view() == plain_text(html@, width),
{
    html2text::from_read(html.as_bytes(), width).ok()
}

/// The text that `html2text` makes of the markup `html` in lines of at most
/// `width` columns when it marks nothing up: no emphasis, no link targets.
pub uninterp spec fn bare_text(html: Seq<char>, width: usize) -> Option<Seq<char>>;

/// Calls `html2text::from_read_with_decorator` on the bytes of `html`, with
/// the crate's `TrivialDecorator`.
///
/// Believed: the result is a function of the two arguments alone.
///
/// Left out is markup on which `html2text` may not return: markup that
/// gives a value to `colspan`, `rowspan` or `start`, whose numbers it adds
/// up unchecked; and markup that holds an unsteady character or a
/// reference that may stand for one, because it trusts that a run of
/// characters is as wide as its characters taken one by one.
#[verifier::external_body]
pub(crate) fn render_bare(html: &str, width: usize) -> (text: Option<String>)
    requires
        steady(html@),
        plain_references(html@),
        !sets_sizes(html@),
    ensures
        text.deep_view() == bare_text(html@, width),
{
    html2text::from_read_with_decorator(html.as_bytes(), width, TrivialDecorator::new()).ok()
}

} // verus!
