//! What must hold of markup before it is laid out as text, and how text
//! and markup are made to meet it.
//!
//! The layout measures some runs of characters as wider or narrower than
//! their characters taken one by one, and it counts with the numbers of a
//! few attributes without a check. Markup that would lead it astray is
//! told here, by verified functions, and kept from it.

use crate::text::{char_is_whitespace, chars_of, is_whitespace, matches_at, occurs_at};
use vstd::prelude::*;
use vstd::string::*;

verus! {

/// Whether `c` is one of the characters without which no run of characters
/// is measured otherwise than character by character: the control
/// characters but tab and line feed, the variation selectors, the
/// zero-width joiner, the emoji modifiers, and the letters and signs that
/// the ligatures of Arabic, Khmer, Tifinagh, Lisu and Kirat Rai need.
pub open spec fn unsteady(c: char) -> bool {
    let n = c as u32;
    ||| n < 0x20 && n != 0x09 && n != 0x0A
    ||| 0x7F <= n <= 0x9F
    ||| 0x0600 <= n <= 0x08FF
    ||| n == 0x17D2
    ||| n == 0x200D
    ||| n == 0x2D7F
    ||| 0xA4FC <= n <= 0xA4FD
    ||| 0xFE00 <= n <= 0xFE0F
    ||| 0x16D40 <= n <= 0x16D7F
    ||| 0x1F3FB <= n <= 0x1F3FF
}

/// No character of `text` is unsteady.
pub open spec fn steady(text: Seq<char>) -> bool {
    forall|i: int| 0 <= i < text.len() ==> !unsteady(#[trigger] text[i])
}

pub fn is_unsteady(c: char) -> (b: bool)
    ensures
        b == unsteady(c),
{
    let n: u32 = c as u32;
    (n < 0x20 && n != 0x09 && n != 0x0A) || (0x7F <= n && n <= 0x9F) || (0x0600 <= n && n <= 0x08FF)
        || n == 0x17D2 || n == 0x200D || n == 0x2D7F || (0xA4FC <= n && n <= 0xA4FD) || (0xFE00 <= n
        && n <= 0xFE0F) || (0x16D40 <= n && n <= 0x16D7F) || (0x1F3FB <= n && n <= 0x1F3FF)
}

pub fn is_steady(text: &str) -> (b: bool)
    ensures
        b == steady(text@),
{
    let chars = chars_of(text);
    let mut i: usize = 0;
    while i < chars.len()
        invariant
            i <= chars.len(),
            chars@ == text@,
            forall|k: int| 0 <= k < i ==> !unsteady(#[trigger] text@[k]),
        decreases chars.len() - i,
    {
        if is_unsteady(chars[i]) {
            return false;
        }
        i += 1;
    }
    true
}

/// `text` written as markup that shows it: `<` as `&lt;` and `&` as
/// `&amp;`, so that nothing in it opens a tag or stands for another
/// character.
pub open spec fn escaped(text: Seq<char>) -> Seq<char>
    decreases text.len(),
{
    if text.len() == 0 {
        Seq::empty()
    } else if text.last() == '<' {
        escaped(text.drop_last()) + "&lt;"@
    } else if text.last() == '&' {
        escaped(text.drop_last()) + "&amp;"@
    } else {
        escaped(text.drop_last()).push(text.last())
    }
}

/// Escaped text opens no tag.
pub proof fn lemma_escaped_opens_no_tag(text: Seq<char>)
    ensures
        !escaped(text).contains('<'),
    decreases text.len(),
{
    reveal_strlit("&lt;");
    reveal_strlit("&amp;");
    if text.len() > 0 {
        lemma_escaped_opens_no_tag(text.drop_last());
        let before = escaped(text.drop_last());
        assert forall|i: int| 0 <= i < escaped(text).len() implies escaped(text)[i] != '<' by {
            if i < before.len() {
                assert(before.contains(before[i]));
            }
        }
    }
}

/// Text without `<` and `&` is its own escaped form.
pub proof fn lemma_escaped_plain_text(text: Seq<char>)
    requires
        !text.contains('<'),
        !text.contains('&'),
    ensures
        escaped(text) == text,
    decreases text.len(),
{
    if text.len() > 0 {
        let rest = text.drop_last();
        assert(text.contains(text.last()));
        assert forall|i: int| 0 <= i < rest.len() implies rest[i] != '<' && rest[i] != '&' by {
            assert(text.contains(text[i]));
        }
        lemma_escaped_plain_text(rest);
        assert(rest.push(text.last()) =~= text);
    }
}

pub fn escape(text: &str) -> (markup: String)
    ensures
        markup@ == escaped(text@),
{
    let chars = chars_of(text);
    let mut markup = String::new();
    let mut i: usize = 0;
    while i < chars.len()
        invariant
            i <= chars.len(),
            chars@ == text@,
            markup@ == escaped(text@.take(i as int)),
        decreases chars.len() - i,
    {
        proof {
            let next = text@.take(i + 1);
            assert(next.drop_last() =~= text@.take(i as int));
            assert(next.last() == text@[i as int]);
        }
        if chars[i] == '<' {
            markup.append("&lt;");
        } else if chars[i] == '&' {
            markup.append("&amp;");
        } else {
            let one = text.substring_char(i, i + 1);
            assert(one@ =~= seq![text@[i as int]]);
            markup.append(one);
            assert(markup@ =~= escaped(text@.take(i as int)).push(text@[i as int]));
        }
        i += 1;
    }
    assert(text@.take(chars.len() as int) =~= text@);
    markup
}

/// The `&` at position `i` of `html` begins one of the references that
/// stand for `&`, `<`, `>`, `"`, `=` and the no-break space.
pub open spec fn refers_plainly(html: Seq<char>, i: int) -> bool {
    ||| occurs_at(html, "amp;"@, i + 1)
    ||| occurs_at(html, "lt;"@, i + 1)
    ||| occurs_at(html, "gt;"@, i + 1)
    ||| occurs_at(html, "quot;"@, i + 1)
    ||| occurs_at(html, "nbsp;"@, i + 1)
    ||| occurs_at(html, "#61;"@, i + 1)
}

/// Every `&` of `html` begins a reference to a character that is named in
/// [`refers_plainly`]: no reference brings in a character that `html` does
/// not show.
pub open spec fn plain_references(html: Seq<char>) -> bool {
    forall|i: int| 0 <= i < html.len() && #[trigger] html[i] == '&' ==> refers_plainly(html, i)
}

pub fn has_plain_references(html: &str) -> (b: bool)
    ensures
        b == plain_references(html@),
{
    let chars = chars_of(html);
    let amp = chars_of("amp;");
    let lt = chars_of("lt;");
    let gt = chars_of("gt;");
    let quot = chars_of("quot;");
    let nbsp = chars_of("nbsp;");
    let equals = chars_of("#61;");
    let mut i: usize = 0;
    while i < chars.len()
        invariant
            i <= chars.len(),
            chars@ == html@,
            amp@ == "amp;"@,
            lt@ == "lt;"@,
            gt@ == "gt;"@,
            quot@ == "quot;"@,
            nbsp@ == "nbsp;"@,
            equals@ == "#61;"@,
            forall|k: int|
                0 <= k < i && #[trigger] html@[k] == '&' ==> refers_plainly(html@, k),
        decreases chars.len() - i,
    {
        if chars[i] == '&' {
            let at = i + 1;
            if !(matches_at(&chars, &amp, at) || matches_at(&chars, &lt, at) || matches_at(
                &chars,
                &gt,
                at,
            ) || matches_at(&chars, &quot, at) || matches_at(&chars, &nbsp, at) || matches_at(
                &chars,
                &equals,
                at,
            )) {
                assert(!refers_plainly(html@, i as int));
                return false;
            }
        }
        i += 1;
    }
    true
}

/// The number of `c` once capital letters of the Latin alphabet are made
/// small, as the names of attributes are read.
pub open spec fn lowered(c: char) -> u32 {
    if 0x41 <= c as u32 <= 0x5A {
        (c as u32 + 0x20) as u32
    } else {
        c as u32
    }
}

pub open spec fn is_letter(c: char) -> bool {
    0x41 <= c as u32 <= 0x5A || 0x61 <= c as u32 <= 0x7A
}

/// `name` stands in `html` at position `i`, in small or capital letters.
pub open spec fn named_at(html: Seq<char>, name: Seq<char>, i: int) -> bool {
    &&& 0 <= i
    &&& i + name.len() <= html.len()
    &&& forall|k: int| 0 <= k < name.len() ==> lowered(#[trigger] html[i + k]) == name[k] as u32
}

/// The names of the attributes whose numbers the layout counts with: the
/// columns and rows that a cell of a table spans, and the number at which
/// a list starts.
pub open spec fn sized_name(name: Seq<char>) -> bool {
    name == "colspan"@ || name == "rowspan"@ || name == "start"@
}

/// `name` stands in `html` at position `i`, and nothing but whitespace
/// stands between it and position `to`.
pub open spec fn named_before(html: Seq<char>, name: Seq<char>, i: int, to: int) -> bool {
    &&& named_at(html, name, i)
    &&& i + name.len() <= to <= html.len()
    &&& forall|t: int| i + name.len() <= t < to ==> is_whitespace(#[trigger] html[t])
}

/// Before position `to` of `html` stands the name of a sized attribute,
/// with or without whitespace after it: a `=` at `to` would give it a
/// value.
pub open spec fn awaits_value(html: Seq<char>, to: int) -> bool {
    exists|name: Seq<char>, i: int| sized_name(name) && #[trigger] named_before(html, name, i, to)
}

/// Whether `html` may give a value to a sized attribute: somewhere in it
/// the name of one is followed by `=`, with or without whitespace between
/// the two. The layout adds such values up unchecked.
pub open spec fn sets_sizes(html: Seq<char>) -> bool {
    exists|to: int| 0 <= to < html.len() && #[trigger] html[to] == '=' && awaits_value(html, to)
}

/// `html` with every `=` that would give a value to a sized attribute
/// written as the reference `&#61;`. Where such a `=` stands in text, the
/// text reads as before; where it stands in a tag, the attribute is left
/// without a value.
pub open spec fn defused(html: Seq<char>) -> Seq<char>
    decreases html.len(),
{
    if html.len() == 0 {
        Seq::empty()
    } else if html.last() == '=' && awaits_value(html.drop_last(), html.len() - 1) {
        defused(html.drop_last()) + "&#61;"@
    } else {
        defused(html.drop_last()).push(html.last())
    }
}

/// The number of letters at the end of `s`.
pub open spec fn letters_at_end(s: Seq<char>) -> nat
    decreases s.len(),
{
    if s.len() > 0 && is_letter(s.last()) {
        1 + letters_at_end(s.drop_last())
    } else {
        0
    }
}

proof fn lemma_sized_names(name: Seq<char>)
    requires
        sized_name(name),
    ensures
        name.len() > 0,
        forall|k: int| 0 <= k < name.len() ==> 0x61 <= #[trigger] name[k] as u32 <= 0x7A,
{
    reveal_strlit("colspan");
    reveal_strlit("rowspan");
    reveal_strlit("start");
}

/// What stands where a name stands is letters.
proof fn lemma_named_is_letters(html: Seq<char>, name: Seq<char>, i: int)
    requires
        sized_name(name),
        named_at(html, name, i),
    ensures
        name.len() > 0,
        forall|k: int| 0 <= k < name.len() ==> is_letter(#[trigger] html[i + k]),
{
    lemma_sized_names(name);
    assert forall|k: int| 0 <= k < name.len() implies is_letter(#[trigger] html[i + k]) by {
        assert(lowered(html[i + k]) == name[k] as u32);
    }
}

/// Where the last `m` characters are letters, at least `m` letters stand
/// at the end.
proof fn lemma_letters_at_end(s: Seq<char>, m: int)
    requires
        0 <= m <= s.len(),
        forall|t: int| s.len() - m <= t < s.len() ==> is_letter(#[trigger] s[t]),
    ensures
        letters_at_end(s) >= m,
        letters_at_end(s) <= s.len(),
    decreases s.len(),
{
    if s.len() > 0 && is_letter(s.last()) {
        let rest = s.drop_last();
        if m > 0 {
            assert forall|t: int| rest.len() - (m - 1) <= t < rest.len() implies is_letter(
                #[trigger] rest[t],
            ) by {
                assert(rest[t] == s[t]);
            }
            lemma_letters_at_end(rest, m - 1);
        } else {
            lemma_letters_at_end(rest, 0);
        }
    } else if m > 0 {
        assert(is_letter(s[s.len() - 1]));
    }
}

/// What a name and the whitespace after it are told by stands before the
/// end of the name and the whitespace: in a longer sequence that begins
/// alike they are told as well, and the other way round.
proof fn lemma_named_before_in_prefix(
    long: Seq<char>,
    short: Seq<char>,
    name: Seq<char>,
    i: int,
    to: int,
)
    requires
        short.len() <= long.len(),
        forall|t: int| 0 <= t < short.len() ==> long[t] == short[t],
        to <= short.len(),
    ensures
        named_before(long, name, i, to) == named_before(short, name, i, to),
{
    if named_before(long, name, i, to) {
        assert forall|k: int| 0 <= k < name.len() implies lowered(#[trigger] short[i + k])
            == name[k] as u32 by {
            assert(long[i + k] == short[i + k]);
        }
        assert forall|t: int| i + name.len() <= t < to implies is_whitespace(#[trigger] short[t]) by {
            assert(long[t] == short[t]);
        }
    }
    if named_before(short, name, i, to) {
        assert forall|k: int| 0 <= k < name.len() implies lowered(#[trigger] long[i + k])
            == name[k] as u32 by {
            assert(long[i + k] == short[i + k]);
        }
        assert forall|t: int| i + name.len() <= t < to implies is_whitespace(#[trigger] long[t]) by {
            assert(long[t] == short[t]);
        }
    }
}

proof fn lemma_awaits_in_prefix(long: Seq<char>, short: Seq<char>, to: int)
    requires
        short.len() <= long.len(),
        forall|t: int| 0 <= t < short.len() ==> long[t] == short[t],
        to <= short.len(),
    ensures
        awaits_value(long, to) == awaits_value(short, to),
{
    if awaits_value(long, to) {
        let (name, i) = choose|name: Seq<char>, i: int|
            sized_name(name) && #[trigger] named_before(long, name, i, to);
        lemma_named_before_in_prefix(long, short, name, i, to);
    }
    if awaits_value(short, to) {
        let (name, i) = choose|name: Seq<char>, i: int|
            sized_name(name) && #[trigger] named_before(short, name, i, to);
        lemma_named_before_in_prefix(long, short, name, i, to);
    }
}

/// What holds between markup and its defused form, all along: the defused
/// form sets no sizes; where it awaits a value at its end, so does the
/// markup; and the two end in the same letters.
pub open spec fn defused_well(html: Seq<char>) -> bool {
    let out = defused(html);
    &&& !sets_sizes(out)
    &&& awaits_value(out, out.len() as int) ==> awaits_value(html, html.len() as int)
    &&& letters_at_end(out) <= html.len()
    &&& letters_at_end(out) <= out.len()
    &&& html.subrange(html.len() - letters_at_end(out), html.len() as int) == out.subrange(
        out.len() - letters_at_end(out),
        out.len() as int,
    )
}

/// Defused markup sets no sizes.
pub proof fn lemma_defused(html: Seq<char>)
    ensures
        defused_well(html),
    decreases html.len(),
{
    reveal_strlit("&#61;");
    let out = defused(html);
    if html.len() == 0 {
        assert(!sets_sizes(out));
        assert(!awaits_value(out, 0)) by {
            if awaits_value(out, 0) {
                let (name, i) = choose|name: Seq<char>, i: int|
                    sized_name(name) && #[trigger] named_before(out, name, i, 0);
                lemma_sized_names(name);
            }
        }
        assert(html.subrange(0, 0) =~= out.subrange(0, 0));
    } else {
        let rest = html.drop_last();
        let c = html.last();
        let before = defused(rest);
        lemma_defused(rest);
        lemma_letters_at_end(before, 0);
        if c == '=' && awaits_value(rest, rest.len() as int) {
            // The `=` became a reference.
            assert(out == before + "&#61;"@);
            assert(out.last() == ';');
            assert(letters_at_end(out) == 0);
            assert(html.subrange(html.len() as int, html.len() as int) =~= out.subrange(
                out.len() as int,
                out.len() as int,
            ));
            assert forall|t: int| 0 <= t < before.len() implies out[t] == before[t] by {}
            assert(!sets_sizes(out)) by {
                if sets_sizes(out) {
                    let to = choose|to: int|
                        0 <= to < out.len() && #[trigger] out[to] == '=' && awaits_value(out, to);
                    if to < before.len() {
                        lemma_awaits_in_prefix(out, before, to);
                        assert(before[to] == '=');
                        assert(sets_sizes(before));
                    }
                }
            }
            assert(!awaits_value(out, out.len() as int)) by {
                if awaits_value(out, out.len() as int) {
                    let (name, i) = choose|name: Seq<char>, i: int|
                        sized_name(name) && #[trigger] named_before(out, name, i, out.len() as int);
                    lemma_named_is_letters(out, name, i);
                    if i + name.len() == out.len() {
                        assert(is_letter(out[i + (name.len() - 1)]));
                    } else {
                        assert(is_whitespace(out[out.len() - 1]));
                    }
                }
            }
        } else {
            assert(out == before.push(c));
            assert forall|t: int| 0 <= t < before.len() implies out[t] == before[t] by {}
            assert forall|t: int| 0 <= t < rest.len() implies html[t] == rest[t] by {}
            // The letters at the end.
            let m = letters_at_end(before);
            assert(out.drop_last() =~= before);
            if is_letter(c) {
                assert(letters_at_end(out) == m + 1);
                assert(html.subrange(html.len() - (m + 1), html.len() as int) =~= rest.subrange(
                    rest.len() - m,
                    rest.len() as int,
                ).push(c));
                assert(out.subrange(out.len() - (m + 1), out.len() as int) =~= before.subrange(
                    before.len() - m,
                    before.len() as int,
                ).push(c));
            } else {
                assert(letters_at_end(out) == 0);
                assert(html.subrange(html.len() as int, html.len() as int) =~= out.subrange(
                    out.len() as int,
                    out.len() as int,
                ));
            }
            // Where the defused form awaits a value at its end, the markup does.
            if awaits_value(out, out.len() as int) {
                let (name, i) = choose|name: Seq<char>, i: int|
                    sized_name(name) && #[trigger] named_before(out, name, i, out.len() as int);
                lemma_named_is_letters(out, name, i);
                let k = name.len() as int;
                if i + k == out.len() {
                    assert forall|t: int| out.len() - k <= t < out.len() implies is_letter(
                        #[trigger] out[t],
                    ) by {
                        assert(out[t] == out[i + (t - i)]);
                    }
                    lemma_letters_at_end(out, k);
                    let n = letters_at_end(out) as int;
                    let at = html.len() - k;
                    assert forall|j: int| 0 <= j < k implies lowered(#[trigger] html[at + j])
                        == name[j] as u32 by {
                        let u = j + (n - k);
                        assert(html.subrange(html.len() - n, html.len() as int)[u] == out.subrange(
                            out.len() - n,
                            out.len() as int,
                        )[u]);
                        assert(html[at + j] == out[i + j]);
                    }
                    assert(named_before(html, name, at, html.len() as int));
                } else {
                    assert(is_whitespace(out[out.len() - 1]));
                    assert(is_whitespace(c));
                    lemma_named_before_in_prefix(out, before, name, i, before.len() as int);
                    assert(named_before(before, name, i, before.len() as int));
                    assert(awaits_value(before, before.len() as int));
                    assert(awaits_value(rest, rest.len() as int));
                    let (name2, i2) = choose|name2: Seq<char>, i2: int|
                        sized_name(name2) && #[trigger] named_before(
                            rest,
                            name2,
                            i2,
                            rest.len() as int,
                        );
                    lemma_named_before_in_prefix(html, rest, name2, i2, rest.len() as int);
                    assert(named_before(html, name2, i2, html.len() as int));
                }
            }
            // The defused form sets no sizes.
            assert(!sets_sizes(out)) by {
                if sets_sizes(out) {
                    let to = choose|to: int|
                        0 <= to < out.len() && #[trigger] out[to] == '=' && awaits_value(out, to);
                    lemma_awaits_in_prefix(out, before, to);
                    if to < before.len() {
                        assert(before[to] == '=');
                        assert(sets_sizes(before));
                    } else {
                        assert(c == '=');
                        assert(awaits_value(before, before.len() as int));
                        assert(awaits_value(rest, rest.len() as int));
                    }
                }
            }
        }
    }
}

fn ends_named(chars: &Vec<char>, name: &Vec<char>, end: usize) -> (b: bool)
    requires
        end <= chars.len(),
    ensures
        b == (name.len() <= end && named_at(chars@, name@, end - name.len())),
{
    if name.len() > end {
        return false;
    }
    let at: usize = end - name.len();
    let mut k: usize = 0;
    while k < name.len()
        invariant
            k <= name.len(),
            at + name.len() == end,
            end <= chars.len(),
            forall|j: int| 0 <= j < k ==> lowered(#[trigger] chars@[at + j]) == name@[j] as u32,
        decreases name.len() - k,
    {
        let n: u32 = chars[at + k] as u32;
        let low: u32 = if 0x41 <= n && n <= 0x5A {
            n + 0x20
        } else {
            n
        };
        if low != name[k] as u32 {
            assert(lowered(chars@[at + k]) != name@[k as int] as u32);
            return false;
        }
        k += 1;
    }
    true
}

/// Whether a `=` at position `to` would give a value to a sized attribute.
pub fn is_awaiting_value(chars: &Vec<char>, to: usize) -> (b: bool)
    requires
        to <= chars.len(),
    ensures
        b == awaits_value(chars@, to as int),
{
    let mut end: usize = to;
    while end > 0 && char_is_whitespace(chars[end - 1])
        invariant
            end <= to <= chars.len(),
            forall|t: int| end <= t < to ==> is_whitespace(#[trigger] chars@[t]),
        decreases end,
    {
        end -= 1;
    }
    let colspan = chars_of("colspan");
    let rowspan = chars_of("rowspan");
    let start = chars_of("start");
    let b = ends_named(chars, &colspan, end) || ends_named(chars, &rowspan, end) || ends_named(
        chars,
        &start,
        end,
    );
    proof {
        if b {
            let name = if ends_named_spec(chars@, colspan@, end as int) {
                colspan@
            } else if ends_named_spec(chars@, rowspan@, end as int) {
                rowspan@
            } else {
                start@
            };
            assert(sized_name(name));
            assert(named_before(chars@, name, end - name.len(), to as int));
        }
        if awaits_value(chars@, to as int) {
            let (name, i) = choose|name: Seq<char>, i: int|
                sized_name(name) && #[trigger] named_before(chars@, name, i, to as int);
            lemma_named_is_letters(chars@, name, i);
            let k = name.len() as int;
            if i + k < end {
                assert(is_whitespace(chars@[end - 1]));
            }
            if i + k > end {
                assert(is_letter(chars@[i + (k - 1)]));
                assert(is_whitespace(chars@[i + k - 1]));
            }
            assert(i + k == end);
            assert(ends_named_spec(chars@, name, end as int));
        }
    }
    b
}

/// `name` stands in `html` just before position `end`.
pub open spec fn ends_named_spec(html: Seq<char>, name: Seq<char>, end: int) -> bool {
    name.len() <= end && named_at(html, name, end - name.len())
}

/// The defused form of `html`, which sets no sizes.
pub fn defuse(html: &str) -> (markup: String)
    ensures
        markup@ == defused(html@),
        !sets_sizes(markup@),
{
    let chars = chars_of(html);
    let mut markup = String::new();
    let mut i: usize = 0;
    while i < chars.len()
        invariant
            i <= chars.len(),
            chars@ == html@,
            markup@ == defused(html@.take(i as int)),
        decreases chars.len() - i,
    {
        let ghost next = html@.take(i + 1);
        proof {
            assert(next.drop_last() =~= html@.take(i as int));
            assert(next.last() == html@[i as int]);
            lemma_awaits_in_prefix(chars@, html@.take(i as int), i as int);
        }
        if chars[i] == '=' && is_awaiting_value(&chars, i) {
            markup.append("&#61;");
        } else {
            let one = html.substring_char(i, i + 1);
            assert(one@ =~= seq![html@[i as int]]);
            markup.append(one);
            assert(markup@ =~= defused(html@.take(i as int)).push(html@[i as int]));
        }
        i += 1;
    }
    proof {
        assert(html@.take(chars.len() as int) =~= html@);
        lemma_defused(html@);
    }
    markup
}

} // verus!
