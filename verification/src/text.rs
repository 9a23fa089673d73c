//! Character-sequence helpers shared by the parsers of this crate.
//!
//! Every specification here speaks of a string through its view, the
//! sequence of its characters; the executable functions work on `&str` or on
//! a vector of characters obtained once with [`chars_of`].

use vstd::prelude::*;
use vstd::string::*;

verus! {

/// The characters of `s`, in order.
pub fn chars_of(s: &str) -> (v: Vec<char>)
    ensures
        v@ == s@,
{
    let mut v: Vec<char> = Vec::new();
    for c in it: s.chars()
        invariant
            it.seq() == s@,
            v@ == s@.take(it.index()),
    {
        v.push(c);
    }
    v
}

/// Whether `c` has the Unicode property `White_Space`.
pub open spec fn is_whitespace(c: char) -> bool {
    let n = c as u32;
    ||| 0x09 <= n <= 0x0D
    ||| n == 0x20
    ||| n == 0x85
    ||| n == 0xA0
    ||| n == 0x1680
    ||| 0x2000 <= n <= 0x200A
    ||| n == 0x2028
    ||| n == 0x2029
    ||| n == 0x202F
    ||| n == 0x205F
    ||| n == 0x3000
}

pub fn char_is_whitespace(c: char) -> (b: bool)
    ensures
        b == is_whitespace(c),
{
    let n: u32 = c as u32;
    (0x09 <= n && n <= 0x0D) || n == 0x20 || n == 0x85 || n == 0xA0 || n == 0x1680 || (0x2000 <= n
        && n <= 0x200A) || n == 0x2028 || n == 0x2029 || n == 0x202F || n == 0x205F || n == 0x3000
}

/// `needle` stands in `hay` at position `i`.
pub open spec fn occurs_at(hay: Seq<char>, needle: Seq<char>, i: int) -> bool {
    &&& 0 <= i
    &&& i + needle.len() <= hay.len()
    &&& hay.subrange(i, i + needle.len()) == needle
}

/// `needle` stands in `hay` at position `i` and nowhere before it.
pub open spec fn is_first_occurrence(hay: Seq<char>, needle: Seq<char>, i: int) -> bool {
    &&& occurs_at(hay, needle, i)
    &&& forall|j: int| 0 <= j < i ==> !occurs_at(hay, needle, j)
}

/// The least position at which `needle` stands in `hay`, if there is one.
pub open spec fn first_occurrence(hay: Seq<char>, needle: Seq<char>) -> Option<int> {
    if exists|i: int| occurs_at(hay, needle, i) {
        Some(choose|i: int| is_first_occurrence(hay, needle, i))
    } else {
        None
    }
}

/// A first occurrence is the value of [`first_occurrence`].
pub proof fn lemma_first_occurrence_is(hay: Seq<char>, needle: Seq<char>, i: int)
    requires
        is_first_occurrence(hay, needle, i),
    ensures
        first_occurrence(hay, needle) == Some(i),
{
    let k = choose|k: int| is_first_occurrence(hay, needle, k);
    assert(is_first_occurrence(hay, needle, k));
    if k < i {
        assert(!occurs_at(hay, needle, k));
    }
    if i < k {
        assert(!occurs_at(hay, needle, i));
    }
}

/// Whether `needle` stands in `hay` at position `i`.
pub fn matches_at(hay: &Vec<char>, needle: &Vec<char>, i: usize) -> (b: bool)
    ensures
        b == occurs_at(hay@, needle@, i as int),
{
    if needle.len() > hay.len() || i > hay.len() - needle.len() {
        return false;
    }
    let mut j: usize = 0;
    while j < needle.len()
        invariant
            j <= needle.len(),
            i + needle.len() <= hay.len(),
            forall|k: int| 0 <= k < j ==> hay@[i + k] == needle@[k],
        decreases needle.len() - j,
    {
        if hay[i + j] != needle[j] {
            assert(hay@.subrange(i as int, i + needle.len())[j as int] == hay@[i + j]);
            return false;
        }
        j += 1;
    }
    assert(hay@.subrange(i as int, i + needle.len()) =~= needle@);
    true
}

/// Whether `s` begins with `prefix`.
pub fn starts_with(s: &str, prefix: &str) -> (b: bool)
    ensures
        b == prefix@.is_prefix_of(s@),
{
    let hay = chars_of(s);
    let needle = chars_of(prefix);
    let b = matches_at(&hay, &needle, 0);
    proof {
        if needle@.len() <= hay@.len() {
            assert(hay@.subrange(0, needle@.len() as int) =~= hay@.take(needle@.len() as int));
        }
        if b {
            assert(needle@ =~= hay@.subrange(0, needle@.len() as int));
        }
        if needle@.is_prefix_of(hay@) {
            assert(hay@.subrange(0, needle@.len() as int) =~= needle@);
        }
    }
    b
}

/// The least position at which `needle` stands in `hay`.
pub fn find(hay: &Vec<char>, needle: &Vec<char>) -> (r: Option<usize>)
    ensures
        r matches Some(i) ==> first_occurrence(hay@, needle@) == Some(i as int)
            && is_first_occurrence(hay@, needle@, i as int),
        r is None ==> first_occurrence(hay@, needle@) is None,
{
    if needle.len() > hay.len() {
        return None;
    }
    let last: usize = hay.len() - needle.len();
    let mut i: usize = 0;
    loop
        invariant
            last == hay.len() - needle.len(),
            i <= last,
            forall|j: int| 0 <= j < i ==> !occurs_at(hay@, needle@, j),
        decreases last - i,
    {
        if matches_at(hay, needle, i) {
            proof {
                lemma_first_occurrence_is(hay@, needle@, i as int);
            }
            return Some(i);
        }
        if i == last {
            return None;
        }
        i += 1;
    }
}

/// The end of the token that starts at `from`: the first position at or
/// after `from` that holds whitespace, or the length of `s` if none does.
pub open spec fn token_end(s: Seq<char>, from: int) -> int
    decreases s.len() - from,
{
    if from < 0 || from >= s.len() {
        s.len() as int
    } else if is_whitespace(s[from]) {
        from
    } else {
        token_end(s, from + 1)
    }
}

/// `token_end` lies between `from` and the end, and no whitespace stands
/// before it.
pub proof fn lemma_token_end(s: Seq<char>, from: int)
    requires
        0 <= from <= s.len(),
    ensures
        from <= token_end(s, from) <= s.len(),
        forall|i: int| from <= i < token_end(s, from) ==> !is_whitespace(s[i]),
        token_end(s, from) < s.len() ==> is_whitespace(s[token_end(s, from)]),
    decreases s.len() - from,
{
    if from < s.len() && !is_whitespace(s[from]) {
        lemma_token_end(s, from + 1);
    }
}

pub fn find_token_end(chars: &Vec<char>, from: usize) -> (end: usize)
    requires
        from <= chars.len(),
    ensures
        end == token_end(chars@, from as int),
        from <= end <= chars.len(),
{
    let mut i: usize = from;
    while i < chars.len() && !char_is_whitespace(chars[i])
        invariant
            from <= i <= chars.len(),
            token_end(chars@, from as int) == token_end(chars@, i as int),
        decreases chars.len() - i,
    {
        i += 1;
    }
    i
}

/// An ASCII decimal digit.
pub open spec fn is_digit(c: char) -> bool {
    0x30 <= c as u32 <= 0x39
}

pub open spec fn digit_value(c: char) -> nat {
    (c as u32 - 0x30) as nat
}

pub open spec fn all_digits(s: Seq<char>) -> bool {
    forall|i: int| 0 <= i < s.len() ==> is_digit(#[trigger] s[i])
}

/// The number that the digits of `s` write in base ten.
pub open spec fn decimal_value(s: Seq<char>) -> nat
    decreases s.len(),
{
    if s.len() == 0 {
        0
    } else {
        decimal_value(s.drop_last()) * 10 + digit_value(s.last())
    }
}

/// The number that `s` writes when it is one or more decimal digits whose
/// value is at most `max`.
pub open spec fn parse_digits(s: Seq<char>, max: nat) -> Option<nat> {
    if s.len() > 0 && all_digits(s) && decimal_value(s) <= max {
        Some(decimal_value(s))
    } else {
        None
    }
}

/// An unsigned decimal number: an optional `+`, then one or more digits,
/// the value at most `max`.
pub open spec fn parse_unsigned(s: Seq<char>, max: nat) -> Option<nat> {
    if s.len() > 0 && s[0] == '+' {
        parse_digits(s.drop_first(), max)
    } else {
        parse_digits(s, max)
    }
}

/// A signed decimal number: an optional `+` or `-`, then one or more
/// digits, the value between `min` and `max`.
pub open spec fn parse_signed(s: Seq<char>, min: int, max: int) -> Option<int>
    recommends
        min <= 0 <= max,
{
    if s.len() > 0 && s[0] == '-' {
        match parse_digits(s.drop_first(), (-min) as nat) {
            Some(n) => Some(-(n as int)),
            None => None,
        }
    } else if s.len() > 0 && s[0] == '+' {
        match parse_digits(s.drop_first(), max as nat) {
            Some(n) => Some(n as int),
            None => None,
        }
    } else {
        match parse_digits(s, max as nat) {
            Some(n) => Some(n as int),
            None => None,
        }
    }
}

/// A number written with more digits is no smaller.
pub proof fn lemma_decimal_value_prefix(s: Seq<char>, k: int)
    requires
        0 <= k <= s.len(),
    ensures
        decimal_value(s.take(k)) <= decimal_value(s),
    decreases s.len(),
{
    if k == s.len() {
        assert(s.take(k) =~= s);
    } else {
        assert(s.drop_last().take(k) =~= s.take(k));
        lemma_decimal_value_prefix(s.drop_last(), k);
    }
}

/// The digits `chars[from..to]` as a number no greater than `max`.
pub fn read_digits(chars: &Vec<char>, from: usize, to: usize, max: u64) -> (r: Option<u64>)
    requires
        from <= to <= chars.len(),
    ensures
        r matches Some(n) ==> parse_digits(chars@.subrange(from as int, to as int), max as nat)
            == Some(n as nat),
        r is None ==> parse_digits(chars@.subrange(from as int, to as int), max as nat) is None,
{
    let ghost digits = chars@.subrange(from as int, to as int);
    if from == to {
        return None;
    }
    let mut value: u64 = 0;
    let mut i: usize = from;
    while i < to
        invariant
            from <= i <= to <= chars.len(),
            digits == chars@.subrange(from as int, to as int),
            all_digits(digits.take(i - from)),
            value == decimal_value(digits.take(i - from)),
            value <= max,
        decreases to - i,
    {
        let c: u32 = chars[i] as u32;
        assert(digits[i - from] == chars@[i as int]);
        if c < 0x30 || c > 0x39 {
            return None;
        }
        let d: u64 = (c - 0x30) as u64;
        proof {
            let next = digits.take(i - from + 1);
            assert(next.drop_last() =~= digits.take(i - from));
            assert(next.last() == chars@[i as int]);
            assert(decimal_value(next) == value * 10 + d);
            lemma_decimal_value_prefix(digits, i - from + 1);
            assert forall|k: int| 0 <= k < next.len() implies is_digit(#[trigger] next[k]) by {
                if k < i - from {
                    assert(next[k] == digits.take(i - from)[k]);
                }
            }
        }
        if d > max || value > (max - d) / 10 {
            return None;
        }
        value = value * 10 + d;
        i += 1;
    }
    assert(digits.take(to - from) =~= digits);
    Some(value)
}

/// `chars[from..to]` read as an unsigned decimal number no greater than
/// `max`.
pub fn read_unsigned(chars: &Vec<char>, from: usize, to: usize, max: u64) -> (r: Option<u64>)
    requires
        from <= to <= chars.len(),
    ensures
        r matches Some(n) ==> parse_unsigned(chars@.subrange(from as int, to as int), max as nat)
            == Some(n as nat),
        r is None ==> parse_unsigned(chars@.subrange(from as int, to as int), max as nat) is None,
{
    let ghost s = chars@.subrange(from as int, to as int);
    if from < to && chars[from] == '+' {
        assert(s[0] == chars@[from as int]);
        assert(s.drop_first() =~= chars@.subrange(from + 1, to as int));
        read_digits(chars, from + 1, to, max)
    } else {
        if from < to {
            assert(s[0] == chars@[from as int]);
        }
        read_digits(chars, from, to, max)
    }
}

/// The character that writes the digit `d`.
pub open spec fn digit_char(d: nat) -> char
    recommends
        d < 10,
{
    if d == 0 {
        '0'
    } else if d == 1 {
        '1'
    } else if d == 2 {
        '2'
    } else if d == 3 {
        '3'
    } else if d == 4 {
        '4'
    } else if d == 5 {
        '5'
    } else if d == 6 {
        '6'
    } else if d == 7 {
        '7'
    } else if d == 8 {
        '8'
    } else {
        '9'
    }
}

/// `n` written in base ten, without leading zeros.
pub open spec fn decimal(n: nat) -> Seq<char>
    decreases n,
{
    if n < 10 {
        seq![digit_char(n)]
    } else {
        decimal(n / 10).push(digit_char(n % 10))
    }
}

fn digit_str(d: u128) -> (s: &'static str)
    requires
        d < 10,
    ensures
        s@ == seq![digit_char(d as nat)],
{
    proof {
        reveal_strlit("0");
        reveal_strlit("1");
        reveal_strlit("2");
        reveal_strlit("3");
        reveal_strlit("4");
        reveal_strlit("5");
        reveal_strlit("6");
        reveal_strlit("7");
        reveal_strlit("8");
        reveal_strlit("9");
    }
    let s = if d == 0 {
        "0"
    } else if d == 1 {
        "1"
    } else if d == 2 {
        "2"
    } else if d == 3 {
        "3"
    } else if d == 4 {
        "4"
    } else if d == 5 {
        "5"
    } else if d == 6 {
        "6"
    } else if d == 7 {
        "7"
    } else if d == 8 {
        "8"
    } else {
        "9"
    };
    assert(s@ =~= seq![digit_char(d as nat)]);
    s
}

/// `n` written in base ten.
pub fn decimal_string(n: u128) -> (s: String)
    ensures
        s@ == decimal(n as nat),
    decreases n,
{
    if n < 10 {
        String::from_str(digit_str(n))
    } else {
        let mut s = decimal_string(n / 10);
        s.append(digit_str(n % 10));
        assert(s@ =~= decimal((n / 10) as nat).push(digit_char((n % 10) as nat)));
        s
    }
}

/// The pieces of `parts` one after the other.
pub open spec fn concat(parts: Seq<Seq<char>>) -> Seq<char>
    decreases parts.len(),
{
    if parts.len() == 0 {
        Seq::empty()
    } else {
        concat(parts.drop_last()) + parts.last()
    }
}

/// The pieces of `parts` one after the other, with `separator` between
/// each two.
pub open spec fn join(parts: Seq<Seq<char>>, separator: Seq<char>) -> Seq<char>
    decreases parts.len(),
{
    if parts.len() == 0 {
        Seq::empty()
    } else if parts.len() == 1 {
        parts[0]
    } else {
        join(parts.drop_last(), separator) + separator + parts.last()
    }
}

pub fn concat_strings(parts: &Vec<String>) -> (s: String)
    ensures
        s@ == concat(parts.deep_view()),
{
    let mut s = String::new();
    let mut i: usize = 0;
    while i < parts.len()
        invariant
            i <= parts.len(),
            s@ == concat(parts.deep_view().take(i as int)),
        decreases parts.len() - i,
    {
        proof {
            let next = parts.deep_view().take(i + 1);
            assert(next.drop_last() =~= parts.deep_view().take(i as int));
            assert(next.last() == parts[i as int]@);
        }
        s.append(parts[i].as_str());
        i += 1;
    }
    assert(parts.deep_view().take(parts.len() as int) =~= parts.deep_view());
    s
}

/// The strings of `parts` from position `from` on, with `separator`
/// between each two.
pub fn join_strings_from(parts: &Vec<String>, from: usize, separator: &str) -> (s: String)
    requires
        from <= parts.len(),
    ensures
        s@ == join(parts.deep_view().skip(from as int), separator@),
{
    let ghost tail = parts.deep_view().skip(from as int);
    let mut s = String::new();
    let mut i: usize = from;
    while i < parts.len()
        invariant
            from <= i <= parts.len(),
            tail == parts.deep_view().skip(from as int),
            s@ == join(tail.take(i - from), separator@),
        decreases parts.len() - i,
    {
        proof {
            let next = tail.take(i - from + 1);
            assert(next.drop_last() =~= tail.take(i - from));
            assert(next.last() == parts[i as int]@);
            assert(next[0] == parts[from as int]@);
        }
        if i > from {
            s.append(separator);
        }
        s.append(parts[i].as_str());
        i += 1;
    }
    assert(tail.take(parts.len() - from) =~= tail);
    s
}

pub fn join_strings(parts: &Vec<String>, separator: &str) -> (s: String)
    ensures
        s@ == join(parts.deep_view(), separator@),
{
    assert(parts.deep_view().skip(0) =~= parts.deep_view());
    join_strings_from(parts, 0, separator)
}

/// `chars[from..to]` read as a signed decimal number between `min` and
/// `max`.
pub fn read_signed(chars: &Vec<char>, from: usize, to: usize, min: i64, max: i64) -> (r: Option<
    i64,
>)
    requires
        from <= to <= chars.len(),
        i64::MIN < min <= 0 <= max,
    ensures
        r matches Some(n) ==> parse_signed(
            chars@.subrange(from as int, to as int),
            min as int,
            max as int,
        ) == Some(n as int),
        r is None ==> parse_signed(chars@.subrange(from as int, to as int), min as int, max as int)
            is None,
{
    let ghost s = chars@.subrange(from as int, to as int);
    if from < to {
        assert(s[0] == chars@[from as int]);
        assert(s.drop_first() =~= chars@.subrange(from + 1, to as int));
    }
    if from < to && chars[from] == '-' {
        match read_digits(chars, from + 1, to, (0 - min) as u64) {
            Some(n) => Some(0 - (n as i64)),
            None => None,
        }
    } else if from < to && chars[from] == '+' {
        match read_digits(chars, from + 1, to, max as u64) {
            Some(n) => Some(n as i64),
            None => None,
        }
    } else {
        match read_digits(chars, from, to, max as u64) {
            Some(n) => Some(n as i64),
            None => None,
        }
    }
}

/// The first position at or after `from` that holds no whitespace, or the
/// length of `s` if all that follows is whitespace.
pub open spec fn skip_whitespace(s: Seq<char>, from: int) -> int
    decreases s.len() - from,
{
    if from < 0 || from >= s.len() {
        s.len() as int
    } else if !is_whitespace(s[from]) {
        from
    } else {
        skip_whitespace(s, from + 1)
    }
}

pub proof fn lemma_skip_whitespace(s: Seq<char>, from: int)
    requires
        0 <= from <= s.len(),
    ensures
        from <= skip_whitespace(s, from) <= s.len(),
        forall|i: int| from <= i < skip_whitespace(s, from) ==> is_whitespace(s[i]),
        skip_whitespace(s, from) < s.len() ==> !is_whitespace(s[skip_whitespace(s, from)]),
    decreases s.len() - from,
{
    if from < s.len() && is_whitespace(s[from]) {
        lemma_skip_whitespace(s, from + 1);
    }
}

pub fn find_word_start(chars: &Vec<char>, from: usize) -> (start: usize)
    requires
        from <= chars.len(),
    ensures
        start == skip_whitespace(chars@, from as int),
        from <= start <= chars.len(),
{
    let mut i: usize = from;
    while i < chars.len() && char_is_whitespace(chars[i])
        invariant
            from <= i <= chars.len(),
            skip_whitespace(chars@, from as int) == skip_whitespace(chars@, i as int),
        decreases chars.len() - i,
    {
        i += 1;
    }
    i
}

/// The words of `s` from position `from` on: its runs of characters that
/// are not whitespace, in order.
pub open spec fn words_from(s: Seq<char>, from: int) -> Seq<Seq<char>>
    decreases s.len() - from,
    via words_from_decreases
{
    let start = skip_whitespace(s, from);
    if from < 0 || start >= s.len() {
        Seq::empty()
    } else {
        seq![s.subrange(start, token_end(s, start))] + words_from(s, token_end(s, start))
    }
}

#[via_fn]
proof fn words_from_decreases(s: Seq<char>, from: int) {
    if 0 <= from <= s.len() {
        lemma_skip_whitespace(s, from);
        let start = skip_whitespace(s, from);
        if start < s.len() {
            lemma_token_end(s, start + 1);
        }
    }
}

/// The words of `s`.
pub open spec fn words(s: Seq<char>) -> Seq<Seq<char>> {
    words_from(s, 0)
}

/// The words of `s`, each as a string of its own.
pub fn split_whitespace(s: &str) -> (found: Vec<String>)
    ensures
        found.deep_view() == words(s@),
{
    let chars = chars_of(s);
    let mut found: Vec<String> = Vec::new();
    let mut at: usize = 0;
    assert(found.deep_view() =~= Seq::<Seq<char>>::empty());
    loop
        invariant
            at <= chars.len(),
            chars@ == s@,
            words(s@) == found.deep_view() + words_from(s@, at as int),
        decreases chars.len() - at,
    {
        let start = find_word_start(&chars, at);
        if start >= chars.len() {
            assert(found.deep_view() + Seq::<Seq<char>>::empty() =~= found.deep_view());
            return found;
        }
        let end = find_token_end(&chars, start);
        proof {
            lemma_token_end(chars@, start + 1);
        }
        let word = s.substring_char(start, end).to_owned();
        let ghost before = found.deep_view();
        found.push(word);
        assert(found.deep_view() =~= before.push(word@));
        assert(before + (seq![word@] + words_from(s@, end as int)) =~= before.push(word@)
            + words_from(s@, end as int));
        at = end;
    }
}

/// `s` without its occurrences of `c`.
pub open spec fn without(s: Seq<char>, c: char) -> Seq<char>
    decreases s.len(),
{
    if s.len() == 0 {
        Seq::empty()
    } else if s.last() == c {
        without(s.drop_last(), c)
    } else {
        without(s.drop_last(), c).push(s.last())
    }
}

pub fn remove_char(chars: &Vec<char>, c: char) -> (kept: Vec<char>)
    ensures
        kept@ == without(chars@, c),
{
    let mut kept: Vec<char> = Vec::new();
    let mut i: usize = 0;
    while i < chars.len()
        invariant
            i <= chars.len(),
            kept@ == without(chars@.take(i as int), c),
        decreases chars.len() - i,
    {
        proof {
            let next = chars@.take(i + 1);
            assert(next.drop_last() =~= chars@.take(i as int));
            assert(next.last() == chars@[i as int]);
        }
        if chars[i] != c {
            kept.push(chars[i]);
        }
        i += 1;
    }
    assert(chars@.take(chars.len() as int) =~= chars@);
    kept
}

/// `s` without `suffix` at its end, where it ends with it.
pub open spec fn strip_suffix(s: Seq<char>, suffix: Seq<char>) -> Option<Seq<char>> {
    if occurs_at(s, suffix, s.len() - suffix.len()) {
        Some(s.take(s.len() - suffix.len()))
    } else {
        None
    }
}

pub fn strip_suffix_of(s: &str, suffix: &str) -> (r: Option<String>)
    ensures
        r.deep_view() == strip_suffix(s@, suffix@),
{
    let hay = chars_of(s);
    let needle = chars_of(suffix);
    if needle.len() <= hay.len() && matches_at(&hay, &needle, hay.len() - needle.len()) {
        let kept = s.substring_char(0, hay.len() - needle.len()).to_owned();
        assert(kept@ =~= s@.take(s@.len() - suffix@.len()));
        Some(kept)
    } else {
        None
    }
}

/// Whether `wanted` is one of `list`.
pub fn contains_string(list: &Vec<String>, wanted: &str) -> (b: bool)
    ensures
        b == list.deep_view().contains(wanted@),
{
    let target = String::from_str(wanted);
    let mut i: usize = 0;
    while i < list.len()
        invariant
            i <= list.len(),
            target@ == wanted@,
            forall|k: int| 0 <= k < i ==> list.deep_view()[k] != wanted@,
        decreases list.len() - i,
    {
        if list[i] == target {
            assert(list.deep_view()[i as int] == wanted@);
            return true;
        }
        i += 1;
    }
    false
}

/// The end of `s` once the whitespace at the end of its first `to`
/// characters is left out: the position after the last of them that is not
/// whitespace, or 0.
pub open spec fn trimmed_end(s: Seq<char>, to: int) -> int
    decreases to,
{
    if to <= 0 || to > s.len() {
        0
    } else if !is_whitespace(s[to - 1]) {
        to
    } else {
        trimmed_end(s, to - 1)
    }
}

/// `s` without the whitespace at its two ends.
pub open spec fn trimmed(s: Seq<char>) -> Seq<char> {
    let start = skip_whitespace(s, 0);
    let end = trimmed_end(s, s.len() as int);
    if start < end {
        s.subrange(start, end)
    } else {
        Seq::empty()
    }
}

/// `s` without the whitespace at its two ends.
pub fn trim(s: &str) -> (r: String)
    ensures
        r@ == trimmed(s@),
{
    let chars = chars_of(s);
    let start = find_word_start(&chars, 0);
    let mut end: usize = chars.len();
    while end > 0 && char_is_whitespace(chars[end - 1])
        invariant
            end <= chars.len(),
            trimmed_end(chars@, chars.len() as int) == trimmed_end(chars@, end as int),
        decreases end,
    {
        end -= 1;
    }
    if start < end {
        s.substring_char(start, end).to_owned()
    } else {
        String::new()
    }
}

/// `s` without the run of `c` at its end.
pub open spec fn without_trailing(s: Seq<char>, c: char) -> Seq<char>
    decreases s.len(),
{
    if s.len() > 0 && s.last() == c {
        without_trailing(s.drop_last(), c)
    } else {
        s
    }
}

pub fn trim_end_matches(s: &str, c: char) -> (r: String)
    ensures
        r@ == without_trailing(s@, c),
{
    let chars = chars_of(s);
    let mut end: usize = chars.len();
    assert(chars@.take(end as int) =~= chars@);
    while end > 0 && chars[end - 1] == c
        invariant
            end <= chars.len(),
            without_trailing(chars@, c) == without_trailing(chars@.take(end as int), c),
        decreases end,
    {
        assert(chars@.take(end as int).drop_last() =~= chars@.take(end - 1));
        end -= 1;
    }
    s.substring_char(0, end).to_owned()
}

/// `n` written in base ten, with `-` before it where it is negative.
pub open spec fn signed_decimal(n: int) -> Seq<char> {
    if n < 0 {
        "-"@ + decimal((-n) as nat)
    } else {
        decimal(n as nat)
    }
}

pub fn signed_decimal_string(n: i64) -> (s: String)
    ensures
        s@ == signed_decimal(n as int),
{
    if n < 0 {
        let mut s = String::from_str("-");
        s.append(decimal_string((0 - n as i128) as u128).as_str());
        s
    } else {
        decimal_string(n as u128)
    }
}

/// `count` spaces.
pub open spec fn spaces(count: nat) -> Seq<char> {
    Seq::new(count, |i: int| ' ')
}

/// `s` with spaces before it until it is `width` characters long.
pub open spec fn padded_left(s: Seq<char>, width: nat) -> Seq<char> {
    if s.len() < width {
        spaces((width - s.len()) as nat) + s
    } else {
        s
    }
}

pub fn pad_left(s: &str, width: usize) -> (r: String)
    ensures
        r@ == padded_left(s@, width as nat),
{
    let len = s.unicode_len();
    let mut r = String::new();
    let mut i: usize = len;
    assert(r@ =~= spaces(0));
    while i < width
        invariant
            len == s@.len(),
            len <= i,
            i == len || i <= width,
            r@ == spaces((i - len) as nat),
        decreases width - i,
    {
        proof {
            reveal_strlit(" ");
        }
        r.append(" ");
        assert(r@ =~= spaces((i + 1 - len) as nat));
        i += 1;
    }
    let ghost pad = r@;
    r.append(s);
    proof {
        if len < width {
            assert(pad == spaces((width - len) as nat));
        } else {
            assert(pad =~= Seq::<char>::empty());
            assert(r@ =~= s@);
        }
    }
    r
}

} // verus!
