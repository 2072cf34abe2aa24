//! Texts: trimming, searching, ordering and building them.

use vstd::prelude::*;

verus! {

/// The characters of a text.
pub type Text = Seq<char>;

/// Whether a character is Unicode white space.
pub open spec fn is_space(c: char) -> bool {
    ||| '\u{9}' <= c <= '\u{d}'
    ||| c == ' '
    ||| c == '\u{85}'
    ||| c == '\u{a0}'
    ||| c == '\u{1680}'
    ||| '\u{2000}' <= c <= '\u{200a}'
    ||| c == '\u{2028}'
    ||| c == '\u{2029}'
    ||| c == '\u{202f}'
    ||| c == '\u{205f}'
    ||| c == '\u{3000}'
}

/// Whether a text holds nothing but white space.
pub open spec fn blank(text: Text) -> bool {
    forall|i: int| 0 <= i < text.len() ==> is_space(#[trigger] text[i])
}

/// A text without the white space at its start.
pub open spec fn trimmed_start(text: Text) -> Text
    decreases text.len(),
{
    if text.len() > 0 && is_space(text[0]) {
        trimmed_start(text.drop_first())
    } else {
        text
    }
}

/// A text without the white space at its end.
pub open spec fn trimmed_end(text: Text) -> Text
    decreases text.len(),
{
    if text.len() > 0 && is_space(text.last()) {
        trimmed_end(text.drop_last())
    } else {
        text
    }
}

/// A text without the white space at either end.
pub open spec fn trimmed(text: Text) -> Text {
    trimmed_end(trimmed_start(text))
}

/// Whether `part` occurs in `whole` from position `at` on.
pub open spec fn occurs_at(whole: Text, part: Text, at: int) -> bool {
    0 <= at && at + part.len() <= whole.len() && whole.subrange(at, at + part.len()) == part
}

/// Whether `part` occurs somewhere in `whole`.
pub open spec fn occurs(whole: Text, part: Text) -> bool {
    exists|at: int| #[trigger] occurs_at(whole, part, at)
}

/// The order of texts by their first differing character; a proper prefix comes first.
pub open spec fn text_less(left: Text, right: Text) -> bool
    decreases left.len(),
{
    if right.len() == 0 {
        false
    } else if left.len() == 0 {
        true
    } else if left[0] != right[0] {
        left[0] < right[0]
    } else {
        text_less(left.drop_first(), right.drop_first())
    }
}

/// A decimal digit as a text.
pub open spec fn digit_text(digit: nat) -> Text {
    if digit == 0 {
        "0"@
    } else if digit == 1 {
        "1"@
    } else if digit == 2 {
        "2"@
    } else if digit == 3 {
        "3"@
    } else if digit == 4 {
        "4"@
    } else if digit == 5 {
        "5"@
    } else if digit == 6 {
        "6"@
    } else if digit == 7 {
        "7"@
    } else if digit == 8 {
        "8"@
    } else {
        "9"@
    }
}

/// A natural number in decimal.
pub open spec fn natural_text(n: nat) -> Text
    decreases n,
{
    if n < 10 {
        digit_text(n)
    } else {
        natural_text(n / 10) + digit_text(n % 10)
    }
}

/// An integer in decimal, with a minus sign where it is negative.
pub open spec fn decimal(n: int) -> Text {
    if n < 0 {
        "-"@ + natural_text((-n) as nat)
    } else {
        natural_text(n as nat)
    }
}

/// The texts with `separator` between each two.
pub open spec fn joined(parts: Seq<Text>, separator: Text) -> Text
    decreases parts.len(),
{
    if parts.len() == 0 {
        Seq::empty()
    } else if parts.len() == 1 {
        parts[0]
    } else {
        joined(parts.drop_last(), separator) + separator + parts.last()
    }
}

/// A text with every double quote doubled.
pub open spec fn quotes_doubled(text: Text) -> Text
    decreases text.len(),
{
    if text.len() == 0 {
        Seq::empty()
    } else if text.last() == '"' {
        quotes_doubled(text.drop_last()) + "\"\""@
    } else {
        quotes_doubled(text.drop_last()).push(text.last())
    }
}

/// How many tokens a text is taken to cost: a quarter of its characters, rounded up, at least one.
pub open spec fn token_estimate(text: Text) -> int {
    if text.len() == 0 {
        1
    } else {
        (text.len() as int + 3) / 4
    }
}

/// The first position of a text in a list, or the length of the list where it is not in it.
pub open spec fn position(texts: Seq<Text>, text: Text) -> int
    decreases texts.len(),
{
    if texts.len() == 0 || texts[0] == text {
        0
    } else {
        1 + position(texts.drop_first(), text)
    }
}

/// A text as Rust's `{:?}` shows it.
pub uninterp spec fn debug_quoted(text: Text) -> Text;

/// The `Debug` of `str`. It depends on the text alone.
#[verifier::external_body]
fn debug_text(text: &str) -> (shown: String)
    ensures
        shown@ == debug_quoted(text@),
{
    format!("{:?}", text)
}

/// An optional text as Rust's `{:?}` shows it.
pub open spec fn debug_optional(text: Option<Text>) -> Text {
    match text {
        Some(text) => "Some("@ + debug_quoted(text) + ")"@,
        None => "None"@,
    }
}

pub fn show_optional(text: &Option<String>) -> (shown: String)
    ensures
        shown@ == debug_optional(text.deep_view()),
{
    match text {
        Some(text) => concat3("Some(", debug_text(text.as_str()).as_str(), ")"),
        None => "None".to_owned(),
    }
}

pub fn position_of(texts: &Vec<String>, text: &str) -> (at: usize)
    ensures
        at == position(texts.deep_view(), text@),
{
    let mut i: usize = 0;
    let ghost all = texts.deep_view();
    proof {
        assert(all.skip(0) =~= all);
    }
    while i < texts.len() && !same_text(texts[i].as_str(), text)
        invariant
            i <= texts.len(),
            all == texts.deep_view(),
            position(all, text@) == i + position(all.skip(i as int), text@),
        decreases texts.len() - i,
    {
        proof {
            assert(all.skip(i as int).drop_first() =~= all.skip(i + 1));
            assert(all.skip(i as int)[0] == texts[i as int]@);
        }
        i = i + 1;
    }
    proof {
        if i < texts.len() {
            assert(all.skip(i as int)[0] == texts[i as int]@);
        }
    }
    i
}

/// Whether `texts` holds `text`.
pub open spec fn listed(texts: Seq<Text>, text: Text) -> bool {
    exists|i: int| 0 <= i < texts.len() && #[trigger] texts[i] == text
}

pub fn space_char(c: char) -> (b: bool)
    ensures
        b == is_space(c),
{
    ('\u{9}' <= c && c <= '\u{d}') || c == ' ' || c == '\u{85}' || c == '\u{a0}' || c == '\u{1680}'
        || ('\u{2000}' <= c && c <= '\u{200a}') || c == '\u{2028}' || c == '\u{2029}' || c
        == '\u{202f}' || c == '\u{205f}' || c == '\u{3000}'
}

pub fn is_blank(text: &str) -> (b: bool)
    ensures
        b == blank(text@),
{
    let len: usize = text.unicode_len();
    let mut i: usize = 0;
    while i < len
        invariant
            len == text@.len(),
            i <= len,
            forall|k: int| 0 <= k < i ==> is_space(#[trigger] text@[k]),
        decreases len - i,
    {
        if !space_char(text.get_char(i)) {
            return false;
        }
        i = i + 1;
    }
    true
}

proof fn trimmed_start_is(text: Text, start: int)
    requires
        0 <= start <= text.len(),
        forall|k: int| 0 <= k < start ==> is_space(#[trigger] text[k]),
        start < text.len() ==> !is_space(text[start]),
    ensures
        trimmed_start(text) == text.subrange(start, text.len() as int),
    decreases text.len(),
{
    if start > 0 {
        let rest = text.drop_first();
        assert forall|k: int| 0 <= k < start - 1 implies is_space(#[trigger] rest[k]) by {
            assert(rest[k] == text[k + 1]);
        }
        trimmed_start_is(rest, start - 1);
        assert(rest.subrange(start - 1, rest.len() as int) =~= text.subrange(
            start,
            text.len() as int,
        ));
    } else {
        assert(text.subrange(0, text.len() as int) =~= text);
    }
}

proof fn trimmed_end_is(text: Text, end: int)
    requires
        0 <= end <= text.len(),
        forall|k: int| end <= k < text.len() ==> is_space(#[trigger] text[k]),
        end > 0 ==> !is_space(text[end - 1]),
    ensures
        trimmed_end(text) == text.subrange(0, end),
    decreases text.len(),
{
    if end < text.len() {
        trimmed_end_is(text.drop_last(), end);
        assert(text.drop_last().subrange(0, end) =~= text.subrange(0, end));
    } else {
        assert(text.subrange(0, end) =~= text);
    }
}

/// A text is blank exactly where nothing is left of it after trimming.
pub proof fn trimmed_of_blank(text: Text)
    ensures
        blank(text) <==> trimmed(text).len() == 0,
{
    let start = first_non_space(text, 0);
    trimmed_start_is(text, start);
    let rest = trimmed_start(text);
    if start == text.len() {
        assert(rest.len() == 0);
    } else {
        assert(rest[0] == text[start]);
        trimmed_end_nonempty(rest);
        assert(!is_space(text[start]));
    }
}

/// Trimming takes white space off both ends and nothing else: what is left neither starts nor ends
/// with white space, and what was taken off is blank.
pub proof fn trimming_takes_off_space(text: Text) -> (at: (int, int))
    ensures
        0 <= at.0 <= at.1 <= text.len(),
        trimmed(text) == text.subrange(at.0, at.1),
        blank(text.subrange(0, at.0)),
        blank(text.subrange(at.1, text.len() as int)),
        at.0 < at.1 ==> !is_space(text[at.0]) && !is_space(text[at.1 - 1]),
{
    let start = first_non_space(text, 0);
    trimmed_start_is(text, start);
    let rest = trimmed_start(text);
    let end = last_non_space(rest, rest.len() as int);
    trimmed_end_is(rest, end);
    assert(trimmed(text) =~= text.subrange(start, start + end));
    assert forall|i: int| 0 <= i < text.len() - (start + end) implies is_space(
        #[trigger] text.subrange(start + end, text.len() as int)[i],
    ) by {
        assert(rest[end + i] == text[start + end + i]);
    }
    if end > 0 {
        assert(rest[end - 1] == text[start + end - 1]);
        assert(start < text.len());
    }
    (start, start + end)
}

proof fn last_non_space(text: Text, to: int) -> (end: int)
    requires
        0 <= to <= text.len(),
        forall|k: int| to <= k < text.len() ==> is_space(#[trigger] text[k]),
    ensures
        0 <= end <= text.len(),
        forall|k: int| end <= k < text.len() ==> is_space(#[trigger] text[k]),
        end > 0 ==> !is_space(text[end - 1]),
    decreases to,
{
    if to > 0 && is_space(text[to - 1]) {
        last_non_space(text, to - 1)
    } else {
        to
    }
}

/// A text is blank exactly where it is so when trimmed.
pub proof fn blank_is_trimmed(text: Text)
    ensures
        blank(trimmed(text)) <==> blank(text),
{
    trimmed_of_blank(text);
    let at = trimming_takes_off_space(text);
    if at.0 < at.1 {
        assert(trimmed(text)[0] == text[at.0]);
    }
}

proof fn trimmed_end_nonempty(text: Text)
    requires
        text.len() > 0,
        !is_space(text[0]),
    ensures
        trimmed_end(text).len() > 0,
    decreases text.len(),
{
    if is_space(text.last()) {
        trimmed_end_nonempty(text.drop_last());
    }
}

proof fn first_non_space(text: Text, from: int) -> (start: int)
    requires
        0 <= from <= text.len(),
        forall|k: int| 0 <= k < from ==> is_space(#[trigger] text[k]),
    ensures
        0 <= start <= text.len(),
        forall|k: int| 0 <= k < start ==> is_space(#[trigger] text[k]),
        start < text.len() ==> !is_space(text[start]),
    decreases text.len() - from,
{
    if from < text.len() && is_space(text[from]) {
        first_non_space(text, from + 1)
    } else {
        from
    }
}

pub fn trim_text(text: &str) -> (r: String)
    ensures
        r@ == trimmed(text@),
{
    let len: usize = text.unicode_len();
    let mut start: usize = 0;
    while start < len && space_char(text.get_char(start))
        invariant
            len == text@.len(),
            start <= len,
            forall|k: int| 0 <= k < start ==> is_space(#[trigger] text@[k]),
        decreases len - start,
    {
        start = start + 1;
    }
    let mut end: usize = len;
    while start < end && space_char(text.get_char(end - 1))
        invariant
            len == text@.len(),
            start <= end <= len,
            forall|k: int| end <= k < len ==> is_space(#[trigger] text@[k]),
        decreases end,
    {
        end = end - 1;
    }
    proof {
        trimmed_start_is(text@, start as int);
        let rest = trimmed_start(text@);
        assert forall|k: int| end - start <= k < rest.len() implies is_space(#[trigger] rest[k]) by {
            assert(rest[k] == text@[k + start]);
        }
        if end > start {
            assert(rest[end - start - 1] == text@[end - 1]);
        }
        trimmed_end_is(rest, end - start);
        assert(rest.subrange(0, end - start) =~= text@.subrange(start as int, end as int));
    }
    text.substring_char(start, end).to_owned()
}

pub fn same_text(left: &str, right: &str) -> (b: bool)
    ensures
        b == (left@ == right@),
{
    let left: String = left.to_owned();
    let right: String = right.to_owned();
    left == right
}

pub fn same_optional_text(left: &Option<String>, right: &Option<String>) -> (b: bool)
    ensures
        b == (left.deep_view() == right.deep_view()),
{
    match (left, right) {
        (None, None) => true,
        (Some(left), Some(right)) => *left == *right,
        _ => false,
    }
}

/// The characters of a text, one by one.
pub fn chars_of(text: &str) -> (r: Vec<char>)
    ensures
        r@ == text@,
{
    let mut r: Vec<char> = Vec::new();
    for c in iter: text.chars()
        invariant
            iter.seq() == text@,
            r@ == text@.take(iter.index()),
    {
        proof {
            assert(text@.take(iter.index() + 1) =~= text@.take(iter.index()).push(c));
        }
        r.push(c);
    }
    proof {
        assert(text@.take(text@.len() as int) =~= text@);
    }
    r
}

pub fn contains_text(whole: &str, part: &str) -> (b: bool)
    ensures
        b == occurs(whole@, part@),
{
    let whole_chars: Vec<char> = chars_of(whole);
    let part_chars: Vec<char> = chars_of(part);
    if part_chars.len() > whole_chars.len() {
        return false;
    }
    let last: usize = whole_chars.len() - part_chars.len();
    let mut at: usize = 0;
    loop
        invariant
            whole_chars@ == whole@,
            part_chars@ == part@,
            last == whole@.len() - part@.len(),
            at <= last,
            forall|k: int| 0 <= k < at ==> !#[trigger] occurs_at(whole@, part@, k),
        decreases last - at,
    {
        let mut i: usize = 0;
        while i < part_chars.len() && whole_chars[at + i] == part_chars[i]
            invariant
                whole_chars@ == whole@,
                part_chars@ == part@,
                last == whole_chars.len() - part_chars.len(),
                at <= last,
                i <= part_chars.len(),
                forall|k: int| 0 <= k < i ==> #[trigger] part@[k] == whole@[at + k],
            decreases part@.len() - i,
        {
            i = i + 1;
        }
        if i == part_chars.len() {
            proof {
                assert(whole@.subrange(at as int, at + part@.len()) =~= part@);
                assert(occurs_at(whole@, part@, at as int));
            }
            return true;
        }
        proof {
            if occurs_at(whole@, part@, at as int) {
                assert(whole@.subrange(at as int, at + part@.len())[i as int] == part@[i as int]);
            }
        }
        if at == last {
            return false;
        }
        at = at + 1;
    }
}

proof fn text_less_skips(left: Text, right: Text, i: int)
    requires
        0 <= i <= left.len(),
        i <= right.len(),
        forall|k: int| 0 <= k < i ==> #[trigger] left[k] == right[k],
    ensures
        text_less(left, right) == text_less(
            left.subrange(i, left.len() as int),
            right.subrange(i, right.len() as int),
        ),
    decreases i,
{
    if i == 0 {
        assert(left.subrange(0, left.len() as int) =~= left);
        assert(right.subrange(0, right.len() as int) =~= right);
    } else {
        let l = left.drop_first();
        let r = right.drop_first();
        assert(left[0] == right[0]);
        assert forall|k: int| 0 <= k < i - 1 implies #[trigger] l[k] == r[k] by {
            assert(left[k + 1] == right[k + 1]);
        }
        text_less_skips(l, r, i - 1);
        assert(l.subrange(i - 1, l.len() as int) =~= left.subrange(i, left.len() as int));
        assert(r.subrange(i - 1, r.len() as int) =~= right.subrange(i, right.len() as int));
    }
}

pub fn comes_before(left: &str, right: &str) -> (b: bool)
    ensures
        b == text_less(left@, right@),
{
    let l: Vec<char> = chars_of(left);
    let r: Vec<char> = chars_of(right);
    let mut i: usize = 0;
    while i < l.len() && i < r.len() && l[i] == r[i]
        invariant
            l@ == left@,
            r@ == right@,
            i <= l@.len(),
            i <= r@.len(),
            forall|k: int| 0 <= k < i ==> #[trigger] left@[k] == right@[k],
        decreases l@.len() - i,
    {
        i = i + 1;
    }
    proof {
        text_less_skips(left@, right@, i as int);
    }
    if i < l.len() && i < r.len() {
        l[i] < r[i]
    } else {
        i < r.len()
    }
}

/// No text comes before itself.
pub proof fn text_order_irreflexive(text: Text)
    ensures
        !text_less(text, text),
    decreases text.len(),
{
    if text.len() > 0 {
        text_order_irreflexive(text.drop_first());
    }
}

/// The order of texts is transitive.
pub proof fn text_order_transitive(a: Text, b: Text, c: Text)
    requires
        text_less(a, b),
        text_less(b, c),
    ensures
        text_less(a, c),
    decreases a.len(),
{
    if a.len() > 0 && a[0] == b[0] && b[0] == c[0] {
        text_order_transitive(a.drop_first(), b.drop_first(), c.drop_first());
    }
}

/// Of two different texts one comes before the other.
pub proof fn text_order_total(a: Text, b: Text)
    ensures
        a == b || text_less(a, b) || text_less(b, a),
    decreases a.len(),
{
    if a.len() == 0 || b.len() == 0 {
        if a.len() == 0 && b.len() == 0 {
            assert(a =~= b);
        }
    } else if a[0] == b[0] {
        text_order_total(a.drop_first(), b.drop_first());
        if a.drop_first() == b.drop_first() {
            assert(a =~= seq![a[0]] + a.drop_first());
            assert(b =~= seq![b[0]] + b.drop_first());
        }
    }
}

fn digit(d: u128) -> (r: &'static str)
    requires
        d < 10,
    ensures
        r@ == digit_text(d as nat),
{
    if d == 0 {
        "0"
    } else if d == 1 {
        "1"
    } else if d == 2 {
        "2"
    } else if d == 3 {
        "3"
    } else if d == 4 {
        "4"
    } else if d == 5 {
        "5"
    } else if d == 6 {
        "6"
    } else if d == 7 {
        "7"
    } else if d == 8 {
        "8"
    } else {
        "9"
    }
}

fn natural_to_text(n: u128) -> (r: String)
    ensures
        r@ == natural_text(n as nat),
    decreases n,
{
    if n < 10 {
        digit(n).to_owned()
    } else {
        let mut r: String = natural_to_text(n / 10);
        r.append(digit(n % 10));
        r
    }
}

pub fn number_text(n: i128) -> (r: String)
    requires
        n > i128::MIN,
    ensures
        r@ == decimal(n as int),
{
    if n < 0 {
        let mut r: String = "-".to_owned();
        r.append(natural_to_text((-n) as u128).as_str());
        r
    } else {
        natural_to_text(n as u128)
    }
}

pub fn join_text(parts: &Vec<String>, separator: &str) -> (r: String)
    ensures
        r@ == joined(parts.deep_view(), separator@),
{
    let mut r: String = String::new();
    let mut i: usize = 0;
    proof {
        assert(r@ =~= Seq::<char>::empty());
    }
    while i < parts.len()
        invariant
            i <= parts.len(),
            r@ == joined(parts.deep_view().take(i as int), separator@),
        decreases parts.len() - i,
    {
        proof {
            let next = parts.deep_view().take(i + 1);
            assert(next.drop_last() =~= parts.deep_view().take(i as int));
            assert(next.last() == parts.deep_view()[i as int]);
            if i == 0 {
                assert(next.len() == 1);
            }
        }
        if i == 0 {
            r = parts[i].clone();
        } else {
            r.append(separator);
            r.append(parts[i].as_str());
        }
        i = i + 1;
    }
    proof {
        assert(parts.deep_view().take(parts.len() as int) =~= parts.deep_view());
    }
    r
}

/// The full-text query that looks for `query` as one literal phrase.
pub open spec fn literal_phrase(query: Text) -> Text {
    "\""@ + quotes_doubled(query) + "\""@
}

pub fn literal_fts_query(query: &str) -> (r: String)
    ensures
        r@ == literal_phrase(query@),
{
    let mut r: String = "\"".to_owned();
    let len: usize = query.unicode_len();
    let mut i: usize = 0;
    proof {
        assert(query@.take(0) =~= Seq::<char>::empty());
        assert(r@ =~= "\""@ + quotes_doubled(query@.take(0)));
    }
    while i < len
        invariant
            len == query@.len(),
            i <= len,
            r@ == "\""@ + quotes_doubled(query@.take(i as int)),
        decreases len - i,
    {
        proof {
            let next = query@.take(i + 1);
            assert(next.drop_last() =~= query@.take(i as int));
            assert(next.last() == query@[i as int]);
        }
        if query.get_char(i) == '"' {
            r.append("\"\"");
            proof {
                assert(r@ =~= "\""@ + quotes_doubled(query@.take(i + 1)));
            }
        } else {
            r.append(query.substring_char(i, i + 1));
            proof {
                assert(r@ =~= "\""@ + quotes_doubled(query@.take(i + 1)));
            }
        }
        i = i + 1;
    }
    proof {
        assert(query@.take(len as int) =~= query@);
    }
    r.append("\"");
    r
}

pub fn estimate_tokens(text: &str) -> (tokens: i64)
    ensures
        tokens == token_estimate(text@),
        1 <= tokens <= 0x4000_0000_0000_0000,
{
    let len: usize = text.unicode_len();
    if len == 0 {
        1
    } else {
        ((len - 1) / 4) as i64 + 1
    }
}

pub fn concat2(a: &str, b: &str) -> (r: String)
    ensures
        r@ == a@ + b@,
{
    let mut r: String = a.to_owned();
    r.append(b);
    r
}

pub fn concat3(a: &str, b: &str, c: &str) -> (r: String)
    ensures
        r@ == a@ + b@ + c@,
{
    let mut r: String = concat2(a, b);
    r.append(c);
    r
}

pub fn concat4(a: &str, b: &str, c: &str, d: &str) -> (r: String)
    ensures
        r@ == a@ + b@ + c@ + d@,
{
    let mut r: String = concat3(a, b, c);
    r.append(d);
    r
}

pub fn concat5(a: &str, b: &str, c: &str, d: &str, e: &str) -> (r: String)
    ensures
        r@ == a@ + b@ + c@ + d@ + e@,
{
    let mut r: String = concat4(a, b, c, d);
    r.append(e);
    r
}

pub fn concat6(a: &str, b: &str, c: &str, d: &str, e: &str, f: &str) -> (r: String)
    ensures
        r@ == a@ + b@ + c@ + d@ + e@ + f@,
{
    let mut r: String = concat5(a, b, c, d, e);
    r.append(f);
    r
}

pub fn is_listed(texts: &Vec<String>, text: &str) -> (b: bool)
    ensures
        b == listed(texts.deep_view(), text@),
{
    let mut i: usize = 0;
    while i < texts.len()
        invariant
            i <= texts.len(),
            forall|k: int| 0 <= k < i ==> #[trigger] texts.deep_view()[k] != text@,
        decreases texts.len() - i,
    {
        if same_text(texts[i].as_str(), text) {
            proof {
                assert(texts.deep_view()[i as int] == text@);
            }
            return true;
        }
        i = i + 1;
    }
    false
}

} // verus!
