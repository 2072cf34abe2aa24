//! JSON values, held as their compact texts.

use vstd::prelude::*;

use crate::table::Duplicate;
use crate::text::{decimal, join_text, joined, number_text, text_less, Text};

verus! {

/// The compact text of the JSON value that is read from `raw`, where one is.
pub uninterp spec fn json_parsed(raw: Text) -> Option<Text>;

/// A hexadecimal digit, in lower case.
pub open spec fn hex_digit(n: int) -> char {
    "0123456789abcdef"@[n]
}

/// How a character is written in a JSON string: quotes, backslashes and control characters are
/// escaped, everything else stands for itself.
pub open spec fn json_escaped() -> spec_fn(char) -> Text {
    |c: char|
        if c == '"' || c == '\\' {
            seq!['\\', c]
        } else if c == '\u{8}' {
            seq!['\\', 'b']
        } else if c == '\t' {
            seq!['\\', 't']
        } else if c == '\n' {
            seq!['\\', 'n']
        } else if c == '\u{c}' {
            seq!['\\', 'f']
        } else if c == '\r' {
            seq!['\\', 'r']
        } else if (c as u32) < 32 {
            seq!['\\', 'u', '0', '0', hex_digit(c as int / 16), hex_digit(c as int % 16)]
        } else {
            seq![c]
        }
}

/// A text as a JSON string, quoted and escaped.
pub open spec fn json_quoted(text: Text) -> Text {
    "\""@ + text.flat_map(json_escaped()) + "\""@
}

/// Quoting never shortens a text.
pub proof fn quoting_lengthens(text: Text)
    ensures
        json_quoted(text).len() >= text.len() + 2,
{
    reveal_strlit("\"");
    escaping_lengthens(text);
}

proof fn escaping_lengthens(text: Text)
    ensures
        text.flat_map(json_escaped()).len() >= text.len(),
    decreases text.len(),
{
    if text.len() > 0 {
        let rest = text.drop_first();
        escaping_lengthens(rest);
        assert(text.map_values(json_escaped()).drop_first() =~= rest.map_values(json_escaped()));
    }
}

/// Whether a text needs no escapes in a JSON string.
pub open spec fn plain_text(text: Text) -> bool {
    forall|i: int| 0 <= i < text.len() ==> (json_escaped())(#[trigger] text[i]) == seq![text[i]]
}

/// A text that needs no escapes is quoted as it is.
pub proof fn plain_text_is_kept(text: Text)
    requires
        plain_text(text),
    ensures
        json_quoted(text) == "\""@ + text + "\""@,
{
    plain_text_is_not_escaped(text);
}

proof fn plain_text_is_not_escaped(text: Text)
    requires
        plain_text(text),
    ensures
        text.flat_map(json_escaped()) == text,
    decreases text.len(),
{
    if text.len() > 0 {
        let rest = text.drop_first();
        assert forall|i: int| 0 <= i < rest.len() implies (json_escaped())(#[trigger] rest[i])
            == seq![rest[i]] by {
            assert(rest[i] == text[i + 1]);
        }
        plain_text_is_not_escaped(rest);
        assert(text.map_values(json_escaped()).drop_first() =~= rest.map_values(json_escaped()));
        assert((json_escaped())(text[0]) == seq![text[0]]);
        assert(text.flat_map(json_escaped()) =~= seq![text[0]] + rest);
    }
    assert(text.flat_map(json_escaped()) =~= text);
}

/// The text that a JSON string stands for, where `json` is a JSON string.
pub uninterp spec fn json_string(json: Text) -> Option<Text>;

/// Whether two JSON texts stand for one value.
pub uninterp spec fn json_equal(left: Text, right: Text) -> bool;

/// The text under `field` in a JSON text that is not that of an object with two strings, where
/// there is a string under it.
pub uninterp spec fn json_other_field(json: Text, field: Text) -> Option<Text>;

/// Two fields of an object that hold strings.
pub struct StringPair {
    pub first: Text,
    pub first_text: Text,
    pub second: Text,
    pub second_text: Text,
}

/// The compact text of the object with two fields that hold strings.
pub open spec fn pair_text(pair: StringPair) -> Text {
    "{"@ + json_quoted(pair.first) + ":"@ + json_quoted(pair.first_text) + ","@ + json_quoted(
        pair.second,
    ) + ":"@ + json_quoted(pair.second_text) + "}"@
}

pub open spec fn is_pair(json: Text, pair: StringPair) -> bool {
    pair.first != pair.second && json == pair_text(pair)
}

/// The text under `field` in a JSON object, where there is a string under it.
pub open spec fn json_text_field(json: Text, field: Text) -> Option<Text> {
    field_of_pair(json, field, json_other_field(json, field))
}

/// The text under `field` in the compact text of an object with two strings, and `other` for any
/// other text.
pub open spec fn field_of_pair(json: Text, field: Text, other: Option<Text>) -> Option<Text> {
    if exists|pair: StringPair| #[trigger] is_pair(json, pair) {
        let pair = choose|pair: StringPair| #[trigger] is_pair(json, pair);
        if field == pair.first {
            Some(pair.first_text)
        } else if field == pair.second {
            Some(pair.second_text)
        } else {
            None
        }
    } else {
        other
    }
}

proof fn hex_digits_differ(a: int, b: int)
    requires
        0 <= a < 16,
        0 <= b < 16,
        hex_digit(a) == hex_digit(b),
    ensures
        a == b,
{
    reveal_strlit("0123456789abcdef");
}

/// How a character is written tells which it is, and where it ends; none is written as a quote.
proof fn escapes_differ(c: char, d: char, left: Text, right: Text)
    requires
        (json_escaped())(c) + left == (json_escaped())(d) + right,
    ensures
        c == d,
        left == right,
{
    let a = (json_escaped())(c);
    let b = (json_escaped())(d);
    let all = a + left;
    assert(all[0] == a[0] && all[0] == b[0]);
    if a[0] == '\\' {
        assert(all[1] == a[1] && all[1] == b[1]);
        if a[1] == 'u' {
            assert(all[4] == a[4] && all[4] == b[4]);
            assert(all[5] == a[5] && all[5] == b[5]);
            hex_digits_differ(c as int / 16, d as int / 16);
            hex_digits_differ(c as int % 16, d as int % 16);
            assert(c as int == d as int);
            assert(c as u32 == d as u32);
        }
    }
    assert(c == d);
    assert(left =~= all.skip(a.len() as int));
    assert(right =~= all.skip(a.len() as int));
}

proof fn escaped_texts_end(left: Text, right: Text, after_left: Text, after_right: Text)
    requires
        left.flat_map(json_escaped()) + seq!['"'] + after_left == right.flat_map(json_escaped())
            + seq!['"'] + after_right,
    ensures
        left == right,
        after_left == after_right,
    decreases left.len(),
{
    let f = json_escaped();
    let a = left.flat_map(f) + seq!['"'] + after_left;
    let b = right.flat_map(f) + seq!['"'] + after_right;
    if left.len() > 0 {
        assert(left.map_values(f).drop_first() =~= left.drop_first().map_values(f));
        let rest = left.drop_first().flat_map(f) + seq!['"'] + after_left;
        assert(a =~= f(left[0]) + rest);
        assert(a[0] == f(left[0])[0]);
    } else {
        assert(a[0] == '"');
    }
    if right.len() > 0 {
        assert(right.map_values(f).drop_first() =~= right.drop_first().map_values(f));
        let rest = right.drop_first().flat_map(f) + seq!['"'] + after_right;
        assert(b =~= f(right[0]) + rest);
        assert(b[0] == f(right[0])[0]);
    } else {
        assert(b[0] == '"');
    }
    if left.len() > 0 && right.len() > 0 {
        let first = left.drop_first().flat_map(f) + seq!['"'] + after_left;
        let second = right.drop_first().flat_map(f) + seq!['"'] + after_right;
        escapes_differ(left[0], right[0], first, second);
        escaped_texts_end(left.drop_first(), right.drop_first(), after_left, after_right);
        assert(left =~= seq![left[0]] + left.drop_first());
        assert(right =~= seq![right[0]] + right.drop_first());
    } else {
        assert(left =~= right);
        assert(after_left =~= a.skip(1));
        assert(after_right =~= b.skip(1));
    }
}

/// A JSON string tells which text it stands for, and where it ends.
pub proof fn quoted_texts_end(left: Text, right: Text, after_left: Text, after_right: Text)
    requires
        json_quoted(left) + after_left == json_quoted(right) + after_right,
    ensures
        left == right,
        after_left == after_right,
{
    reveal_strlit("\"");
    let f = json_escaped();
    let all = json_quoted(left) + after_left;
    assert("\""@ =~= seq!['"']);
    let a = left.flat_map(f) + seq!['"'] + after_left;
    let b = right.flat_map(f) + seq!['"'] + after_right;
    assert(a =~= all.skip(1));
    assert(b =~= all.skip(1));
    escaped_texts_end(left, right, after_left, after_right);
}

/// Reading a field of an object with two strings gives its string.
pub proof fn pair_is_read_back(pair: StringPair)
    requires
        pair.first != pair.second,
    ensures
        json_text_field(pair_text(pair), pair.first) == Some(pair.first_text),
        json_text_field(pair_text(pair), pair.second) == Some(pair.second_text),
{
    let json = pair_text(pair);
    assert(is_pair(json, pair));
    let found = choose|found: StringPair| #[trigger] is_pair(json, found);
    pair_tail(pair);
    pair_tail(found);
    quoted_texts_end(pair.first, found.first, tail_one(pair), tail_one(found));
    same_after(
        ":"@,
        json_quoted(pair.first_text) + tail_two(pair),
        json_quoted(found.first_text) + tail_two(found),
    );
    quoted_texts_end(pair.first_text, found.first_text, tail_two(pair), tail_two(found));
    same_after(
        ","@,
        json_quoted(pair.second) + tail_three(pair),
        json_quoted(found.second) + tail_three(found),
    );
    quoted_texts_end(pair.second, found.second, tail_three(pair), tail_three(found));
    same_after(":"@, json_quoted(pair.second_text) + "}"@, json_quoted(found.second_text) + "}"@);
    quoted_texts_end(pair.second_text, found.second_text, "}"@, "}"@);
}

spec fn tail_three(pair: StringPair) -> Text {
    ":"@ + (json_quoted(pair.second_text) + "}"@)
}

spec fn tail_two(pair: StringPair) -> Text {
    ","@ + (json_quoted(pair.second) + tail_three(pair))
}

spec fn tail_one(pair: StringPair) -> Text {
    ":"@ + (json_quoted(pair.first_text) + tail_two(pair))
}

proof fn pair_tail(pair: StringPair)
    ensures
        json_quoted(pair.first) + tail_one(pair) == pair_text(pair).skip(1),
{
    reveal_strlit("{");
    assert(pair_text(pair).skip(1) =~= json_quoted(pair.first) + tail_one(pair));
}

proof fn same_after(head: Text, left: Text, right: Text)
    requires
        head + left == head + right,
    ensures
        left == right,
{
    assert(left =~= (head + left).skip(head.len() as int));
    assert(right =~= (head + right).skip(head.len() as int));
}

/// The JSON text of an object, its fields given by their names and the JSON texts of their values.
pub open spec fn object_text(fields: Seq<(Text, Text)>) -> Text {
    "{"@ + joined(fields.map_values(field_text()), ","@) + "}"@
}

/// A field of an object: its quoted name, a colon and the JSON text of its value.
pub open spec fn field_text() -> spec_fn((Text, Text)) -> Text {
    |field: (Text, Text)| json_quoted(field.0) + ":"@ + field.1
}

/// The JSON text of an array of values given by their JSON texts.
pub open spec fn array_text(items: Seq<Text>) -> Text {
    "["@ + joined(items, ","@) + "]"@
}

pub open spec fn quoted_all() -> spec_fn(Text) -> Text {
    |text: Text| json_quoted(text)
}

/// The JSON text of an array of strings.
pub open spec fn string_array_text(texts: Seq<Text>) -> Text {
    array_text(texts.map_values(quoted_all()))
}

/// The JSON text of an optional string.
pub open spec fn optional_quoted(text: Option<Text>) -> Text {
    match text {
        Some(text) => json_quoted(text),
        None => "null"@,
    }
}

/// The JSON text of an optional integer.
pub open spec fn optional_decimal(number: Option<i64>) -> Text {
    match number {
        Some(number) => decimal(number as int),
        None => "null"@,
    }
}

/// `serde_json::from_str` into a `serde_json::Value`, then its `Display`: the compact text of the
/// value, or nothing where no value is read. The result depends on `raw` alone.
#[verifier::external_body]
fn compact_json(raw: &str) -> (text: Option<String>)
    ensures
        text.deep_view() == json_parsed(raw@),
{
    match serde_json::from_str::<serde_json::Value>(raw) {
        Ok(value) => Some(value.to_string()),
        Err(_) => None,
    }
}

/// The `Display` of a `serde_json::Value::String`: the text in quotes, with a backslash before
/// quotes and backslashes, the five short escapes of control characters and `\u00` with two
/// hexadecimal digits for the others. Reading the result back as a JSON string gives the text.
#[verifier::external_body]
pub(crate) fn quote(text: &str) -> (json: String)
    ensures
        json@ == json_quoted(text@),
        json_string(json@) == Some(text@),
{
    serde_json::Value::String(text.to_owned()).to_string()
}

/// `serde_json::from_str` into a `String`: the text that a JSON string stands for, or nothing
/// where `json` is anything else. It depends on `json` alone.
#[verifier::external_body]
fn unquote(json: &str) -> (text: Option<String>)
    ensures
        text.deep_view() == json_string(json@),
{
    serde_json::from_str::<String>(json).ok()
}

/// `==` on the two `serde_json::Value`s that `serde_json::from_str` reads, as `Result`s without
/// their errors. It depends on the two texts alone.
#[verifier::external_body]
fn equal_json(left: &str, right: &str) -> (b: bool)
    ensures
        b == json_equal(left@, right@),
{
    let left = serde_json::from_str::<serde_json::Value>(left).ok();
    let right = serde_json::from_str::<serde_json::Value>(right).ok();
    left == right
}

/// `serde_json::Value::get` and `as_str` on what `serde_json::from_str` reads: the string under a
/// field of an object, or nothing. In the compact text of an object with two strings these are
/// found under their fields; of other texts nothing is claimed but that the result depends on the
/// two texts alone.
#[verifier::external_body]
fn text_field(json: &str, field: &str) -> (text: Option<String>)
    ensures
        text.deep_view() == field_of_pair(json@, field@, json_other_field(json@, field@)),
{
    let value = serde_json::from_str::<serde_json::Value>(json).ok()?;
    Some(value.get(field)?.as_str()?.to_owned())
}

/// The `Display` of a `serde_json::Value::Object` with two string fields: the fields in the order
/// of their names.
#[verifier::external_body]
fn two_field_object(first: &str, first_text: &str, second: &str, second_text: &str) -> (json: String)
    requires
        text_less(first@, second@),
    ensures
        json@ == object_text(
            seq![(first@, json_quoted(first_text@)), (second@, json_quoted(second_text@))],
        ),
{
    let mut fields = serde_json::Map::new();
    fields.insert(first.to_owned(), serde_json::Value::String(first_text.to_owned()));
    fields.insert(second.to_owned(), serde_json::Value::String(second_text.to_owned()));
    serde_json::Value::Object(fields).to_string()
}

/// A JSON value, held as its compact text.
#[derive(Clone, Debug, PartialEq, Eq)]
pub struct JsonValue {
    text: String,
}

impl View for JsonValue {
    type V = Text;

    closed spec fn view(&self) -> Text {
        self.text@
    }
}

impl DeepView for JsonValue {
    type V = Text;

    open spec fn deep_view(&self) -> Text {
        self@
    }
}

impl Duplicate for JsonValue {
    fn duplicate(&self) -> (copy: Self) {
        JsonValue { text: self.text.clone() }
    }
}

/// Whether a compact JSON text is that of an object.
pub open spec fn is_object_text(json: Text) -> bool {
    json.len() > 0 && json[0] == '{'
}

/// Whether two compact JSON texts stand for equal values.
pub open spec fn same_json(left: Text, right: Text) -> bool {
    left == right || json_equal(left, right)
}

/// What of a JSON value is searched: the text of a string, the JSON text of anything else.
pub open spec fn searchable(json: Text) -> Text {
    match json_string(json) {
        Some(text) => text,
        None => json,
    }
}

/// The value that a raw argument stands for: the JSON value it writes, or else itself as a string.
pub open spec fn json_or_string(raw: Text) -> Text {
    match json_parsed(raw) {
        Some(text) => text,
        None => json_quoted(raw),
    }
}

/// The compact text of the object without fields.
pub open spec fn empty_object() -> Text {
    "{}"@
}

/// What stands in place of content that must not be stored.
pub open spec fn omitted_content() -> Text {
    "{\"omitted\":true,\"reason\":\"do-not-store\"}"@
}

/// What an agent is shown in place of secret content.
pub open spec fn redacted_content() -> Text {
    "{\"reason\":\"secret\",\"redacted\":true}"@
}

/// The metadata of a generated command event, with the claim that owns it.
pub open spec fn command_metadata(owner: Text) -> Text {
    object_text(
        seq![("generatedBy"@, json_quoted("omk"@)), ("ownerClaimId"@, json_quoted(owner))],
    )
}

/// The metadata of a generated command event tells who generated it and which claim owns it.
pub proof fn command_metadata_is_read_back(owner: Text)
    ensures
        json_text_field(command_metadata(owner), "generatedBy"@) == Some("omk"@),
        json_text_field(command_metadata(owner), "ownerClaimId"@) == Some(owner),
{
    reveal_strlit("generatedBy");
    reveal_strlit("ownerClaimId");
    let pair = StringPair {
        first: "generatedBy"@,
        first_text: "omk"@,
        second: "ownerClaimId"@,
        second_text: owner,
    };
    let fields = seq![
        ("generatedBy"@, json_quoted("omk"@)),
        ("ownerClaimId"@, json_quoted(owner)),
    ];
    let parts = fields.map_values(field_text());
    assert(pair.first.len() != pair.second.len());
    assert(parts =~= seq![(field_text())(fields[0]), (field_text())(fields[1])]);
    assert(parts.drop_last() =~= seq![parts[0]]);
    assert(parts.drop_first() =~= seq![parts[1]]);
    reveal_with_fuel(joined, 3);
    assert(command_metadata(owner) =~= pair_text(pair));
    pair_is_read_back(pair);
}

impl JsonValue {
    /// The value that `raw` writes.
    pub fn parse(raw: &str) -> (value: Option<JsonValue>)
        ensures
            value.deep_view() == json_parsed(raw@),
    {
        match compact_json(raw) {
            Some(text) => Some(JsonValue { text }),
            None => None,
        }
    }

    /// A string.
    pub fn string(text: &str) -> (value: JsonValue)
        ensures
            value@ == json_quoted(text@),
            json_string(value@) == Some(text@),
    {
        JsonValue { text: quote(text) }
    }

    /// The object without fields.
    pub fn empty_object() -> (value: JsonValue)
        ensures
            value@ == empty_object(),
    {
        JsonValue { text: "{}".to_owned() }
    }

    pub(crate) fn omitted() -> (value: JsonValue)
        ensures
            value@ == omitted_content(),
    {
        JsonValue { text: "{\"omitted\":true,\"reason\":\"do-not-store\"}".to_owned() }
    }

    pub(crate) fn redacted() -> (value: JsonValue)
        ensures
            value@ == redacted_content(),
    {
        JsonValue { text: "{\"reason\":\"secret\",\"redacted\":true}".to_owned() }
    }

    pub(crate) fn command_metadata(owner: &str) -> (value: JsonValue)
        ensures
            value@ == command_metadata(owner@),
    {
        proof {
            reveal_strlit("generatedBy");
            reveal_strlit("ownerClaimId");
        }
        JsonValue { text: two_field_object("generatedBy", "omk", "ownerClaimId", owner) }
    }

    /// The object with these fields, their values given by their JSON texts.
    pub(crate) fn object(fields: &Vec<(String, String)>) -> (value: JsonValue)
        ensures
            value@ == object_text(fields.deep_view()),
    {
        JsonValue { text: write_object(fields) }
    }

    /// The compact text of the value.
    pub fn text(&self) -> (text: &str)
        ensures
            text@ == self@,
    {
        self.text.as_str()
    }

    pub fn is_object(&self) -> (b: bool)
        ensures
            b == is_object_text(self@),
    {
        self.text.as_str().unicode_len() > 0 && self.text.as_str().get_char(0) == '{'
    }

    /// Whether two values are equal.
    pub fn same_value(&self, other: &JsonValue) -> (b: bool)
        ensures
            b == same_json(self@, other@),
    {
        self.text == other.text || equal_json(self.text.as_str(), other.text.as_str())
    }

    /// The string under a field of an object.
    pub fn text_field(&self, field: &str) -> (text: Option<String>)
        ensures
            text.deep_view() == json_text_field(self@, field@),
    {
        text_field(self.text.as_str(), field)
    }
}

/// What of a value is put into the full-text index.
pub fn searchable_json(value: &JsonValue) -> (text: String)
    ensures
        text@ == searchable(value@),
{
    match unquote(value.text.as_str()) {
        Some(text) => text,
        None => value.text.clone(),
    }
}

/// The value that a raw argument stands for.
pub fn parse_json_or_string(raw: &str) -> (value: JsonValue)
    ensures
        value@ == json_or_string(raw@),
{
    match JsonValue::parse(raw) {
        Some(value) => value,
        None => JsonValue::string(raw),
    }
}

/// Adds a field, its value given by its JSON text.
pub fn add_field(fields: &mut Vec<(String, String)>, name: &str, value: String)
    ensures
        final(fields).deep_view() == old(fields).deep_view().push((name@, value@)),
{
    fields.push((name.to_owned(), value));
    proof {
        assert(fields.deep_view() =~= old(fields).deep_view().push((name@, value@)));
    }
}

/// Writes an object.
pub fn write_object(fields: &Vec<(String, String)>) -> (json: String)
    ensures
        json@ == object_text(fields.deep_view()),
{
    let mut parts: Vec<String> = Vec::new();
    let mut i: usize = 0;
    while i < fields.len()
        invariant
            i <= fields.len(),
            parts.len() == i,
            forall|k: int|
                0 <= k < i ==> (#[trigger] parts[k])@ == (field_text())(fields.deep_view()[k]),
        decreases fields.len() - i,
    {
        let mut part: String = quote(fields[i].0.as_str());
        part.append(":");
        part.append(fields[i].1.as_str());
        proof {
            assert(fields.deep_view()[i as int] == (fields[i as int].0@, fields[i as int].1@));
        }
        parts.push(part);
        i = i + 1;
    }
    proof {
        assert(parts.deep_view() =~= fields.deep_view().map_values(field_text()));
    }
    let mut json: String = "{".to_owned();
    json.append(join_text(&parts, ",").as_str());
    json.append("}");
    json
}

/// Writes an array of values given by their JSON texts.
pub fn write_array(items: &Vec<String>) -> (json: String)
    ensures
        json@ == array_text(items.deep_view()),
{
    let mut json: String = "[".to_owned();
    json.append(join_text(items, ",").as_str());
    json.append("]");
    json
}

/// Quotes every text of a list.
pub fn quote_all(texts: &Vec<String>) -> (quoted: Vec<String>)
    ensures
        quoted.deep_view() == texts.deep_view().map_values(quoted_all()),
{
    let mut quoted: Vec<String> = Vec::new();
    let mut i: usize = 0;
    while i < texts.len()
        invariant
            i <= texts.len(),
            quoted.len() == i,
            forall|k: int| 0 <= k < i ==> (#[trigger] quoted[k])@ == json_quoted(texts[k]@),
        decreases texts.len() - i,
    {
        quoted.push(quote(texts[i].as_str()));
        i = i + 1;
    }
    proof {
        assert(quoted.deep_view() =~= texts.deep_view().map_values(quoted_all()));
    }
    quoted
}

/// Writes an array of strings.
pub fn write_string_array(texts: &Vec<String>) -> (json: String)
    ensures
        json@ == string_array_text(texts.deep_view()),
{
    write_array(&quote_all(texts))
}

/// Writes an optional integer.
pub fn write_optional_number(number: &Option<i64>) -> (json: String)
    ensures
        json@ == optional_decimal(*number),
{
    match number {
        Some(number) => number_text(*number as i128),
        None => "null".to_owned(),
    }
}

/// Writes an optional string.
pub fn quote_optional(text: &Option<String>) -> (json: String)
    ensures
        json@ == optional_quoted(text.deep_view()),
{
    match text {
        Some(text) => quote(text.as_str()),
        None => "null".to_owned(),
    }
}

} // verus!
