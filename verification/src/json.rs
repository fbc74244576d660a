//! JSON: the shape of a document, and the texts written to the event log.
use crate::ids::hex_number;
use crate::text::digit_char;
use vstd::prelude::*;

verus! {

/// What sort of value a JSON document holds.
#[derive(Debug, Clone, Copy, PartialEq, Eq, Structural)]
pub enum JsonShape {
    Null,
    Bool,
    Number,
    Text,
    Array,
    Object,
}

/// The white space that JSON allows between tokens.
pub open spec fn is_json_space(c: char) -> bool {
    c == ' ' || c == '\t' || c == '\n' || c == '\r'
}

/// How `c` is written inside a JSON string.
pub open spec fn escaped_char(c: char) -> Seq<char> {
    let u = c as u32;
    if c == '"' {
        seq!['\\', '"']
    } else if c == '\\' {
        seq!['\\', '\\']
    } else if u == 0x08 {
        seq!['\\', 'b']
    } else if u == 0x09 {
        seq!['\\', 't']
    } else if u == 0x0a {
        seq!['\\', 'n']
    } else if u == 0x0c {
        seq!['\\', 'f']
    } else if u == 0x0d {
        seq!['\\', 'r']
    } else if u < 0x20 {
        seq!['\\', 'u', '0', '0', digit_char((u / 16) as int), digit_char((u % 16) as int)]
    } else {
        seq![c]
    }
}

/// The characters of `s` as they are written inside a JSON string.
pub open spec fn escaped(s: Seq<char>) -> Seq<char>
    decreases s.len(),
{
    if s.len() == 0 {
        Seq::empty()
    } else {
        escaped(s.drop_last()) + escaped_char(s.last())
    }
}

/// `s` as a JSON string.
pub open spec fn quoted(s: Seq<char>) -> Seq<char> {
    seq!['"'] + escaped(s) + seq!['"']
}

/// The JSON object that holds the text `value` under `key` and nothing else.
pub open spec fn one_field_object(key: Seq<char>, value: Seq<char>) -> Seq<char> {
    seq!['{'] + quoted(key) + seq![':'] + quoted(value) + seq!['}']
}

/// The key by which `serde_json` hands a raw value on to itself.
pub const RAW_VALUE_KEY: &'static str = "$serde_json::private::RawValue";

/// The key by which `serde_json` hands a number on to itself.
pub const NUMBER_KEY: &'static str = "$serde_json::private::Number";

/// Where the next token after `i` starts.
pub open spec fn after_space(text: Seq<char>, i: int) -> int
    decreases text.len() - i,
{
    if 0 <= i < text.len() && is_json_space(text[i]) {
        after_space(text, i + 1)
    } else {
        i
    }
}

/// From `i` on, up to the closing quote, stands `key`, a text that JSON has no short
/// escape for: each character as it is, or by its number.
pub open spec fn writes_key(text: Seq<char>, i: int, key: Seq<char>) -> bool
    decreases key.len(),
{
    if !(0 <= i < text.len()) {
        false
    } else if key.len() == 0 {
        text[i] == '"'
    } else if text[i] == key[0] {
        writes_key(text, i + 1, key.drop_first())
    } else {
        &&& text[i] == '\\'
        &&& i + 6 <= text.len()
        &&& text[i + 1] == 'u'
        &&& hex_number(text.subrange(i + 2, i + 6)) == Some(key[0] as nat)
        &&& writes_key(text, i + 6, key.drop_first())
    }
}

/// Behind the first character of the text, which is a brace, comes a key by which
/// `serde_json` hands values on to itself.
pub open spec fn opens_privately(text: Seq<char>) -> bool {
    let i = after_space(text, 1);
    &&& 0 <= i < text.len()
    &&& text[i] == '"'
    &&& writes_key(text, i + 1, RAW_VALUE_KEY@) || writes_key(text, i + 1, NUMBER_KEY@)
}

/// What `serde_json::from_str::<serde_json::Value>` makes of a text: the shape of
/// the value, or nothing where the text is no JSON document.
pub uninterp spec fn json_shape(text: Seq<char>) -> Option<JsonShape>;

/// The error of a JSON parse.
#[verifier::external_type_specification]
#[verifier::external_body]
pub struct ExJsonError(serde_json::Error);

/// Calls `serde_json::from_str::<serde_json::Value>` and keeps the value's shape.
/// Trusted: shape and failure are a function of the text; the text of an object has
/// `{` as its first character, unless that is white space; and a text that parses and
/// starts with `{` is an object. Nothing is claimed of the shape where the first key is
/// one by which `serde_json` hands values on to itself.
#[verifier::external_body]
pub(crate) fn parse_json(text: &str) -> (r: Result<JsonShape, serde_json::Error>)
    ensures
        match r {
            Ok(shape) => json_shape(text@) == Some(shape),
            Err(_) => json_shape(text@) is None,
        },
        r is Ok && r->Ok_0 == JsonShape::Object ==> text@.len() > 0 && (is_json_space(text@[0])
            || text@[0] == '{'),
        r is Ok && text@.len() > 0 && text@[0] == '{' && !opens_privately(text@) ==> r->Ok_0
            == JsonShape::Object,
{
    match serde_json::from_str::<serde_json::Value>(text) {
        Ok(serde_json::Value::Null) => Ok(JsonShape::Null),
        Ok(serde_json::Value::Bool(_)) => Ok(JsonShape::Bool),
        Ok(serde_json::Value::Number(_)) => Ok(JsonShape::Number),
        Ok(serde_json::Value::String(_)) => Ok(JsonShape::Text),
        Ok(serde_json::Value::Array(_)) => Ok(JsonShape::Array),
        Ok(serde_json::Value::Object(_)) => Ok(JsonShape::Object),
        Err(e) => Err(e),
    }
}

/// Calls `serde_json::Value`'s `Display`, through `to_string`, on an object of one
/// text field. Trusted: the text is compact, and key and value are written as JSON
/// strings, with the short escapes where JSON has one.
#[verifier::external_body]
pub(crate) fn object_text(key: &str, value: &str) -> (r: String)
    ensures
        r@ == one_field_object(key@, value@),
{
    let mut fields = serde_json::Map::new();
    fields.insert(key.to_string(), serde_json::Value::String(value.to_string()));
    serde_json::Value::Object(fields).to_string()
}

/// Nothing that is written inside a JSON string ends it early: every `"` there
/// stands behind a backslash.
pub proof fn escaped_text_has_no_bare_quote(s: Seq<char>, i: int)
    requires
        0 <= i < escaped(s).len(),
        escaped(s)[i] == '"',
    ensures
        i > 0,
        escaped(s)[i - 1] == '\\',
    decreases s.len(),
{
    let head = escaped(s.drop_last());
    let tail = escaped_char(s.last());
    if i < head.len() {
        escaped_text_has_no_bare_quote(s.drop_last(), i);
    } else {
        assert(escaped(s)[i] == tail[i - head.len()]);
        let u = s.last() as u32;
        assert(u < 0x20 ==> digit_char((u / 16) as int) != '"' && digit_char((u % 16) as int)
            != '"');
        assert(i - head.len() == 1);
        assert(escaped(s)[i - 1] == tail[0]);
    }
}

} // verus!
