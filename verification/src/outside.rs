//! Calls into outside crates. Each item here is trusted: its contract states
//! what the outside crate's code does, and Verus does not check its body.

use vstd::prelude::*;
use crate::json::{JsonValue, views};
use vstd::utf8::{decode_utf8, valid_utf8};

verus! {

/// The list of strings that a JSON text denotes, if it denotes one: what
/// `serde_json::from_str::<Vec<String>>` parses.
pub uninterp spec fn json_string_list(text: Seq<char>) -> Option<Seq<Seq<char>>>;

/// The JSON text that `serde_json::to_string` writes for a list of strings.
pub uninterp spec fn json_text_of_strings(items: Seq<Seq<char>>) -> Seq<char>;

/// Calls `serde_json::from_str::<Vec<String>>` and keeps the list when the
/// text parses. Claimed: the result is the parsed list, or `None` exactly
/// when parsing fails; both are a function of the text alone.
#[verifier::external_body]
pub(crate) fn parse_string_list(text: &str) -> (r: Option<Vec<String>>)
    ensures
        match r {
            Some(v) => json_string_list(text@) == Some(views(v@)),
            None => json_string_list(text@) is None,
        },
{
    serde_json::from_str::<Vec<String>>(text).ok()
}

/// Calls `serde_json::to_string` on a list of strings (which cannot fail;
/// an error would give the empty string, as `unwrap_or_default` does).
/// Claimed: the text is a function of the strings alone, and it is a JSON
/// array of exactly these strings, so that `serde_json::from_str` reads the
/// same list back from it.
#[verifier::external_body]
pub(crate) fn strings_to_json(items: &Vec<String>) -> (r: String)
    ensures
        r@ == json_text_of_strings(views(items@)),
        json_string_list(r@) == Some(views(items@)),
{
    serde_json::to_string(items).unwrap_or_default()
}

/// Whether a character is a lowercase hexadecimal digit.
pub open spec fn is_lower_hex(c: char) -> bool {
    ('0' <= c && c <= '9') || ('a' <= c && c <= 'f')
}

/// Calls `uuid::Uuid::new_v4()` and writes it with `.simple()`. Claimed, from
/// the crate's source: 32 lowercase hexadecimal digits, whose 13th digit is
/// the version `4` and whose 17th is one of `8`, `9`, `a`, `b` (the RFC 4122
/// variant). The value is random: nothing else is claimed.
#[verifier::external_body]
pub(crate) fn random_uuid_simple() -> (r: String)
    ensures
        r@.len() == 32,
        forall|i: int| 0 <= i < 32 ==> is_lower_hex(#[trigger] r@[i]),
        r@[12] == '4',
        r@[16] == '8' || r@[16] == '9' || r@[16] == 'a' || r@[16] == 'b',
{
    uuid::Uuid::new_v4().simple().to_string()
}

/// The text that `String::from_utf8_lossy` makes of bytes.
pub uninterp spec fn utf8_lossy(bytes: Seq<u8>) -> Seq<char>;

/// Calls std's `String::from_utf8_lossy`. Claimed, from its documentation:
/// the text is a function of the bytes alone, valid UTF-8 is decoded as it
/// is, and each invalid sequence becomes U+FFFD, so that bytes never give an
/// empty text.
#[verifier::external_body]
pub(crate) fn lossy_text(bytes: &[u8]) -> (r: String)
    ensures
        r@ == utf8_lossy(bytes@),
        valid_utf8(bytes@) ==> r@ == decode_utf8(bytes@),
        bytes@.len() > 0 ==> r@.len() > 0,
{
    String::from_utf8_lossy(bytes).into_owned()
}

/// Declares `serde_json::Number`, which JSON numbers are kept as.
#[verifier::external_type_specification]
#[verifier::external_body]
pub struct ExJsonNumber(serde_json::Number);

/// Declares `serde_json::Value`, which JSON text is parsed into and written
/// from.
#[verifier::external_type_specification]
#[verifier::external_body]
pub struct ExJsonValue(serde_json::Value);

/// The JSON value that a text denotes, if it is JSON: what
/// `serde_json::from_str::<serde_json::Value>` parses, converted member for
/// member.
pub uninterp spec fn json_document(text: Seq<char>) -> Option<JsonValue>;

/// The message of `serde_json`'s error for a text that is not JSON.
pub uninterp spec fn json_error_text(text: Seq<char>) -> Seq<char>;

/// The JSON text that `serde_json::to_string` writes for a value.
pub uninterp spec fn json_text(v: JsonValue) -> Seq<char>;

/// Converts a `serde_json` value into a `JsonValue`, variant for variant and
/// member for member; only `parse_json` uses it.
#[verifier::external_body]
fn json_from_serde(v: serde_json::Value) -> JsonValue {
    match v {
        serde_json::Value::Null => JsonValue::Null,
        serde_json::Value::Bool(b) => JsonValue::Bool(b),
        serde_json::Value::Number(n) => JsonValue::Number(n),
        serde_json::Value::String(s) => JsonValue::Str(s),
        serde_json::Value::Array(a) => JsonValue::Array(a.into_iter().map(json_from_serde).collect()),
        serde_json::Value::Object(m) => JsonValue::Object(m.into_iter().map(|(k, v)| (k, json_from_serde(v))).collect()),
    }
}

/// Converts a `JsonValue` into a `serde_json` value, variant for variant and
/// member for member; only `to_json_text` uses it.
#[verifier::external_body]
fn json_to_serde(v: &JsonValue) -> serde_json::Value {
    match v {
        JsonValue::Null => serde_json::Value::Null,
        JsonValue::Bool(b) => serde_json::Value::Bool(*b),
        JsonValue::Number(n) => serde_json::Value::Number(n.clone()),
        JsonValue::Str(s) => serde_json::Value::String(s.clone()),
        JsonValue::Array(a) => serde_json::Value::Array(a.iter().map(json_to_serde).collect()),
        JsonValue::Object(m) => serde_json::Value::Object(m.iter().map(|(k, v)| (k.clone(), json_to_serde(v))).collect()),
    }
}

/// Calls `serde_json::from_str::<serde_json::Value>`. Claimed: the value, or
/// the error's message when the text is not JSON; both are a function of the
/// text alone.
#[verifier::external_body]
pub(crate) fn parse_json(text: &str) -> (r: Result<JsonValue, String>)
    ensures
        match r {
            Ok(v) => json_document(text@) == Some(v),
            Err(e) => json_document(text@) is None && e@ == json_error_text(text@),
        },
{
    match serde_json::from_str::<serde_json::Value>(text) {
        Ok(v) => Ok(json_from_serde(v)),
        Err(e) => Err(e.to_string()),
    }
}

/// Calls `serde_json::to_string` on a value (which cannot fail for a
/// `serde_json::Value`; an error would give the empty string). Claimed: the
/// text is a function of the value alone.
#[verifier::external_body]
pub(crate) fn to_json_text(v: &JsonValue) -> (r: String)
    ensures
        r@ == json_text(*v),
{
    serde_json::to_string(&json_to_serde(v)).unwrap_or_default()
}

/// Whether a character separates path components on some platform.
pub open spec fn is_path_separator(c: char) -> bool {
    c == '/' || c == '\\'
}

/// Whether a path may begin with a Windows verbatim prefix (`\\?\`, with
/// either separator): joining to such a path normalizes it on Windows.
pub open spec fn may_be_verbatim(dir: Seq<char>) -> bool {
    &&& dir.len() >= 4
    &&& is_path_separator(dir[0])
    &&& is_path_separator(dir[1])
    &&& dir[2] == '?'
    &&& is_path_separator(dir[3])
}

/// Whether joining to `dir` puts a separator after it on every platform: it
/// is not empty, does not end with a separator, and is not a bare Windows
/// drive such as `C:`.
pub open spec fn adds_separator(dir: Seq<char>) -> bool {
    &&& dir.len() > 0
    &&& !is_path_separator(dir.last())
    &&& !(dir.len() == 2 && dir[1] == ':')
}

/// Calls std's `Path::join` and writes the path with `display`. Claimed, from
/// its documentation, for a `name` without a leading separator or a drive
/// (so that it is appended, not put in place of `dir`), and for a `dir`
/// without a Windows verbatim prefix (to which Windows removes `.` and `..`
/// components on joining): the path is `dir`, at most one separator (`/`,
/// or `\` on Windows) and `name`, with a separator added whenever `dir`
/// needs one (`adds_separator`) and none when it already ends with `/`.
/// Nothing is claimed of a `dir` that may carry a verbatim prefix; for an
/// empty `dir`, a bare drive such as `C:`, or one ending with `\`, whether a
/// separator is added (it depends on the platform) is left unsaid.
#[verifier::external_body]
pub(crate) fn join_path(dir: &str, name: &str) -> (r: String)
    requires
        name@.len() > 0,
        !is_path_separator(name@[0]),
        forall|i: int| 0 <= i < name@.len() ==> name@[i] != ':',
    ensures
        !may_be_verbatim(dir@) ==> {
            &&& dir@.len() + name@.len() <= r@.len() <= dir@.len() + name@.len() + 1
            &&& r@.take(dir@.len() as int) == dir@
            &&& r@.skip(r@.len() - name@.len()) == name@
            &&& r@.len() == dir@.len() + name@.len() + 1 ==> is_path_separator(r@[dir@.len() as int])
            &&& dir@.len() > 0 && dir@.last() == '/' ==> r@.len() == dir@.len() + name@.len()
            &&& adds_separator(dir@) ==> r@.len() == dir@.len() + name@.len() + 1
        },
{
    std::path::Path::new(dir).join(name).display().to_string()
}

} // verus!
