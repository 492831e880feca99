//! Line-delimited JSON from a JSON text.
//!
//! A text that holds one JSON array is rewritten as one line for each of
//! its elements; any other text is passed on as it is, trimmed. The JSON
//! itself is read and written by `serde_json`.

use vstd::prelude::*;
use vstd::string::*;
use crate::error::EngineError;
use crate::extract::{join_lines, joined};

verus! {

/// `serde_json::Value`, carried through as an opaque value.
#[verifier::external_type_specification]
#[verifier::external_body]
pub struct ExJsonValue(serde_json::Value);

/// `serde_json::Error`, carried through as an opaque value.
#[verifier::external_type_specification]
#[verifier::external_body]
pub struct ExJsonError(serde_json::Error);

/// The JSON value that `serde_json::from_str` reads from a text, and
/// `None` where it reports an error.
pub uninterp spec fn json_document(text: Seq<char>) -> Option<serde_json::Value>;

/// The elements of a JSON value that is an array, in order, and `None`
/// for a value of any other kind.
pub uninterp spec fn json_array_items(value: serde_json::Value) -> Option<Seq<serde_json::Value>>;

/// The text that `serde_json::to_string` writes for a JSON value, and
/// `None` where it reports an error.
pub uninterp spec fn json_compact(value: serde_json::Value) -> Option<Seq<char>>;

/// Whether the character has the Unicode property `White_Space`.
pub open spec fn is_whitespace(c: char) -> bool {
    ||| '\u{9}' <= c <= '\u{d}'
    ||| c == ' '
    ||| c == '\u{85}'
    ||| c == '\u{a0}'
    ||| c == '\u{1680}'
    ||| '\u{2000}' <= c <= '\u{200a}'
    ||| c == '\u{2028}'
    ||| c == '\u{2029}'
    ||| c == '\u{202f}'
    ||| c == '\u{205f}'
    ||| c == '\u{3000}'
}

/// The text without its leading whitespace.
pub open spec fn trimmed_start(s: Seq<char>) -> Seq<char>
    decreases s.len(),
{
    if s.len() > 0 && is_whitespace(s[0]) {
        trimmed_start(s.drop_first())
    } else {
        s
    }
}

/// The text without its trailing whitespace.
pub open spec fn trimmed_end(s: Seq<char>) -> Seq<char>
    decreases s.len(),
{
    if s.len() > 0 && is_whitespace(s.last()) {
        trimmed_end(s.drop_last())
    } else {
        s
    }
}

/// The text without its leading and trailing whitespace.
pub open spec fn trimmed(s: Seq<char>) -> Seq<char> {
    trimmed_end(trimmed_start(s))
}

/// Whether the text begins with `[` and ends with `]`.
pub open spec fn is_bracketed(s: Seq<char>) -> bool {
    s.len() > 0 && s[0] == '[' && s.last() == ']'
}

/// The lines of the elements, where every element can be written.
pub open spec fn compact_lines(items: Seq<serde_json::Value>) -> Option<Seq<Seq<char>>> {
    if forall|i: int| 0 <= i < items.len() ==> json_compact(#[trigger] items[i]) is Some {
        Some(Seq::new(items.len(), |i: int| json_compact(items[i]).unwrap()))
    } else {
        None
    }
}

/// The line-delimited form of a trimmed text.
///
/// A text that is not in brackets stays as it is, and so does one in
/// brackets that reads as a JSON value other than an array. A text in
/// brackets that does not read as JSON is an error. An array becomes the
/// compact texts of its elements, joined by line feeds.
pub open spec fn ndjson_of(t: Seq<char>) -> Result<Seq<char>, EngineError> {
    if !is_bracketed(t) {
        Ok(t)
    } else {
        match json_document(t) {
            None => Err(EngineError::InvalidJson),
            Some(value) => match json_array_items(value) {
                None => Ok(t),
                Some(items) => match compact_lines(items) {
                    Some(lines) => Ok(joined(lines)),
                    None => Err(EngineError::InvalidJson),
                },
            },
        }
    }
}

/// `str::trim`: the text without the whitespace at its two ends, where
/// whitespace is what the Unicode property `White_Space` covers.
#[verifier::external_body]
fn trim_text(text: &str) -> (r: &str)
    ensures
        r@ == trimmed(text@),
{
    text.trim()
}

/// `serde_json::from_str` at the type `serde_json::Value`. The contract
/// claims only that the outcome is a function of the text.
#[verifier::external_body]
fn parse_json(text: &str) -> (r: Result<serde_json::Value, serde_json::Error>)
    ensures
        match r {
            Ok(value) => json_document(text@) == Some(value),
            Err(_) => json_document(text@) is None,
        },
{
    serde_json::from_str::<serde_json::Value>(text)
}

/// Takes the elements out of a `serde_json::Value` of the variant
/// `Array`, in their order; any other variant gives `None`.
#[verifier::external_body]
fn array_items(value: serde_json::Value) -> (r: Option<Vec<serde_json::Value>>)
    ensures
        match r {
            Some(items) => json_array_items(value) == Some(items@),
            None => json_array_items(value) is None,
        },
{
    match value {
        serde_json::Value::Array(items) => Some(items),
        _ => None,
    }
}

/// `serde_json::to_string` on a `serde_json::Value`. The contract claims
/// only that the outcome is a function of the value.
#[verifier::external_body]
fn compact_text(value: &serde_json::Value) -> (r: Result<String, serde_json::Error>)
    ensures
        match r {
            Ok(line) => json_compact(*value) == Some(line@),
            Err(_) => json_compact(*value) is None,
        },
{
    serde_json::to_string(value)
}

/// Tells whether the text begins with `[` and ends with `]`.
pub fn in_brackets(text: &str) -> (r: bool)
    ensures
        r == is_bracketed(text@),
{
    let n = text.unicode_len();
    if n == 0 {
        false
    } else {
        text.get_char(0) == '[' && text.get_char(n - 1) == ']'
    }
}

/// The text that is handed on for a trimmed text and what was read from
/// it: the lines of the array's elements joined by line feeds, and the
/// text itself where it held no array.
pub fn lines_or_text(text: &str, lines: Option<Vec<String>>) -> (r: String)
    ensures
        r@ == match lines {
            Some(v) => joined(v@.map_values(|s: String| s@)),
            None => text@,
        },
{
    match lines {
        Some(v) => join_lines(&v),
        None => String::from_str(text),
    }
}

/// Rewrites a JSON text as line-delimited JSON.
///
/// The text is trimmed first. A text in brackets is read as JSON, and an
/// array is rewritten as one compact line for each element. Fails with
/// `InvalidJson` only for a text in brackets that does not read as JSON.
pub fn to_ndjson(text: &str) -> (r: Result<String, EngineError>)
    ensures
        match r {
            Ok(s) => ndjson_of(trimmed(text@)) == Ok::<Seq<char>, EngineError>(s@),
            Err(e) => ndjson_of(trimmed(text@)) == Err::<Seq<char>, EngineError>(e),
        },
{
    let t = trim_text(text);
    if !in_brackets(t) {
        return Ok(lines_or_text(t, None));
    }
    let value = match parse_json(t) {
        Ok(v) => v,
        Err(_) => {
            return Err(EngineError::InvalidJson);
        },
    };
    let ghost document = value;
    let items = match array_items(value) {
        Some(items) => items,
        None => {
            return Ok(lines_or_text(t, None));
        },
    };
    let mut lines: Vec<String> = Vec::new();
    let mut i: usize = 0;
    while i < items.len()
        invariant
            i <= items.len(),
            t@ == trimmed(text@),
            is_bracketed(t@),
            json_document(t@) == Some(document),
            json_array_items(document) == Some(items@),
            lines.len() == i,
            forall|k: int| 0 <= k < i ==> json_compact(#[trigger] items@[k]) == Some(lines[k]@),
        decreases items.len() - i,
    {
        match compact_text(&items[i]) {
            Ok(line) => {
                lines.push(line);
            },
            Err(_) => {
                assert(json_compact(items@[i as int]) is None);
                return Err(EngineError::InvalidJson);
            },
        }
        i += 1;
    }
    assert(lines@.map_values(|s: String| s@) =~= compact_lines(items@).unwrap());
    Ok(lines_or_text(t, Some(lines)))
}

} // verus!
