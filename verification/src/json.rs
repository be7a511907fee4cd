//! JSON text for the manifests and documents that the harness hashes and
//! stores. Strings, lists of strings and indented objects of strings are
//! written by `serde_json`; the compact documents of a fixed shape are framed
//! here around them, with their keys in sorted order as `serde_json`'s map
//! keeps them.

use vstd::prelude::*;

use crate::order::keys_ascending;

use crate::text::{decimal, is_empty_text, push_str, trim, trim_seq, usize_to_decimal};

verus! {

pub open spec fn hex_char(n: nat) -> char {
    if n < 10 {
        (('0' as u32) + n) as char
    } else {
        (('a' as u32) + n - 10) as char
    }
}

/// How `serde_json` writes one character inside a string: quote, backslash
/// and the control characters escaped, everything else as it is.
pub open spec fn json_escape(c: char) -> Seq<char> {
    if c == '"' {
        seq!['\\', '"']
    } else if c == '\\' {
        seq!['\\', '\\']
    } else if c == '\n' {
        seq!['\\', 'n']
    } else if c == '\r' {
        seq!['\\', 'r']
    } else if c == '\t' {
        seq!['\\', 't']
    } else if c == '\x08' {
        seq!['\\', 'b']
    } else if c == '\x0c' {
        seq!['\\', 'f']
    } else if (c as u32) < 0x20 {
        seq!['\\', 'u', '0', '0', hex_char((c as u32 / 16) as nat), hex_char((c as u32 % 16) as nat)]
    } else {
        seq![c]
    }
}

pub open spec fn json_chars(s: Seq<char>) -> Seq<char>
    decreases s.len(),
{
    if s.len() == 0 {
        Seq::empty()
    } else {
        json_chars(s.drop_last()) + json_escape(s.last())
    }
}

/// A JSON string literal for `s`.
pub open spec fn json_quoted(s: Seq<char>) -> Seq<char> {
    seq!['"'] + json_chars(s) + seq!['"']
}

/// Appends `s` as a JSON string literal.
pub fn push_json_string(out: &mut String, s: &str)
    ensures
        final(out)@ == old(out)@ + json_quoted(s@),
{
    let q = json_string_literal(s);
    push_str(out, q.as_str());
}

/// The members of an indented object whose values are strings, one per line
/// after two spaces, separated by commas.
pub open spec fn pretty_members(es: Seq<(Seq<char>, Seq<char>)>) -> Seq<char>
    decreases es.len(),
{
    if es.len() == 0 {
        Seq::empty()
    } else {
        let head = if es.len() == 1 {
            Seq::empty()
        } else {
            pretty_members(es.drop_last()) + ",\n"@
        };
        head + "  "@ + json_quoted(es.last().0) + ": "@ + json_quoted(es.last().1)
    }
}

/// An object of strings as `serde_json::to_string_pretty` writes it, with the
/// members in the given order: `{}` when empty.
pub open spec fn json_pretty_object(es: Seq<(Seq<char>, Seq<char>)>) -> Seq<char> {
    if es.len() == 0 {
        "{}"@
    } else {
        "{\n"@ + pretty_members(es) + "\n}"@
    }
}

pub open spec fn entry_views(v: Seq<(String, String)>) -> Seq<(Seq<char>, Seq<char>)> {
    v.map_values(|e: (String, String)| (e.0@, e.1@))
}

/// A JSON array of strings, compact.
pub open spec fn json_string_array(items: Seq<Seq<char>>) -> Seq<char> {
    "["@ + string_items(items) + "]"@
}

pub open spec fn string_items(items: Seq<Seq<char>>) -> Seq<char>
    decreases items.len(),
{
    if items.len() == 0 {
        Seq::empty()
    } else {
        let head = if items.len() == 1 {
            Seq::empty()
        } else {
            string_items(items.drop_last()) + ","@
        };
        head + json_quoted(items.last())
    }
}

/// Appends a compact JSON array of strings.
pub fn push_json_string_array(out: &mut String, items: &Vec<String>)
    ensures
        final(out)@ == old(out)@ + json_string_array(items@.map_values(|s: String| s@)),
{
    let t = json_string_list_text(items);
    push_str(out, t.as_str());
}

/// Appends a number in decimal.
pub fn push_json_number(out: &mut String, n: usize)
    ensures
        final(out)@ == old(out)@ + decimal(n as nat),
{
    let d = usize_to_decimal(n);
    push_str(out, d.as_str());
}

} // verus!

verus! {

/// `serde_json::to_string` on a string: the string between double quotes,
/// with quote, backslash and the control characters escaped as `json_escape`
/// says (`format_escaped_str` in serde_json's `ser.rs`). Writing a string into
/// the in-memory buffer never fails, so the error arm is never taken.
#[verifier::external_body]
fn json_string_literal(s: &str) -> (r: String)
    ensures
        r@ == json_quoted(s@),
{
    match serde_json::to_string(s) {
        Ok(t) => t,
        Err(_) => String::new(),
    }
}

/// `serde_json::to_string_pretty` on a `serde_json::Map` of strings: `{}`
/// when empty, else each member on a line of its own after two spaces, the
/// members separated by commas (`PrettyFormatter` in serde_json's `ser.rs`).
/// The map keeps its keys in order (a `BTreeMap`: serde_json is built without
/// `preserve_order`); the entries come with their keys ascending, so the map
/// holds them as given. Writing into the in-memory buffer never fails, so the
/// error arm is never taken.
#[verifier::external_body]
pub(crate) fn pretty_object(entries: &Vec<(String, String)>) -> (r: String)
    requires
        keys_ascending(entry_views(entries@)),
    ensures
        r@ == json_pretty_object(entry_views(entries@)),
{
    let m: serde_json::Map<String, serde_json::Value> = entries
        .iter()
        .map(|e| (e.0.clone(), serde_json::Value::String(e.1.clone())))
        .collect();
    match serde_json::to_string_pretty(&m) {
        Ok(t) => t,
        Err(_) => String::new(),
    }
}

/// `serde_json::to_string` on a list of strings: `[`, the strings quoted as
/// `json_quoted` says and separated by commas, `]` (the compact formatter in
/// serde_json's `ser.rs`). Writing into the in-memory buffer never fails, so
/// the error arm is never taken.
#[verifier::external_body]
fn json_string_list_text(items: &Vec<String>) -> (r: String)
    ensures
        r@ == json_string_array(items@.map_values(|s: String| s@)),
{
    match serde_json::to_string(items) {
        Ok(t) => t,
        Err(_) => String::new(),
    }
}

/// The string under `key` when `text` parses as a JSON object that holds a
/// string there (`serde_json::from_str` into a `serde_json::Value`, then
/// `get(key)`); `None` when it does not parse, is no object, lacks the key or
/// holds something else there.
pub uninterp spec fn json_string_field(text: Seq<char>, key: Seq<char>) -> Option<Seq<char>>;

/// Parses `text` with `serde_json::from_str` into a `serde_json::Value` and
/// gives the string under `key`, if there is one. The contract only names the
/// result.
#[verifier::external_body]
pub(crate) fn json_str_field(text: &str, key: &str) -> (r: Option<String>)
    ensures
        match r {
            Some(s) => json_string_field(text@, key@) == Some(s@),
            None => json_string_field(text@, key@) is None,
        },
{
    match serde_json::from_str::<serde_json::Value>(text) {
        Ok(value) => match value.get(key) {
            Some(serde_json::Value::String(s)) => Some(s.clone()),
            _ => None,
        },
        Err(_) => None,
    }
}

} // verus!

verus! {

/// The pretty-printed form of a JSON text (`serde_json::from_str` into a
/// `serde_json::Value`, then `serde_json::to_string_pretty`); `None` when it
/// is not JSON.
pub uninterp spec fn json_pretty(text: Seq<char>) -> Option<Seq<char>>;

/// Parses `text` as JSON and prints it back with `serde_json::to_string_pretty`,
/// or `None` when it does not parse. The contract only names the result.
#[verifier::external_body]
pub(crate) fn pretty_json_text(text: &str) -> (r: Option<String>)
    ensures
        match r {
            Some(s) => json_pretty(text@) == Some(s@),
            None => json_pretty(text@) is None,
        },
{
    match serde_json::from_str::<serde_json::Value>(text) {
        Ok(value) => match serde_json::to_string_pretty(&value) {
            Ok(s) => Some(s),
            Err(_) => None,
        },
        Err(_) => None,
    }
}

} // verus!

verus! {

/// The strings of a JSON text that parses as an array of strings
/// (`serde_json::from_str::<Vec<String>>`); `None` when it does not.
pub uninterp spec fn json_string_list(text: Seq<char>) -> Option<Seq<Seq<char>>>;

/// Parses `text` with `serde_json::from_str` into a list of strings, or `None`
/// when it is not one. The contract only names the result.
#[verifier::external_body]
pub(crate) fn parse_json_string_list(text: &str) -> (r: Option<Vec<String>>)
    ensures
        match r {
            Some(v) => json_string_list(text@) == Some(v@.map_values(|s: String| s@)),
            None => json_string_list(text@) is None,
        },
{
    match serde_json::from_str::<Vec<String>>(text) {
        Ok(items) => Some(items),
        Err(_) => None,
    }
}

} // verus!

verus! {

/// The `role` and `content` strings of each item of a JSON array
/// (`serde_json::from_str` into a `serde_json::Value`, then `as_array`, then
/// `get` and `as_str` on each item); `None` when the text is not JSON and
/// `Some(None)` when it is no array.
pub uninterp spec fn json_role_content(text: Seq<char>) -> Option<
    Option<Seq<(Option<Seq<char>>, Option<Seq<char>>)>>,
>;

/// Parses `text` as JSON and gives the `role` and `content` strings of the
/// items of the array it holds. The contract only names the result.
#[verifier::external_body]
pub(crate) fn parse_role_content(text: &str) -> (r: Option<Option<Vec<(Option<String>, Option<String>)>>>)
    ensures
        json_role_content(text@) == match r {
            None => None,
            Some(None) => Some(None),
            Some(Some(v)) => Some(
                Some(
                    v@.map_values(
                        |p: (Option<String>, Option<String>)|
                            (
                                match p.0 {
                                    Some(s) => Some(s@),
                                    None => None,
                                },
                                match p.1 {
                                    Some(s) => Some(s@),
                                    None => None,
                                },
                            ),
                    ),
                ),
            ),
        },
{
    match serde_json::from_str::<serde_json::Value>(text) {
        Err(_) => None,
        Ok(value) => match value.as_array() {
            None => Some(None),
            Some(items) => {
                let mut out = Vec::new();
                for item in items {
                    let role = item.get("role").and_then(serde_json::Value::as_str);
                    let content = item.get("content").and_then(serde_json::Value::as_str);
                    out.push((role.map(String::from), content.map(String::from)));
                }
                Some(Some(out))
            },
        },
    }
}

} // verus!

verus! {

/// The unsigned integer under `key` when `text` parses as a JSON object that
/// holds one there (`serde_json::from_str` into a `serde_json::Value`, then
/// `get(key)` and `as_u64`); `None` otherwise.
pub uninterp spec fn json_u64_field(text: Seq<char>, key: Seq<char>) -> Option<u64>;

/// Parses `text` as JSON and gives the unsigned integer under `key`, if there
/// is one. The contract only names the result.
#[verifier::external_body]
pub(crate) fn json_u64_at(text: &str, key: &str) -> (r: Option<u64>)
    ensures
        r == json_u64_field(text@, key@),
{
    match serde_json::from_str::<serde_json::Value>(text) {
        Ok(value) => value.get(key).and_then(serde_json::Value::as_u64),
        Err(_) => None,
    }
}

/// The boolean under `key` when `text` parses as a JSON object that holds one
/// there (`get(key)` and `as_bool` on the parsed `serde_json::Value`); `None`
/// otherwise.
pub uninterp spec fn json_bool_field(text: Seq<char>, key: Seq<char>) -> Option<bool>;

/// Parses `text` as JSON and gives the boolean under `key`, if there is one.
/// The contract only names the result.
#[verifier::external_body]
pub(crate) fn json_bool_at(text: &str, key: &str) -> (r: Option<bool>)
    ensures
        r == json_bool_field(text@, key@),
{
    match serde_json::from_str::<serde_json::Value>(text) {
        Ok(value) => value.get(key).and_then(serde_json::Value::as_bool),
        Err(_) => None,
    }
}

/// What `text`, parsed as a JSON `serde_json::Value`, holds under `key`:
/// `None` when nothing (or the text is not JSON), `Some(None)` when something
/// that is no array, and otherwise each item's `as_u64`.
pub uninterp spec fn json_u64_items(text: Seq<char>, key: Seq<char>) -> Option<Option<Seq<Option<u64>>>>;

/// Parses `text` as JSON and gives the items of the array under `key`, each
/// as an unsigned integer where it is one. The contract only names the
/// result.
#[verifier::external_body]
pub(crate) fn json_u64_items_at(text: &str, key: &str) -> (r: Option<Option<Vec<Option<u64>>>>)
    ensures
        json_u64_items(text@, key@) == match r {
            None => None,
            Some(None) => Some(None),
            Some(Some(v)) => Some(Some(v@)),
        },
{
    let value = serde_json::from_str::<serde_json::Value>(text).ok()?;
    let field = value.get(key)?;
    Some(field.as_array().map(|items| items.iter().map(serde_json::Value::as_u64).collect()))
}

} // verus!

verus! {

/// The string argument under `key` of a JSON argument object, trimmed,
/// unless it is missing or blank.
pub open spec fn nonblank_argument(arguments: Seq<char>, key: Seq<char>) -> Option<Seq<char>> {
    match json_string_field(arguments, key) {
        Some(v) => if trim_seq(v).len() == 0 {
            None
        } else {
            Some(trim_seq(v))
        },
        None => None,
    }
}

pub open spec fn opt_view(o: Option<String>) -> Option<Seq<char>> {
    match o {
        Some(s) => Some(s@),
        None => None,
    }
}

/// The string argument under `key`, trimmed, unless it is missing or blank.
pub fn nonblank_arg(arguments: &str, key: &str) -> (r: Option<String>)
    ensures
        opt_view(r) == nonblank_argument(arguments@, key@),
{
    match json_str_field(arguments, key) {
        Some(v) => {
            let t = trim(v.as_str());
            if is_empty_text(t.as_str()) {
                None
            } else {
                Some(t)
            }
        },
        None => None,
    }
}

} // verus!
