//! The JSON text layer, provided by `serde_json`.
//!
//! A document is never held as a tree. An object is split into its members,
//! each value kept as the text it was written with, and a value's text is
//! decoded only where a caller asks for it. What `serde_json` makes of a text
//! is given a name here; the rules that the callers build on those names are
//! ordinary verified code.

use std::collections::BTreeMap;
use vstd::prelude::*;

verus! {

/// The members of an object: each key with the text of its value.
pub type Members = Seq<(Seq<char>, Seq<char>)>;

/// What `serde_json` reads from `text` as one JSON object: its members, each
/// as its key and the text of its value, or `None` where it reads no object.
/// A key that the text repeats is one member.
pub uninterp spec fn json_object(text: Seq<char>) -> Option<Members>;

/// What `serde_json` reads from `text` as one JSON array: the texts of its
/// elements, in their order, or `None` where it reads no array.
pub uninterp spec fn json_array(text: Seq<char>) -> Option<Seq<Seq<char>>>;

/// What `serde_json` reads from `text` as a string that may be missing: the
/// string's characters (`Some(Some(..))`), nothing for `null` (`Some(None)`),
/// or `None` where it reads neither.
pub uninterp spec fn json_string(text: Seq<char>) -> Option<Option<Seq<char>>>;

/// What `serde_json` reads from `text` as a truth value, or `None` where it
/// reads none.
pub uninterp spec fn json_bool(text: Seq<char>) -> Option<bool>;

/// Calls `serde_json::from_str` for a `BTreeMap` from `String` to raw values
/// and hands the members out as pairs of key and value text. The result is
/// taken to depend on `text` alone; nothing else is claimed of it.
#[verifier::external_body]
pub(crate) fn object_members(text: &str) -> (r: Option<Vec<(String, String)>>)
    ensures
        r.deep_view() == json_object(text@),
{
    match serde_json::from_str::<BTreeMap<String, Box<serde_json::value::RawValue>>>(text) {
        Ok(m) => Some(m.into_iter().map(|(k, v)| (k, v.get().to_owned())).collect()),
        Err(_) => None,
    }
}

/// Calls `serde_json::from_str` for a `Vec` of raw values and hands the
/// elements out as texts. The result is taken to depend on `text` alone;
/// nothing else is claimed of it.
#[verifier::external_body]
pub(crate) fn array_items(text: &str) -> (r: Option<Vec<String>>)
    ensures
        r.deep_view() == json_array(text@),
{
    match serde_json::from_str::<Vec<Box<serde_json::value::RawValue>>>(text) {
        Ok(items) => Some(items.into_iter().map(|v| v.get().to_owned()).collect()),
        Err(_) => None,
    }
}

/// Calls `serde_json::from_str` for an `Option<String>`. The result is taken
/// to depend on `text` alone; nothing else is claimed of it.
#[verifier::external_body]
pub(crate) fn string_or_null(text: &str) -> (r: Option<Option<String>>)
    ensures
        r.deep_view() == json_string(text@),
{
    match serde_json::from_str::<Option<String>>(text) {
        Ok(s) => Some(s),
        Err(_) => None,
    }
}

/// Calls `serde_json::from_str` for a `bool`. The result is taken to depend
/// on `text` alone; nothing else is claimed of it.
#[verifier::external_body]
pub(crate) fn truth_value(text: &str) -> (r: Option<bool>)
    ensures
        r == json_bool(text@),
{
    match serde_json::from_str::<bool>(text) {
        Ok(b) => Some(b),
        Err(_) => None,
    }
}

/// The lower-case hexadecimal digit for `n`, for `n` below sixteen.
pub open spec fn hex_digit(n: int) -> char {
    seq!['0', '1', '2', '3', '4', '5', '6', '7', '8', '9', 'a', 'b', 'c', 'd', 'e', 'f'][n]
}

/// How one character stands inside a JSON string: the quotation mark, the
/// backslash and the control characters below U+0020 are escaped, every other
/// character stands for itself.
pub open spec fn escaped_char(c: char) -> Seq<char> {
    if c == '"' {
        seq!['\\', '"']
    } else if c == '\\' {
        seq!['\\', '\\']
    } else if c == '\u{8}' {
        seq!['\\', 'b']
    } else if c == '\t' {
        seq!['\\', 't']
    } else if c == '\n' {
        seq!['\\', 'n']
    } else if c == '\u{c}' {
        seq!['\\', 'f']
    } else if c == '\r' {
        seq!['\\', 'r']
    } else if (c as int) < 0x20 {
        seq!['\\', 'u', '0', '0', hex_digit((c as int) / 16), hex_digit((c as int) % 16)]
    } else {
        seq![c]
    }
}

/// The characters of `s`, each as it stands inside a JSON string.
pub open spec fn escaped(s: Seq<char>) -> Seq<char>
    decreases s.len(),
{
    if s.len() == 0 {
        Seq::empty()
    } else {
        escaped_char(s[0]) + escaped(s.drop_first())
    }
}

/// `s` as a JSON string: escaped, between quotation marks.
pub open spec fn quoted(s: Seq<char>) -> Seq<char> {
    seq!['"'] + escaped(s) + seq!['"']
}

/// A character that stands for itself inside a JSON string.
pub open spec fn is_plain(c: char) -> bool {
    c != '"' && c != '\\' && (c as int) >= 0x20
}

/// A text without quotation marks, backslashes and control characters is
/// its own escaped form.
pub proof fn lemma_plain_text_is_copied(s: Seq<char>)
    requires
        forall|i: int| 0 <= i < s.len() ==> is_plain(s[i]),
    ensures
        escaped(s) == s,
        quoted(s) == seq!['"'] + s + seq!['"'],
    decreases s.len(),
{
    if s.len() > 0 {
        lemma_plain_text_is_copied(s.drop_first());
        assert(escaped_char(s[0]) == seq![s[0]]);
        assert(seq![s[0]] + s.drop_first() =~= s);
    } else {
        assert(escaped(s) =~= s);
    }
}

/// Writes `s` as a `serde_json::Value::String` and renders it with the
/// value's `to_string`. The contract states the compact form that
/// `serde_json` writes a string in: its escape table, between two quotation
/// marks.
#[verifier::external_body]
pub(crate) fn quote(s: &str) -> (r: String)
    ensures
        r@ == quoted(s@),
{
    serde_json::Value::String(s.to_owned()).to_string()
}

/// The value text of the first member of `members` whose key is `key`.
pub open spec fn member(members: Members, key: Seq<char>) -> Option<Seq<char>>
    decreases members.len(),
{
    if members.len() == 0 {
        None
    } else if members[0].0 == key {
        Some(members[0].1)
    } else {
        member(members.drop_first(), key)
    }
}

/// The string under `key`: the member must be there and hold a JSON string.
pub open spec fn string_member(members: Members, key: Seq<char>) -> Option<Seq<char>> {
    match member(members, key) {
        Some(text) => match json_string(text) {
            Some(Some(s)) => Some(s),
            _ => None,
        },
        None => None,
    }
}

/// The string under `key` where one may be left out: `Some(None)` where the
/// member is missing or `null`, `None` where it holds anything but a string.
pub open spec fn optional_string_member(members: Members, key: Seq<char>) -> Option<
    Option<Seq<char>>,
> {
    match member(members, key) {
        Some(text) => json_string(text),
        None => Some(None),
    }
}

/// The truth value under `key`: the member must be there and hold one.
pub open spec fn bool_member(members: Members, key: Seq<char>) -> Option<bool> {
    match member(members, key) {
        Some(text) => json_bool(text),
        None => None,
    }
}

/// `member` does not see the members before the first occurrence of `key`.
proof fn lemma_member_skip(members: Members, key: Seq<char>, n: int)
    requires
        0 <= n <= members.len(),
        forall|j: int| 0 <= j < n ==> members[j].0 != key,
    ensures
        member(members, key) == member(members.skip(n), key),
    decreases n,
{
    if n > 0 {
        assert(members.drop_first().skip(n - 1) =~= members.skip(n));
        lemma_member_skip(members.drop_first(), key, n - 1);
    } else {
        assert(members.skip(0) =~= members);
    }
}

/// Finds the value text that `members` holds under `key`.
pub fn lookup<'a>(members: &'a Vec<(String, String)>, key: &str) -> (r: Option<&'a String>)
    ensures
        r.deep_view() == member(members.deep_view(), key@),
{
    let wanted = key.to_owned();
    let ghost all = members.deep_view();
    let mut i: usize = 0;
    while i < members.len()
        invariant
            i <= members.len(),
            wanted@ == key@,
            all == members.deep_view(),
            all.len() == members.len(),
            forall|j: int| 0 <= j < i ==> all[j].0 != key@,
        decreases members.len() - i,
    {
        assert(all[i as int] == members[i as int].deep_view());
        if members[i].0 == wanted {
            proof {
                lemma_member_skip(all, key@, i as int);
            }
            return Some(&members[i].1);
        }
        i += 1;
    }
    proof {
        lemma_member_skip(all, key@, all.len() as int);
    }
    None
}

/// Decodes the string that `members` must hold under `key`.
pub fn string_field(members: &Vec<(String, String)>, key: &str) -> (r: Option<String>)
    ensures
        r.deep_view() == string_member(members.deep_view(), key@),
{
    match lookup(members, key) {
        Some(text) => match string_or_null(text.as_str()) {
            Some(Some(s)) => Some(s),
            _ => None,
        },
        None => None,
    }
}

/// Decodes the string that `members` may hold under `key`.
pub fn optional_string_field(members: &Vec<(String, String)>, key: &str) -> (r: Option<
    Option<String>,
>)
    ensures
        r.deep_view() == optional_string_member(members.deep_view(), key@),
{
    match lookup(members, key) {
        Some(text) => string_or_null(text.as_str()),
        None => Some(None),
    }
}

/// Decodes the truth value that `members` must hold under `key`.
pub fn bool_field(members: &Vec<(String, String)>, key: &str) -> (r: Option<bool>)
    ensures
        r == bool_member(members.deep_view(), key@),
{
    match lookup(members, key) {
        Some(text) => truth_value(text.as_str()),
        None => None,
    }
}

} // verus!
