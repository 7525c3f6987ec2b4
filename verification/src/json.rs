//! Reading the provider's JSON replies.
//!
//! Every reply the client reads is a JSON object whose interesting members
//! are flags, texts, or objects of texts, so the parse is asked for exactly
//! those, by key, and answers with plain values.

use vstd::prelude::*;
use crate::text::opt_view;

verus! {

/// The error message `serde_json` gives for `text`, when `text` is not JSON.
pub uninterp spec fn json_parse_error(text: Seq<char>) -> Option<Seq<char>>;

/// `serde_json::from_str::<serde_json::Value>`: nothing when `text` parses,
/// and otherwise the parse error as `serde_json::Error` displays it.
#[verifier::external_body]
pub(crate) fn json_error(text: &str) -> (r: Option<String>)
    ensures
        opt_view(r) == json_parse_error(text@),
{
    match serde_json::from_str::<serde_json::Value>(text) {
        Ok(_) => None,
        Err(error) => Some(error.to_string()),
    }
}

/// The member `key` of the JSON object `text`, when it is `true` or `false`.
pub uninterp spec fn json_bool_at(text: Seq<char>, key: Seq<char>) -> Option<bool>;

/// `serde_json::from_str::<serde_json::Value>`, then `Value::get(key)`, then
/// `Value::as_bool`: nothing when the text does not parse, has no member
/// `key`, or that member is not a boolean.
#[verifier::external_body]
pub(crate) fn json_bool(text: &str, key: &str) -> (r: Option<bool>)
    ensures
        r == json_bool_at(text@, key@),
{
    match serde_json::from_str::<serde_json::Value>(text) {
        Ok(value) => match value.get(key) {
            Some(member) => member.as_bool(),
            None => None,
        },
        Err(_) => None,
    }
}

/// The member `key` of the JSON object `text`, when it is a string.
pub uninterp spec fn json_text_at(text: Seq<char>, key: Seq<char>) -> Option<Seq<char>>;

/// `serde_json::from_str::<serde_json::Value>`, then `Value::get(key)`, then
/// `Value::as_str`: nothing when the text does not parse, has no member
/// `key`, or that member is not a string.
#[verifier::external_body]
pub(crate) fn json_text(text: &str, key: &str) -> (r: Option<String>)
    ensures
        opt_view(r) == json_text_at(text@, key@),
{
    match serde_json::from_str::<serde_json::Value>(text) {
        Ok(value) => match value.get(key) {
            Some(member) => member.as_str().map(str::to_string),
            None => None,
        },
        Err(_) => None,
    }
}

/// The members of the object under `key` in the JSON object `text`, in the
/// order `serde_json` walks them, each with its value when that is a string.
pub uninterp spec fn json_members_at(text: Seq<char>, key: Seq<char>) -> Option<Seq<(Seq<char>, Option<Seq<char>>)>>;

pub open spec fn member_views(members: Seq<(String, Option<String>)>) -> Seq<(Seq<char>, Option<Seq<char>>)> {
    members.map_values(|m: (String, Option<String>)| (m.0@, opt_view(m.1)))
}

/// `serde_json::from_str::<serde_json::Value>`, then `Value::get(key)`, then
/// `Value::as_object`, whose members are walked in order and each value read
/// with `Value::as_str`: nothing when the text does not parse, has no member
/// `key`, or that member is not an object.
#[verifier::external_body]
pub(crate) fn json_members(text: &str, key: &str) -> (r: Option<Vec<(String, Option<String>)>>)
    ensures
        match r {
            Some(m) => json_members_at(text@, key@) == Some(member_views(m@)),
            None => json_members_at(text@, key@) is None,
        },
{
    let value: serde_json::Value = serde_json::from_str(text).ok()?;
    let members = value.get(key)?.as_object()?;
    Some(members.iter().map(|(k, v)| (k.clone(), v.as_str().map(str::to_string))).collect())
}

/// The string members among `members`, in order.
pub open spec fn text_members(members: Seq<(Seq<char>, Option<Seq<char>>)>) -> Seq<(Seq<char>, Seq<char>)>
    decreases members.len(),
{
    if members.len() == 0 {
        seq![]
    } else {
        let init = text_members(members.drop_last());
        match members.last().1 {
            Some(t) => init.push((members.last().0, t)),
            None => init,
        }
    }
}

pub open spec fn pair_views(pairs: Seq<(String, String)>) -> Seq<(Seq<char>, Seq<char>)> {
    pairs.map_values(|p: (String, String)| (p.0@, p.1@))
}

/// The string members of an object, in order.
pub fn text_pairs(members: &Vec<(String, Option<String>)>) -> (r: Vec<(String, String)>)
    ensures
        pair_views(r@) == text_members(member_views(members@)),
{
    let ghost mv = member_views(members@);
    let mut out: Vec<(String, String)> = Vec::new();
    let mut i: usize = 0;
    while i < members.len()
        invariant
            i <= members@.len(),
            mv == member_views(members@),
            pair_views(out@) == text_members(mv.subrange(0, i as int)),
        decreases members.len() - i,
    {
        assert(mv.subrange(0, i + 1).drop_last() =~= mv.subrange(0, i as int));
        assert(mv.subrange(0, i + 1).last() == mv[i as int]);
        match &members[i].1 {
            Some(t) => {
                let ghost prev = out@;
                let pair = (members[i].0.clone(), t.clone());
                out.push(pair);
                assert(out@ =~= prev.push(pair));
                assert(pair_views(out@) =~= pair_views(prev).push((pair.0@, pair.1@)));
            },
            None => {},
        }
        i += 1;
    }
    assert(mv.subrange(0, members@.len() as int) =~= mv);
    out
}

/// The string the JSON text `text` is, when it is one.
pub uninterp spec fn json_string_value(text: Seq<char>) -> Option<Seq<char>>;

/// `serde_json::from_str::<String>`: the string `text` spells as JSON, or
/// nothing when it is not a JSON string.
#[verifier::external_body]
pub(crate) fn json_string(text: &str) -> (r: Option<String>)
    ensures
        opt_view(r) == json_string_value(text@),
{
    match serde_json::from_str::<String>(text) {
        Ok(value) => Some(value),
        Err(_) => None,
    }
}

} // verus!
