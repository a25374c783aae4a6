//! JSON documents as the loaders read them: `serde_json` parses the text,
//! and the value it gives is carried over into [`JsonTree`], variant for
//! variant, so that the loaders' logic can be stated and proved over it.
use vstd::prelude::*;
use crate::text::str_eq;

verus! {

#[verifier::external_type_specification]
#[verifier::external_body]
pub struct ExJsonValue(serde_json::Value);

/// A JSON value. A number keeps the text `serde_json` prints for it; an
/// object's fields come in the order `serde_json`'s map holds them.
#[derive(Debug)]
pub enum JsonTree {
    Null,
    Bool(bool),
    Number(String),
    Text(String),
    List(Vec<JsonTree>),
    Object(Vec<(String, JsonTree)>),
}

/// What `serde_json::from_str` makes of a text, as a `serde_json::Value`
/// carried over into a [`JsonTree`]: the tree, or the error's message.
pub uninterp spec fn json_parse(text: Seq<char>) -> Result<JsonTree, Seq<char>>;

/// Calls `serde_json::from_str::<serde_json::Value>` on `text`. Claimed:
/// the result is the named [`json_parse`] of the text, the error carried as
/// its `Display` text. Which trees and messages that are is not stated.
#[verifier::external_body]
pub(crate) fn parse_json(text: &str) -> (r: Result<JsonTree, String>)
    ensures
        match json_parse(text@) {
            Ok(t) => r == Ok::<JsonTree, String>(t),
            Err(m) => r matches Err(e) && e@ == m,
        },
{
    match serde_json::from_str::<serde_json::Value>(text) {
        Ok(v) => Ok(tree_of(&v)),
        Err(e) => Err(e.to_string()),
    }
}

/// The conversion half of [`parse_json`]: a `serde_json::Value` carried
/// over variant for variant (a number by its `Display` text, an object's
/// fields in its map's order). It claims nothing; only `parse_json` calls it.
#[verifier::external_body]
fn tree_of(v: &serde_json::Value) -> JsonTree {
    match v {
        serde_json::Value::Null => JsonTree::Null,
        serde_json::Value::Bool(b) => JsonTree::Bool(*b),
        serde_json::Value::Number(n) => JsonTree::Number(n.to_string()),
        serde_json::Value::String(s) => JsonTree::Text(s.clone()),
        serde_json::Value::Array(items) => JsonTree::List(items.iter().map(tree_of).collect()),
        serde_json::Value::Object(fields) => JsonTree::Object(
            fields.iter().map(|(k, x)| (k.clone(), tree_of(x))).collect(),
        ),
    }
}

/// The value of the first field named `key`.
pub open spec fn field_value(fs: Seq<(String, JsonTree)>, key: Seq<char>) -> Option<JsonTree>
    decreases fs.len(),
{
    if fs.len() == 0 {
        None
    } else if fs[0].0@ == key {
        Some(fs[0].1)
    } else {
        field_value(fs.drop_first(), key)
    }
}

/// The field `key` of an object; nothing for any other value.
pub open spec fn json_get(t: JsonTree, key: Seq<char>) -> Option<JsonTree> {
    match t {
        JsonTree::Object(fs) => field_value(fs@, key),
        _ => None,
    }
}

/// The value of the first field named `key`.
pub fn field_of<'a>(fs: &'a Vec<(String, JsonTree)>, key: &str) -> (r: Option<&'a JsonTree>)
    ensures
        match field_value(fs@, key@) {
            Some(v) => r matches Some(x) && *x == v,
            None => r is None,
        },
{
    let mut i: usize = 0;
    assert(fs@.skip(0) =~= fs@);
    while i < fs.len()
        invariant
            i <= fs@.len(),
            field_value(fs@, key@) == field_value(fs@.skip(i as int), key@),
        decreases fs@.len() - i,
    {
        assert(fs@.skip(i as int).drop_first() =~= fs@.skip(i + 1));
        assert(fs@.skip(i as int)[0] == fs@[i as int]);
        if str_eq(fs[i].0.as_str(), key) {
            return Some(&fs[i].1);
        }
        i = i + 1;
    }
    None
}

/// The field `key` of an object; nothing for any other value.
pub fn member<'a>(t: &'a JsonTree, key: &str) -> (r: Option<&'a JsonTree>)
    ensures
        match json_get(*t, key@) {
            Some(v) => r matches Some(x) && *x == v,
            None => r is None,
        },
{
    match t {
        JsonTree::Object(fs) => field_of(fs, key),
        _ => None,
    }
}

} // verus!
