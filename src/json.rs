//! The JSON parser that the library calls on cells of `JSON` columns.
use vstd::prelude::*;

verus! {

#[verifier::external_type_specification]
#[verifier::external_body]
pub struct ExJsonValue(serde_json::Value);

#[verifier::external_type_specification]
#[verifier::external_body]
pub struct ExJsonError(serde_json::Error);

/// Relies on serde_json's derived `Clone` for `Value`: the copy is the same tree.
pub assume_specification[ <serde_json::Value as Clone>::clone ](v: &serde_json::Value) -> (r: serde_json::Value)
    ensures
        r == *v,
;

/// The tree that serde_json's parser makes of a text, or `None` where it
/// rejects the text.
pub uninterp spec fn json_tree_of(text: Seq<char>) -> Option<serde_json::Value>;

/// Relies on `serde_json::from_str::<serde_json::Value>`: it accepts or rejects
/// a text, and builds its tree, from the characters of the text alone.
#[verifier::external_body]
pub(crate) fn parse_json_text(text: &str) -> (r: Result<serde_json::Value, serde_json::Error>)
    ensures
        match r {
            Ok(tree) => json_tree_of(text@) == Some(tree),
            Err(_) => json_tree_of(text@) is None,
        },
{
    serde_json::from_str::<serde_json::Value>(text)
}

} // verus!
