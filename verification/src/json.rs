//! JSON text of string-to-string maps, written and read by `serde_json`.
use vstd::prelude::*;

verus! {

/// `serde_json`'s error type.
#[verifier::external_type_specification]
#[verifier::external_body]
pub struct ExJsonError(serde_json::Error);

/// The map that a sequence of entries describes, where a later entry for a
/// key replaces an earlier one.
pub open spec fn entries_map(s: Seq<(Seq<char>, Seq<char>)>) -> Map<Seq<char>, Seq<char>>
    decreases s.len(),
{
    if s.len() == 0 {
        Map::empty()
    } else {
        entries_map(s.drop_last()).insert(s.last().0, s.last().1)
    }
}

/// No two entries share a key.
pub open spec fn keys_distinct(s: Seq<(Seq<char>, Seq<char>)>) -> bool {
    forall|i: int, j: int| 0 <= i < j < s.len() ==> #[trigger] s[i].0 != #[trigger] s[j].0
}

/// The text that `serde_json::to_string` writes for a map of strings to
/// strings held in a `BTreeMap` (a JSON object, keys in ascending order).
pub uninterp spec fn string_map_json(m: Map<Seq<char>, Seq<char>>) -> Seq<char>;

/// The entries that `serde_json::from_str` reads from `text` into a
/// `BTreeMap<String, String>`, in the map's order, or `None` where `text` is
/// not a JSON object whose values are all strings.
pub uninterp spec fn json_string_entries(text: Seq<char>) -> Option<Seq<(Seq<char>, Seq<char>)>>;

/// Writes the entries as a JSON object (`serde_json::to_string` on a
/// `BTreeMap<&str, &str>` that holds them). The documentation of
/// `serde_json::to_string` names two causes of failure, a `Serialize` impl
/// that fails and a map with keys that are not strings; neither can occur
/// for a map of strings, so the result is `Ok`. The text itself is not
/// stated; it is named `string_map_json` of the entries' map.
#[verifier::external_body]
pub(crate) fn encode_string_map(entries: &Vec<(String, String)>) -> (r: Result<String, serde_json::Error>)
    requires
        keys_distinct(entries.deep_view()),
    ensures
        r is Ok,
        r->Ok_0@ == string_map_json(entries_map(entries.deep_view())),
{
    let map: std::collections::BTreeMap<&str, &str> =
        entries.iter().map(|(k, v)| (k.as_str(), v.as_str())).collect();
    serde_json::to_string(&map)
}

/// Reads a JSON object of strings (`serde_json::from_str` into a
/// `BTreeMap<String, String>`), giving its entries in the map's order. The
/// entries are named `json_string_entries` of the text; a `BTreeMap` holds a
/// key once, so the keys are distinct; and reading the text that
/// `encode_string_map` writes for a map gives back that map.
#[verifier::external_body]
pub(crate) fn decode_string_map(text: &str) -> (r: Result<Vec<(String, String)>, serde_json::Error>)
    ensures
        match r {
            Ok(entries) => json_string_entries(text@) == Some(entries.deep_view())
                && keys_distinct(entries.deep_view()),
            Err(_) => json_string_entries(text@) is None,
        },
        forall|m: Map<Seq<char>, Seq<char>>|
            #![trigger string_map_json(m)]
            m.dom().finite() && string_map_json(m) == text@ ==> (r is Ok && entries_map(
                r->Ok_0.deep_view(),
            ) == m),
{
    let map: std::collections::BTreeMap<String, String> = serde_json::from_str(text)?;
    Ok(map.into_iter().collect())
}

} // verus!
