//! Trusted boundary to serde_json: package manifests are JSON documents and
//! their textual parsing is taken as a black box.  Parsing is deterministic
//! in the text, so the entries of a document's `dependencies` object are
//! named as a function of the text alone, and the library's own contracts
//! are exact over that name.

use vstd::prelude::*;

verus! {

#[verifier::external_type_specification]
#[verifier::external_body]
pub struct ExJsonValue(serde_json::Value);

#[verifier::external_type_specification]
#[verifier::external_body]
#[verifier::reject_recursive_types(K)]
#[verifier::reject_recursive_types(V)]
pub struct ExJsonMap<K, V>(serde_json::Map<K, V>);

/// Whether serde_json::from_str accepts the text as a JSON document; the
/// answer is a function of the text alone.
pub uninterp spec fn json_parses(text: Seq<char>) -> bool;

/// The entries of the `dependencies` object of the document the text parses
/// to, in the map's iteration order: each dependency name with the text of
/// its value where that value is a JSON string, `None` where it is not.
/// Empty when the field is absent or not an object.  serde_json is
/// deterministic, so this is a function of the text alone.
pub uninterp spec fn json_deps_entries_of(text: Seq<char>) -> Seq<(Seq<char>, Option<Seq<char>>)>;

/// What the map holds: its entries in iteration order, each key with the
/// text of its value where that value is a JSON string, `None` where it is
/// not.
pub uninterp spec fn json_map_entries(m: serde_json::Map<String, serde_json::Value>) -> Seq<
    (Seq<char>, Option<Seq<char>>),
>;

/// First-match lookup of `key` among entries, yielding the string content of
/// its value: `None` both where the key is absent and where its value is not
/// a string.
pub open spec fn spec_entries_lookup(
    entries: Seq<(Seq<char>, Option<Seq<char>>)>,
    key: Seq<char>,
) -> Option<Seq<char>>
    decreases entries.len(),
{
    if entries.len() == 0 {
        None
    } else if entries[0].0 == key {
        entries[0].1
    } else {
        spec_entries_lookup(entries.drop_first(), key)
    }
}

/// Relies on serde_json::from_str, Value::get, and Value::as_object: the
/// `dependencies` object of the document, owned.  Fails exactly when the
/// text is not valid JSON; None exactly when the parsed document has no
/// `dependencies` object; otherwise that object, whose contents are the
/// named entries of the text.
#[verifier::external_body]
pub(crate) fn json_dependencies_object(text: &str) -> (r: Result<
    Option<serde_json::Map<String, serde_json::Value>>,
    String,
>)
    ensures
        r is Ok <==> json_parses(text@),
        r matches Ok(Some(m)) ==> json_map_entries(m) == json_deps_entries_of(text@),
        r matches Ok(None) ==> json_deps_entries_of(text@) =~= Seq::<(
            Seq<char>,
            Option<Seq<char>>,
        )>::empty(),
{
    match serde_json::from_str::<serde_json::Value>(text) {
        Ok(document) => match document.get("dependencies") {
            Some(field) => match field.as_object() {
                Some(object) => Ok(Some(object.clone())),
                None => Ok(None),
            },
            None => Ok(None),
        },
        Err(e) => Err(e.to_string()),
    }
}

/// Relies on serde_json::Map::keys: lists the keys of the map in iteration
/// order — exactly the keys of its entries, which are pairwise distinct.
#[verifier::external_body]
pub(crate) fn json_map_keys(m: &serde_json::Map<String, serde_json::Value>) -> (r: Vec<String>)
    ensures
        r@.map_values(|k: String| k@) =~= json_map_entries(*m).map_values(
            |p: (Seq<char>, Option<Seq<char>>)| p.0,
        ),
        forall|i: int, j: int| 0 <= i < j < r@.len() ==> r@[i]@ != r@[j]@,
{
    m.keys().cloned().collect()
}

/// Relies on serde_json::Map::get and Value::as_str: looks a key up in the
/// map and yields the string content of its value — what the named entries
/// hold at that key.
#[verifier::external_body]
pub(crate) fn json_map_get_str(
    m: &serde_json::Map<String, serde_json::Value>,
    key: &String,
) -> (r: Option<String>)
    ensures
        match r {
            Some(s) => spec_entries_lookup(json_map_entries(*m), key@) == Some(s@),
            None => spec_entries_lookup(json_map_entries(*m), key@) is None,
        },
{
    match m.get(key) {
        Some(value) => match value.as_str() {
            Some(s) => Some(s.to_string()),
            None => None,
        },
        None => None,
    }
}

} // verus!
