//! Trusted boundary to serde_yaml: the workspace descriptor is a YAML
//! document and its textual parsing is taken as a black box.  Parsing is
//! deterministic in the text, so the two lists the descriptor may declare
//! are named as functions of the text alone.

use vstd::prelude::*;

verus! {

#[verifier::external_type_specification]
#[verifier::external_body]
pub struct ExYamlValue(serde_yaml::Value);

/// Whether serde_yaml::from_str accepts the text as a YAML document; the
/// answer is a function of the text alone.
pub uninterp spec fn yaml_parses(text: Seq<char>) -> bool;

/// The `packages` list of the descriptor the text parses to: Some exactly
/// when the document has a `packages` key holding a sequence of strings,
/// with those strings in order; None for any other shape.  serde_yaml is
/// deterministic, so this is a function of the text alone.
pub uninterp spec fn yaml_packages_of(text: Seq<char>) -> Option<Seq<Seq<char>>>;

/// The `catalog` list of the descriptor the text parses to: the empty list
/// when the key is absent, its strings in order when it holds a sequence of
/// strings, and None when it is present with any other shape.
pub uninterp spec fn yaml_catalog_of(text: Seq<char>) -> Option<Seq<Seq<char>>>;

/// Relies on serde_yaml::from_str, Value::get, Value::as_sequence, and
/// Value::as_str: extracts the descriptor's `packages` list.  Fails exactly
/// when the text is not valid YAML; the extraction itself only converts each
/// sequence element to a plain string, telling the string values apart from
/// the rest.
#[verifier::external_body]
pub(crate) fn yaml_packages_list(text: &str) -> (r: Result<Option<Vec<String>>, String>)
    ensures
        r is Ok <==> yaml_parses(text@),
        r matches Ok(l) ==> (l is Some <==> yaml_packages_of(text@) is Some),
        r matches Ok(l) && l matches Some(v) ==> v@.map_values(|s: String| s@)
            == yaml_packages_of(text@).unwrap(),
{
    let document: serde_yaml::Value = match serde_yaml::from_str(text) {
        Ok(d) => d,
        Err(e) => return Err(e.to_string()),
    };
    let elements = match document.get("packages") {
        Some(f) => match f.as_sequence() { Some(s) => s, None => return Ok(None) },
        None => return Ok(None),
    };
    let mut out: Vec<String> = Vec::new();
    for element in elements {
        match element.as_str() { Some(s) => out.push(s.to_string()), None => return Ok(None) }
    }
    Ok(Some(out))
}

/// Relies on serde_yaml::from_str, Value::get, Value::as_sequence, and
/// Value::as_str: extracts the descriptor's `catalog` list, empty when the
/// key is absent.  Fails exactly when the text is not valid YAML; the
/// extraction itself only converts each sequence element to a plain string.
#[verifier::external_body]
pub(crate) fn yaml_catalog_list(text: &str) -> (r: Result<Option<Vec<String>>, String>)
    ensures
        r is Ok <==> yaml_parses(text@),
        r matches Ok(l) ==> (l is Some <==> yaml_catalog_of(text@) is Some),
        r matches Ok(l) && l matches Some(v) ==> v@.map_values(|s: String| s@)
            == yaml_catalog_of(text@).unwrap(),
{
    let document: serde_yaml::Value = match serde_yaml::from_str(text) {
        Ok(d) => d,
        Err(e) => return Err(e.to_string()),
    };
    let field = match document.get("catalog") { Some(c) => c, None => return Ok(Some(Vec::new())) };
    let elements = match field.as_sequence() { Some(s) => s, None => return Ok(None) };
    let mut out: Vec<String> = Vec::new();
    for element in elements {
        match element.as_str() { Some(s) => out.push(s.to_string()), None => return Ok(None) }
    }
    Ok(Some(out))
}

} // verus!
