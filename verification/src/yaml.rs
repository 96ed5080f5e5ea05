//! Reading frontmatter fields out of YAML text, through `serde_yaml`.
//!
//! What a YAML document holds under a key is a function of the text and
//! the key alone, so each extraction carries a name that the frontmatter
//! contracts are stated over: the string field under a key, the
//! string-sequence field under a key, and whether the text parses at all
//! (with the parser's own message when it does not).

use vstd::prelude::*;

verus! {

/// The string under `key` in the YAML document `s`: `Some` exactly when
/// `s` parses as YAML, is a mapping holding `key`, and the value there is
/// a string scalar.
pub uninterp spec fn yaml_str_field(s: Seq<char>, key: Seq<char>) -> Option<Seq<char>>;

/// The sequence of strings under `key` in the YAML document `s`: `Some`
/// exactly when `s` parses as YAML, is a mapping holding `key`, and the
/// value there is a sequence whose items are all string scalars.
pub uninterp spec fn yaml_list_field(s: Seq<char>, key: Seq<char>) -> Option<Seq<Seq<char>>>;

/// The parser's message where `s` is not well-formed YAML; `None` where it
/// parses.
pub uninterp spec fn yaml_doc_error(s: Seq<char>) -> Option<Seq<char>>;

/// Relies on `serde_yaml::from_str::<Value>`, `Value::get` and
/// `Value::as_str`: the string field under `key` of the YAML text `s`, a
/// function of the text and the key alone.
#[verifier::external_body]
pub(crate) fn yaml_str_field_of(s: &str, key: &str) -> (r: Option<String>)
    ensures
        r.deep_view() == yaml_str_field(s@, key@),
        yaml_doc_error(s@) is Some ==> r is None,
{
    match serde_yaml::from_str::<serde_yaml::Value>(s) {
        Ok(v) => v.get(key).and_then(|f| f.as_str()).map(str::to_string),
        Err(_) => None,
    }
}

/// Relies on `serde_yaml::from_str::<Value>`, `Value::get`,
/// `Value::as_sequence` and `Value::as_str`: the string-sequence field
/// under `key` of the YAML text `s`, a function of the text and the key
/// alone; `None` where any item is not a string.
#[verifier::external_body]
pub(crate) fn yaml_list_field_of(s: &str, key: &str) -> (r: Option<Vec<String>>)
    ensures
        r.deep_view() == yaml_list_field(s@, key@),
        yaml_doc_error(s@) is Some ==> r is None,
{
    let v = match serde_yaml::from_str::<serde_yaml::Value>(s) {
        Ok(v) => v,
        Err(_) => return None,
    };
    let items = v.get(key)?.as_sequence()?;
    items.iter().map(|x| x.as_str().map(str::to_string)).collect()
}

/// Relies on `serde_yaml::from_str::<Value>`: whether the text parses as
/// YAML, and the parser's own message where it does not.
#[verifier::external_body]
pub(crate) fn yaml_check(s: &str) -> (r: Option<String>)
    ensures
        r.deep_view() == yaml_doc_error(s@),
{
    match serde_yaml::from_str::<serde_yaml::Value>(s) {
        Ok(_) => None,
        Err(e) => Some(e.to_string()),
    }
}

} // verus!
