use vstd::prelude::*;

verus! {

use crate::text::str_eq;

/// One parsed configuration document: a plain tree holding only what the
/// configuration logic reads. Scalars the logic never looks at (numbers,
/// datetimes, tagged values) are carried as `Other`.
#[derive(Debug, PartialEq)]
pub enum DocValue {
    Null,
    Bool(bool),
    Str(String),
    List(Vec<DocValue>),
    Table(Vec<(DocValue, DocValue)>),
    Other,
}

/// True when the key of a table pair is the given string.
pub open spec fn is_str_key(k: DocValue, key: Seq<char>) -> bool {
    k matches DocValue::Str(s) && s@ == key
}

/// The value of the first pair with the given string key, scanning in
/// document order.
pub open spec fn doc_lookup(pairs: Seq<(DocValue, DocValue)>, key: Seq<char>) -> Option<DocValue>
    decreases pairs.len(),
{
    if pairs.len() == 0 {
        None
    } else if is_str_key(pairs[0].0, key) {
        Some(pairs[0].1)
    } else {
        doc_lookup(pairs.drop_first(), key)
    }
}

/// Finds the value stored under a string key in a table's pairs.
pub fn doc_get<'a>(pairs: &'a Vec<(DocValue, DocValue)>, key: &str) -> (r: Option<&'a DocValue>)
    ensures
        match r {
            Some(v) => doc_lookup(pairs@, key@) == Some(*v),
            None => doc_lookup(pairs@, key@) is None,
        },
{
    proof {
        assert(pairs@.skip(0) =~= pairs@);
    }
    let mut i: usize = 0;
    while i < pairs.len()
        invariant
            i <= pairs@.len(),
            doc_lookup(pairs@.skip(i as int), key@) == doc_lookup(pairs@, key@),
        decreases pairs@.len() - i,
    {
        proof {
            assert(pairs@.skip(i as int)[0] == pairs@[i as int]);
            assert(pairs@.skip(i as int).drop_first() =~= pairs@.skip(i + 1));
        }
        let found = match &pairs[i].0 {
            DocValue::Str(s) => str_eq(s.as_str(), key),
            _ => false,
        };
        if found {
            return Some(&pairs[i].1);
        }
        i += 1;
    }
    proof {
        assert(pairs@.skip(pairs@.len() as int) =~= Seq::<(DocValue, DocValue)>::empty());
    }
    None
}

#[verifier::external_type_specification]
#[verifier::external_body]
pub struct ExYamlValue(serde_yaml::Value);

#[verifier::external_type_specification]
#[verifier::external_body]
pub struct ExTomlValue(toml::Value);

/// The document tree that the given text parses to as YAML, or nothing where
/// the text is not well-formed YAML.
pub uninterp spec fn yaml_document_of(text: Seq<char>) -> Option<DocValue>;

/// The document tree that the given text parses to as TOML, or nothing where
/// the text is not well-formed TOML.
pub uninterp spec fn toml_document_of(text: Seq<char>) -> Option<DocValue>;

/// Relies on serde_yaml::Value only as a plain tree: each variant is moved
/// into the matching `DocValue` variant, and scalars the configuration logic
/// never reads become `Other`.
#[verifier::external_body]
fn yaml_value_to_doc(v: serde_yaml::Value) -> DocValue {
    match v {
        serde_yaml::Value::Null => DocValue::Null,
        serde_yaml::Value::Bool(b) => DocValue::Bool(b),
        serde_yaml::Value::String(s) => DocValue::Str(s),
        serde_yaml::Value::Sequence(items) => DocValue::List(
            items.into_iter().map(yaml_value_to_doc).collect(),
        ),
        serde_yaml::Value::Mapping(m) => DocValue::Table(
            m.into_iter().map(|(k, v)| (yaml_value_to_doc(k), yaml_value_to_doc(v))).collect(),
        ),
        _ => DocValue::Other,
    }
}

/// Relies on serde_yaml::from_str for serde_yaml::Value: one YAML document is
/// parsed from the text alone, the same text always giving the same tree.
#[verifier::external_body]
pub(crate) fn parse_yaml(text: &str) -> (r: Option<DocValue>)
    ensures
        r == yaml_document_of(text@),
{
    match serde_yaml::from_str::<serde_yaml::Value>(text) {
        Ok(v) => Some(yaml_value_to_doc(v)),
        Err(_) => None,
    }
}

/// Relies on toml::Value only as a plain tree, moved variant by variant as in
/// `yaml_value_to_doc`; table keys are already strings in TOML.
#[verifier::external_body]
fn toml_value_to_doc(v: toml::Value) -> DocValue {
    match v {
        toml::Value::String(s) => DocValue::Str(s),
        toml::Value::Boolean(b) => DocValue::Bool(b),
        toml::Value::Array(items) => DocValue::List(
            items.into_iter().map(toml_value_to_doc).collect(),
        ),
        toml::Value::Table(t) => DocValue::Table(
            t.into_iter().map(|(k, v)| (DocValue::Str(k), toml_value_to_doc(v))).collect(),
        ),
        _ => DocValue::Other,
    }
}

/// Relies on toml::from_str for toml::Value: one TOML document is parsed from
/// the text alone, the same text always giving the same tree.
#[verifier::external_body]
pub(crate) fn parse_toml(text: &str) -> (r: Option<DocValue>)
    ensures
        r == toml_document_of(text@),
{
    match toml::from_str::<toml::Value>(text) {
        Ok(v) => Some(toml_value_to_doc(v)),
        Err(_) => None,
    }
}

} // verus!
