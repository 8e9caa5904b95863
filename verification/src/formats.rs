//! The parsers of the three manifest formats and the Cargo manifest reader.
//!
//! Each parser is called here and its tree rewritten, node for node, as a
//! `UnifiedValue`. What a parser makes of a text is given a name and not
//! spelled out: the names below stand for the outside parsers' results.

use vstd::prelude::*;
use crate::value::{Entry, UnifiedValue};

verus! {

#[verifier::external_type_specification]
#[verifier::external_body]
pub struct ExTomlValue(toml::Value);

#[verifier::external_type_specification]
#[verifier::external_body]
pub struct ExTomlError(toml::de::Error);

#[verifier::external_type_specification]
#[verifier::external_body]
pub struct ExJsonValue(serde_json::Value);

#[verifier::external_type_specification]
#[verifier::external_body]
pub struct ExJsonError(serde_json::Error);

#[verifier::external_type_specification]
#[verifier::external_body]
pub struct ExYamlValue(serde_yaml::Value);

#[verifier::external_type_specification]
#[verifier::external_body]
pub struct ExYamlError(serde_yaml::Error);

#[verifier::external_type_specification]
#[verifier::external_body]
#[verifier::reject_recursive_types(PackageMetadata)]
#[verifier::reject_recursive_types(WorkspaceMetadata)]
pub struct ExManifest<PackageMetadata, WorkspaceMetadata>(
    cargo_manifest::Manifest<PackageMetadata, WorkspaceMetadata>,
);

#[verifier::external_type_specification]
#[verifier::external_body]
pub struct ExManifestError(cargo_manifest::Error);

/// The tree that `toml::from_str::<toml::Value>` reads from `text`, as a
/// `UnifiedValue`; `None` where it fails.
pub uninterp spec fn toml_document(text: Seq<char>) -> Option<UnifiedValue>;

/// The tree that `serde_json::from_str::<serde_json::Value>` reads from
/// `text`, as a `UnifiedValue`; `None` where it fails.
pub uninterp spec fn json_document(text: Seq<char>) -> Option<UnifiedValue>;

/// The tree that `serde_yaml::from_str::<serde_yaml::Value>` reads from
/// `text`, as a `UnifiedValue`; `None` where it fails.
pub uninterp spec fn yaml_document(text: Seq<char>) -> Option<UnifiedValue>;

/// Whether `cargo_manifest::Manifest::from_slice` accepts `bytes` as a
/// `Cargo.toml`.
pub uninterp spec fn cargo_manifest_accepts(bytes: Seq<u8>) -> bool;

/// `toml::from_str::<toml::Value>`: reads `text` as a TOML document. The
/// contract claims only that the outcome is fixed by the text
/// (`toml_document`); which texts parse, and to what, is TOML's grammar and
/// is not restated.
#[verifier::external_body]
pub(crate) fn toml_from_str(text: &str) -> (parsed: Result<UnifiedValue, toml::de::Error>)
    ensures
        match parsed {
            Ok(v) => toml_document(text@) == Some(v),
            Err(_) => toml_document(text@) is None,
        },
{
    toml::from_str::<toml::Value>(text).map(unify_toml)
}

/// `serde_json::from_str::<serde_json::Value>`: reads `text` as a JSON
/// document. The contract claims only that the outcome is fixed by the text
/// (`json_document`).
#[verifier::external_body]
pub(crate) fn json_from_str(text: &str) -> (parsed: Result<UnifiedValue, serde_json::Error>)
    ensures
        match parsed {
            Ok(v) => json_document(text@) == Some(v),
            Err(_) => json_document(text@) is None,
        },
{
    serde_json::from_str::<serde_json::Value>(text).map(unify_json)
}

/// `serde_yaml::from_str::<serde_yaml::Value>`: reads `text` as a YAML
/// document. The contract claims only that the outcome is fixed by the text
/// (`yaml_document`).
#[verifier::external_body]
pub(crate) fn yaml_from_str(text: &str) -> (parsed: Result<UnifiedValue, serde_yaml::Error>)
    ensures
        match parsed {
            Ok(v) => yaml_document(text@) == Some(v),
            Err(_) => yaml_document(text@) is None,
        },
{
    serde_yaml::from_str::<serde_yaml::Value>(text).map(unify_yaml)
}

/// `cargo_manifest::Manifest::from_slice`: reads `bytes` as a `Cargo.toml`.
/// The contract claims only that success is fixed by the bytes
/// (`cargo_manifest_accepts`); the manifest read is not described.
#[verifier::external_body]
pub(crate) fn manifest_from_slice(bytes: &[u8]) -> (read: Result<
    cargo_manifest::Manifest,
    cargo_manifest::Error,
>)
    ensures
        read is Ok == cargo_manifest_accepts(bytes@),
{
    cargo_manifest::Manifest::from_slice(bytes)
}

/// Rewrites a `toml::Value` node for node: strings, integers, arrays and
/// tables (keys kept); floats, booleans and datetimes become `Other`.
#[verifier::external_body]
fn unify_toml(v: toml::Value) -> UnifiedValue {
    match v {
        toml::Value::String(s) => UnifiedValue::Str(s),
        toml::Value::Integer(i) => UnifiedValue::Int(i128::from(i)),
        toml::Value::Array(a) => UnifiedValue::Array(a.into_iter().map(unify_toml).collect()),
        toml::Value::Table(t) => UnifiedValue::Table(
            t.into_iter().map(|(k, v)| Entry { key: Some(k), value: unify_toml(v) }).collect(),
        ),
        toml::Value::Float(_) | toml::Value::Boolean(_) | toml::Value::Datetime(_) => UnifiedValue::Other,
    }
}

/// Rewrites a `serde_json::Value` node for node: strings, integral numbers
/// (`Number::as_i128`), arrays and objects (keys kept); null, booleans and
/// other numbers become `Other`.
#[verifier::external_body]
fn unify_json(v: serde_json::Value) -> UnifiedValue {
    match v {
        serde_json::Value::String(s) => UnifiedValue::Str(s),
        serde_json::Value::Number(n) => n.as_i128().map_or(UnifiedValue::Other, UnifiedValue::Int),
        serde_json::Value::Array(a) => UnifiedValue::Array(a.into_iter().map(unify_json).collect()),
        serde_json::Value::Object(m) => UnifiedValue::Table(
            m.into_iter().map(|(k, v)| Entry { key: Some(k), value: unify_json(v) }).collect(),
        ),
        serde_json::Value::Null | serde_json::Value::Bool(_) => UnifiedValue::Other,
    }
}

/// Rewrites a `serde_yaml::Value` node for node: strings, numbers with an
/// `i64` reading (`Number::as_i64`), sequences, mappings (a key that is a
/// plain string is kept, any other key becomes `None`) and tagged values
/// (the tag itself dropped); null, booleans and other numbers become `Other`.
#[verifier::external_body]
fn unify_yaml(v: serde_yaml::Value) -> UnifiedValue {
    match v {
        serde_yaml::Value::String(s) => UnifiedValue::Str(s),
        serde_yaml::Value::Number(n) => n.as_i64().map(i128::from).map_or(UnifiedValue::Other, UnifiedValue::Int),
        serde_yaml::Value::Sequence(a) => UnifiedValue::Array(a.into_iter().map(unify_yaml).collect()),
        serde_yaml::Value::Mapping(m) => UnifiedValue::Table(
            m.into_iter().map(|(k, v)| Entry {
                key: if let serde_yaml::Value::String(s) = k { Some(s) } else { None },
                value: unify_yaml(v),
            }).collect(),
        ),
        serde_yaml::Value::Tagged(t) => UnifiedValue::Tagged(Box::new(unify_yaml(t.value))),
        serde_yaml::Value::Null | serde_yaml::Value::Bool(_) => UnifiedValue::Other,
    }
}

} // verus!
