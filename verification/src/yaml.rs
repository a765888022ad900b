//! YAML text read through serde_yaml: as a JSON value (configuration) or
//! as a YAML value whose variants the library tells apart (translations).
use vstd::prelude::*;

verus! {

/// The error of `serde_yaml`, carried through opaquely.
#[verifier::external_type_specification]
#[verifier::external_body]
pub struct ExYamlError(serde_yaml::Error);

/// `serde_yaml::Value`, carried through opaquely.
#[verifier::external_type_specification]
#[verifier::external_body]
pub struct ExYamlValue(serde_yaml::Value);

/// `serde_yaml::Number`, carried through opaquely.
#[verifier::external_type_specification]
#[verifier::external_body]
pub struct ExYamlNumber(serde_yaml::Number);

/// Whether `serde_yaml::from_str::<serde_json::Value>` accepts `text`.
pub uninterp spec fn yaml_json_parses(text: Seq<char>) -> bool;

/// The JSON value `serde_yaml::from_str::<serde_json::Value>` reads from
/// text it accepts.
pub uninterp spec fn yaml_json_of(text: Seq<char>) -> serde_json::Value;

/// Calls `serde_yaml::from_str` into a `serde_json::Value`. Whether it
/// succeeds, and the value read, depend on the text alone; serde_yaml
/// refuses documents nested more than 128 levels deep.
#[verifier::external_body]
pub(crate) fn yaml_to_json(text: &str) -> (r: Result<serde_json::Value, serde_yaml::Error>)
    ensures
        r is Ok <==> yaml_json_parses(text@),
        r matches Ok(v) ==> v == yaml_json_of(text@),
{
    serde_yaml::from_str(text)
}

/// Whether `serde_yaml::from_str::<serde_yaml::Value>` accepts `text`.
pub uninterp spec fn yaml_parses(text: Seq<char>) -> bool;

/// The YAML value `serde_yaml::from_str::<serde_yaml::Value>` reads from
/// text it accepts.
pub uninterp spec fn yaml_value_of(text: Seq<char>) -> serde_yaml::Value;

/// Calls `serde_yaml::from_str` into a `serde_yaml::Value`. Whether it
/// succeeds, and the value read, depend on the text alone; serde_yaml
/// refuses documents nested more than 128 levels deep.
#[verifier::external_body]
pub(crate) fn yaml_from_str(text: &str) -> (r: Result<serde_yaml::Value, serde_yaml::Error>)
    ensures
        r is Ok <==> yaml_parses(text@),
        r matches Ok(v) ==> v == yaml_value_of(text@),
{
    serde_yaml::from_str(text)
}

/// The message of a serde_yaml error (its `Display`).
#[verifier::external_body]
pub(crate) fn yaml_error_text(e: &serde_yaml::Error) -> String {
    e.to_string()
}

/// The variant of a YAML value that translation catalogs tell apart, with
/// its contents.
pub enum YamlShape {
    /// A mapping's entries, in the mapping's order.
    Mapping(Vec<(serde_yaml::Value, serde_yaml::Value)>),
    Str(String),
    Number(serde_yaml::Number),
    Bool(bool),
    /// Null, a sequence or a tagged value.
    Other,
}

/// The variant and contents of a YAML value.
pub uninterp spec fn yaml_shape_of(v: serde_yaml::Value) -> YamlShape;

/// Tells the variants of a `serde_yaml::Value` apart, cloning the contents.
#[verifier::external_body]
pub(crate) fn yaml_shape(v: &serde_yaml::Value) -> (r: YamlShape)
    ensures
        r == yaml_shape_of(*v),
{
    match v {
        serde_yaml::Value::Mapping(m) => YamlShape::Mapping(m.iter().map(|(k, x)| (k.clone(), x.clone())).collect()),
        serde_yaml::Value::String(s) => YamlShape::Str(s.clone()),
        serde_yaml::Value::Number(n) => YamlShape::Number(n.clone()),
        serde_yaml::Value::Bool(b) => YamlShape::Bool(*b),
        serde_yaml::Value::Null => YamlShape::Other,
        serde_yaml::Value::Sequence(_) => YamlShape::Other,
        serde_yaml::Value::Tagged(_) => YamlShape::Other,
    }
}

/// The text `serde_yaml::Number`'s `Display` writes.
pub uninterp spec fn yaml_number_text_of(n: serde_yaml::Number) -> Seq<char>;

/// Writes a YAML number with its `Display`.
#[verifier::external_body]
pub(crate) fn yaml_number_text(n: &serde_yaml::Number) -> (r: String)
    ensures
        r@ == yaml_number_text_of(*n),
{
    n.to_string()
}

/// The text `serde_yaml::Value`'s `Debug` writes.
pub uninterp spec fn yaml_debug_of(v: serde_yaml::Value) -> Seq<char>;

/// Writes a YAML value with its `Debug`.
#[verifier::external_body]
pub(crate) fn yaml_debug_text(v: &serde_yaml::Value) -> (r: String)
    ensures
        r@ == yaml_debug_of(*v),
{
    format!("{v:?}")
}

} // verus!
