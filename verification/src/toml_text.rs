//! TOML text: the documents that the `toml` crate reads from it, as values
//! of the library.

use vstd::prelude::*;
use crate::cargo_toml::{TomlValue, TomlView};

verus! {

/// A value of the `toml` crate, carried opaque.
#[verifier::external_type_specification]
#[verifier::external_body]
pub struct ExTomlCrateValue(toml::Value);

/// The document that `toml::from_str::<toml::Value>` reads from a text,
/// with its strings taken as characters; none where the text is no TOML
/// document.
pub uninterp spec fn toml_doc_of(text: Seq<char>) -> Option<TomlView>;

/// The library's value for a value of the `toml` crate, variant for
/// variant: floats by their bits, dates and times as `toml` writes them,
/// tables in the order the crate walks them. Only [`parse_toml`] calls it.
#[verifier::external_body]
fn toml_crate_value(v: &toml::Value) -> (r: TomlValue) {
    match v {
        toml::Value::String(s) => TomlValue::String(s.clone()),
        toml::Value::Integer(i) => TomlValue::Integer(*i),
        toml::Value::Float(f) => TomlValue::Float(f.to_bits()),
        toml::Value::Boolean(b) => TomlValue::Boolean(*b),
        toml::Value::Datetime(d) => TomlValue::Datetime(d.to_string()),
        toml::Value::Array(a) => TomlValue::Array(a.iter().map(toml_crate_value).collect()),
        toml::Value::Table(t) => TomlValue::Table(t.iter().map(|(k, v)| (k.clone(), toml_crate_value(v))).collect()),
    }
}

/// Reads a TOML document with `toml::from_str::<toml::Value>`: its value is
/// the one [`toml_doc_of`] names, and it fails exactly where that names
/// none. The crate's error is not kept.
#[verifier::external_body]
pub(crate) fn parse_toml(text: &str) -> (r: Option<TomlValue>)
    ensures
        match r {
            Some(v) => toml_doc_of(text@) == Some(v.view_of()),
            None => toml_doc_of(text@) is None,
        },
{
    match toml::from_str::<toml::Value>(text) {
        Ok(v) => Some(toml_crate_value(&v)),
        Err(_) => None,
    }
}

} // verus!
