//! Schema migrations of the raw settings document. Each migration would
//! move the document forward by one schema version; version 1 is the first
//! shipped schema, so none is registered yet and a document passes through
//! unchanged.

use vstd::prelude::*;

verus! {

#[verifier::external_type_specification]
#[verifier::external_body]
pub struct ExTomlValue(toml::Value);

#[verifier::external_type_specification]
#[verifier::external_body]
pub struct ExTomlDeError(toml::de::Error);

/// Whether `toml::from_str::<toml::Value>` accepts `text` as a TOML
/// document.
pub uninterp spec fn is_toml_document(text: Seq<char>) -> bool;

/// The document `toml::from_str::<toml::Value>` reads from `text` where it
/// accepts it.
pub uninterp spec fn toml_document_of(text: Seq<char>) -> toml::Value;

/// Calls `toml::from_str::<toml::Value>`, which parses `text` as a TOML
/// document; its error is handed back as it is. Which texts it accepts,
/// and the document it reads from them, are named, not described.
#[verifier::external_body]
fn parse_toml_value(text: &str) -> (r: Result<toml::Value, toml::de::Error>)
    ensures
        r is Ok <==> is_toml_document(text@),
        r matches Ok(v) ==> v == toml_document_of(text@),
{
    toml::from_str(text)
}

/// Looks `key` up with `toml::Value::get` and reads it with
/// `toml::Value::as_integer`: the integer stored under `key` when `doc` is
/// a table holding one, else `None`. Nothing is stated of it, as a
/// `toml::Value` is opaque here.
#[verifier::external_body]
fn toml_integer_field(doc: &toml::Value, key: &str) -> Option<i64> {
    doc.get(key).and_then(toml::Value::as_integer)
}

/// The schema version a document declares: its `schema_version` integer
/// cut to 32 bits, or 1 when the key is missing or not an integer.
pub fn schema_version_from(field: Option<i64>) -> (version: u32)
    ensures
        version == match field {
            Some(v) => v as u32,
            None => 1u32,
        },
{
    match field {
        Some(v) => v as u32,
        None => 1,
    }
}

/// Brings `doc` up to the current schema. With no migration registered
/// yet, the document comes back as it was.
pub fn migrate(doc: toml::Value) -> (res: toml::Value)
    ensures
        res == doc,
{
    let _version = schema_version_from(toml_integer_field(&doc, "schema_version"));
    doc
}

/// Reads the settings text as a TOML document and brings it up to the
/// current schema. It succeeds exactly on TOML documents, and then gives
/// what [`migrate`] makes of the document read; otherwise the parser's
/// error.
pub fn load_document(text: &str) -> (r: Result<toml::Value, toml::de::Error>)
    ensures
        r is Ok <==> is_toml_document(text@),
        r matches Ok(v) ==> v == toml_document_of(text@),
{
    match parse_toml_value(text) {
        Ok(doc) => Ok(migrate(doc)),
        Err(e) => Err(e),
    }
}

} // verus!
