//! The library's trusted frontier: the boundary-token generator and the JSON
//! serializer live in outside crates, and the contracts here are what the
//! rest of the library believes about them.

use vstd::prelude::*;

verus! {

use crate::encoding::boundary_char;

/// Declares `serde_json::Value` so that it can stand in signatures; the
/// library carries such a value through without looking inside it.
#[verifier::external_type_specification]
#[verifier::external_body]
pub struct ExSerdeJsonValue(serde_json::Value);

/// Declares `serde_json::Error`, the error a failed serialization returns.
#[verifier::external_type_specification]
#[verifier::external_body]
pub struct ExSerdeJsonError(serde_json::Error);

/// The JSON text, as UTF-8 bytes, that serializing the given value produces.
/// The result depends on the value alone.
pub uninterp spec fn json_encoding(value: serde_json::Value) -> Seq<u8>;

/// Relies on `uuid::Uuid::new_v4` and uuid's `Display` impl: a fresh random
/// UUID, printed in its hyphenated form, is 36 ASCII characters, each a
/// lowercase hexadecimal digit or a hyphen. Nothing relates two calls: each
/// draws a new random token.
#[verifier::external_body]
pub(crate) fn fresh_boundary() -> (r: String)
    ensures
        r@.len() == 36,
        forall|i: int| 0 <= i < r@.len() ==> boundary_char(#[trigger] r@[i]),
{
    uuid::Uuid::new_v4().to_string()
}

/// Relies on `serde_json::to_vec` applied to a `serde_json::Value`: the call
/// succeeds, and the returned bytes are the JSON text of the value, a
/// function of the value alone (object keys are kept in sorted order by
/// `serde_json`'s map type). Success is owed because every error path of
/// `Value`'s serialization is an I/O error of the writer, writing into a
/// `Vec<u8>` cannot fail, and object keys are always strings.
#[verifier::external_body]
pub(crate) fn serialize_json_value(value: &serde_json::Value) -> (r: Result<
    Vec<u8>,
    serde_json::Error,
>)
    ensures
        r is Ok,
        r->Ok_0@ == json_encoding(*value),
{
    serde_json::to_vec(value)
}

} // verus!
