//! Case-convention transcoding for JSON property names.
//!
//! The crate converts identifiers between lowerCamelCase and snake_case,
//! applies that conversion to every property name of a JSON document, and
//! rewrites whole message bodies, handing a body back unchanged whenever the
//! body is not a JSON document.
//!
//! - `identifier` converts one identifier; `identifier_laws` and `round_trip`
//!   prove what holds of the two conversions.
//! - `json_convert` converts the property names of a `serde_json::Value`;
//!   `json_laws` proves that nothing but names changes.
//! - `body` rewrites a message body.
//!
//! Two things are taken on trust and kept in files of their own: what the
//! case functions of the standard library return (`letters`), and what the
//! operations of `serde_json` do to its values (`json`).

pub mod body;
pub mod identifier;
pub mod identifier_laws;
pub mod json;
pub mod json_convert;
pub mod json_laws;
pub mod key_order;
pub mod letters;
mod object_proofs;
pub mod round_trip;
