//! Rewriting of a whole message body.
//!
//! A body that `serde_json` reads as a document is written out again with
//! every property name converted. Any other body, the empty one included,
//! comes back byte for byte.

use vstd::prelude::*;
use vstd::slice::slice_to_vec;
use crate::json::{json_model, json_text, parse_json, parsed_json, serialize_json, Json};
use crate::json_convert::{transform_keys, transformed, ConversionDirection};

verus! {

/// The body for a document that was read from `payload`: the text of the
/// converted document, or `payload` where no text can be written for it.
pub open spec fn rewritten_document(
    payload: Seq<u8>,
    doc: Json,
    direction: ConversionDirection,
) -> Seq<u8> {
    match json_text(transformed(doc, direction)) {
        Some(text) => text,
        None => payload,
    }
}

/// The body that takes the place of `payload`.
pub open spec fn rewritten(payload: Seq<u8>, direction: ConversionDirection) -> Seq<u8> {
    if payload.len() == 0 {
        payload
    } else {
        match parsed_json(payload) {
            Some(doc) => rewritten_document(payload, doc, direction),
            None => payload,
        }
    }
}

/// The text that was written, or a copy of `payload` where none was.
pub fn text_or_payload(payload: &[u8], text: Option<Vec<u8>>) -> (out: Vec<u8>)
    ensures
        text is Some ==> out@ == text->0@,
        text is None ==> out@ == payload@,
{
    match text {
        Some(bytes) => bytes,
        None => slice_to_vec(payload),
    }
}

/// The body for what was read from `payload`: the converted document as
/// text where a document was read and can be written, else a copy of
/// `payload`.
pub fn rewrite_parsed(
    payload: &[u8],
    parsed: Option<serde_json::Value>,
    direction: ConversionDirection,
) -> (out: Vec<u8>)
    ensures
        parsed is Some ==> out@ == rewritten_document(
            payload@,
            json_model(parsed->0),
            direction,
        ),
        parsed is None ==> out@ == payload@,
{
    match parsed {
        Some(value) => {
            let converted = transform_keys(&value, direction);
            text_or_payload(payload, serialize_json(&converted))
        },
        None => slice_to_vec(payload),
    }
}

/// Rewrites a body: an empty body stays empty, a body that is not a JSON
/// document comes back unchanged, and a JSON document comes back as text with
/// every property name converted.
pub fn convert_json_bytes(bytes: &[u8], direction: ConversionDirection) -> (out: Vec<u8>)
    ensures
        out@ == rewritten(bytes@, direction),
        bytes@.len() == 0 ==> out@.len() == 0,
        parsed_json(bytes@) is None ==> out@ == bytes@,
{
    if bytes.len() == 0 {
        return slice_to_vec(bytes);
    }
    rewrite_parsed(bytes, parse_json(bytes), direction)
}

/// The body that goes out for a body that was collected from a stream:
/// the rewritten body, or an empty one where collecting failed.
pub fn map_json_body(collected: Option<&[u8]>, direction: ConversionDirection) -> (out: Vec<u8>)
    ensures
        collected is Some ==> out@ == rewritten(collected->0@, direction),
        collected is None ==> out@.len() == 0,
{
    match collected {
        Some(bytes) => convert_json_bytes(bytes, direction),
        None => Vec::new(),
    }
}

} // verus!
