//! JSON, parsed by `serde_json`.

use crate::adaptor::parser::Parser;
use crate::errors::Error;
use crate::text::{trim, trimmed};
use vstd::prelude::*;

verus! {

/// A JSON document as `serde_json` holds it. Nothing in this crate looks
/// inside.
#[verifier::external_body]
#[derive(Debug)]
pub struct JsonDocument {
    pub document: serde_json::Value,
}

/// Why `serde_json` rejected a text.
#[verifier::external_body]
#[derive(Debug)]
pub struct JsonFault {
    pub error: serde_json::Error,
}

/// Whether `serde_json::from_str` accepts `text` as one JSON document.
pub uninterp spec fn json_accepts(text: Seq<char>) -> bool;

/// `serde_json::from_str`, for a document of any shape. Whether a text is
/// accepted depends on the text alone.
#[verifier::external_body]
fn json_from_str(text: &str) -> (r: Result<JsonDocument, JsonFault>)
    ensures
        r.is_ok() == json_accepts(text@),
{
    match serde_json::from_str::<serde_json::Value>(text) {
        Ok(document) => Ok(JsonDocument { document }),
        Err(error) => Err(JsonFault { error }),
    }
}

/// The text of a `serde_json::Error`, as its `Display` writes it.
#[verifier::external_body]
fn json_fault_text(fault: &JsonFault) -> (message: String) {
    fault.error.to_string()
}

/// A parser for JSON documents.
#[derive(Debug)]
pub struct JsonParser;

impl JsonParser {
    /// Turns what `serde_json` made of `text` into the outcome of the parser:
    /// a document is handed on, a rejection becomes a parse error that
    /// carries `text` and the words of the rejection.
    pub fn conclude(text: String, outcome: Result<JsonDocument, JsonFault>) -> (r: Result<
        JsonDocument,
        Error,
    >)
        ensures
            match outcome {
                Ok(document) => r == Ok::<JsonDocument, Error>(document),
                Err(_) => r matches Err(e) && e@ is Parse && e@->input == text@,
            },
    {
        match outcome {
            Ok(document) => Ok(document),
            Err(error) => {
                let message = json_fault_text(&error);
                Err(Error::new_parse_error(text, message))
            },
        }
    }
}

impl Parser for JsonParser {
    type Item = JsonDocument;

    /// Parses a JSON document, ignoring whitespace around it. The text is
    /// accepted where `serde_json` accepts it; a rejected text gives a parse
    /// error that carries the text and `serde_json`'s words.
    fn parse(args: &str) -> (r: Result<JsonDocument, Error>)
        ensures
            r.is_ok() == json_accepts(trimmed(args@)),
    {
        let text = trim(args);
        let outcome = json_from_str(text.as_str());
        Self::conclude(text, outcome)
    }
}

} // verus!
