//! Selective decoders: each takes the one value it is asked for out of a
//! document and passes over everything else in it.

pub mod files;
pub mod files_len;
pub mod id;

use vstd::prelude::*;

verus! {

/// Why a document does not have the shape that a decoder asks for.
#[derive(Clone, Copy, Debug, PartialEq, Eq, Structural)]
pub enum Mismatch {
    /// Something else stands where a map was expected.
    NotAMap,
    /// Something else stands where an array was expected.
    NotAnArray,
    /// Something else stands where a string was expected.
    NotAString,
    /// The document has no `files` entry.
    NoFiles,
    /// A segment has no `content` entry.
    NoContent,
    /// The document has no `id` entry.
    NoId,
    /// The array holds more elements than the batch has room for.
    ArrayTooLong,
}

/// Why a body could not be read, or a document not be written.
#[derive(Debug)]
pub enum CodecError {
    /// The bytes are no JSON document, or the document cannot be written as
    /// JSON: what `serde_json` reported.
    Json(serde_json::Error),
    /// The document is JSON of another shape.
    Shape(Mismatch),
}

impl CodecError {
    /// The mismatch that the error reports, if it reports one.
    pub open spec fn mismatch(self) -> Option<Mismatch> {
        match self {
            CodecError::Json(_) => None,
            CodecError::Shape(mismatch) => Some(mismatch),
        }
    }
}

} // verus!
