//! What can go wrong with an operation on the store.

use crate::de::CodecError;
use vstd::prelude::*;

verus! {

/// `hyper::http::Error`: why a request could not be built, carried as it is.
#[verifier::external_type_specification]
#[verifier::external_body]
pub struct ExRequestError(hyper::http::Error);

/// The kinds of failure.
#[derive(Debug)]
pub enum Internal {
    /// The request could not be put together from its parts.
    Http(hyper::http::Error),
    /// The round trip failed.
    Hyper(hyper::Error),
    /// The body of the response is not what was expected.
    Json(CodecError),
    /// The response carries another status than the one that means success.
    Status(u16),
}

/// A failed operation.
#[derive(Debug)]
pub struct StashError(Internal);

impl View for StashError {
    type V = Internal;

    closed spec fn view(&self) -> Internal {
        self.0
    }
}

impl StashError {
    pub fn from_http(err: hyper::http::Error) -> (error: Self)
        ensures
            error@ == Internal::Http(err),
    {
        StashError(Internal::Http(err))
    }

    pub fn from_hyper(err: hyper::Error) -> (error: Self)
        ensures
            error@ == Internal::Hyper(err),
    {
        StashError(Internal::Hyper(err))
    }

    pub fn from_json(err: CodecError) -> (error: Self)
        ensures
            error@ == Internal::Json(err),
    {
        StashError(Internal::Json(err))
    }

    pub fn from_status(err: u16) -> (error: Self)
        ensures
            error@ == Internal::Status(err),
    {
        StashError(Internal::Status(err))
    }

    /// The status that the store answered with, where that is what failed.
    pub fn status(&self) -> (status: Option<u16>)
        ensures
            status == match self@ {
                Internal::Status(code) => Some(code),
                _ => None,
            },
    {
        if let Internal::Status(code) = self.0 {
            Some(code)
        } else {
            None
        }
    }

    /// The kind of failure.
    pub fn internal(&self) -> (internal: &Internal)
        ensures
            *internal == self@,
    {
        &self.0
    }
}

} // verus!
