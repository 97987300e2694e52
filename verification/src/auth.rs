//! The credential that every request carries.

use hyper::header::InvalidHeaderValue;
use hyper::http::HeaderValue;
use vstd::prelude::*;
use vstd::string::{StringExecFns, StringSliceAdditionalSpecFns};

verus! {

/// `hyper::http::HeaderValue`: the value of a header.
#[verifier::external_type_specification]
#[verifier::external_body]
pub struct ExHeaderValue(hyper::http::HeaderValue);

/// `hyper::header::InvalidHeaderValue`: why a text is no header value.
#[verifier::external_type_specification]
#[verifier::external_body]
pub struct ExInvalidHeaderValue(hyper::header::InvalidHeaderValue);

/// The bytes that a header value holds.
pub uninterp spec fn header_value_bytes(value: HeaderValue) -> Seq<u8>;

/// Whether a byte may stand in a header value: a tab, or anything from the
/// space on but the delete character.
pub open spec fn is_header_byte(byte: u8) -> bool {
    byte >= 32 && byte != 127 || byte == 9
}

/// Whether the text may stand in a header value as it is.
pub open spec fn is_header_text(text: Seq<char>) -> bool {
    forall|i: int|
        0 <= i < vstd::utf8::encode_utf8(text).len() ==> is_header_byte(
            #[trigger] vstd::utf8::encode_utf8(text)[i],
        )
}

/// `HeaderValue::from_str`: accepts the text exactly when each of its bytes
/// may stand in a header value, and then holds those bytes.
#[verifier::external_body]
fn header_value_from_str(src: &str) -> (made: Result<HeaderValue, InvalidHeaderValue>)
    ensures
        made is Ok <==> is_header_text(src@),
        made matches Ok(value) ==> header_value_bytes(value) == src.spec_bytes(),
{
    HeaderValue::from_str(src)
}

/// `HeaderValue::clone`: a header value that holds the same bytes.
#[verifier::external_body]
fn header_value_clone(value: &HeaderValue) -> (copy: HeaderValue)
    ensures
        header_value_bytes(copy) == header_value_bytes(*value),
{
    value.clone()
}

/// A token that cannot be sent as a credential.
#[derive(Debug)]
pub struct AuthError(pub InvalidHeaderValue);

/// The text of the authorization header for a token.
pub open spec fn bearer(token: Seq<char>) -> Seq<char> {
    "Bearer "@ + token
}

/// A credential, ready to be sent.
#[derive(Debug)]
pub struct Auth(HeaderValue);

impl View for Auth {
    type V = Seq<u8>;

    closed spec fn view(&self) -> Seq<u8> {
        header_value_bytes(self.0)
    }
}

impl Auth {
    /// Wraps a personal access token. The token is refused exactly when the
    /// header that carries it would hold a byte that no header value may hold.
    pub fn new(personal_access_token: &str) -> (made: Result<Self, AuthError>)
        ensures
            made is Ok <==> is_header_text(bearer(personal_access_token@)),
            made matches Ok(auth) ==> auth@ == vstd::utf8::encode_utf8(
                bearer(personal_access_token@),
            ),
    {
        let text = String::from_str("Bearer ").concat(personal_access_token);
        match header_value_from_str(text.as_str()) {
            Ok(value) => Ok(Auth(value)),
            Err(error) => Err(AuthError(error)),
        }
    }

    /// The authorization header's value.
    pub fn into_header_value(self) -> (value: HeaderValue)
        ensures
            header_value_bytes(value) == self@,
    {
        self.0
    }

    /// The authorization header's value.
    pub fn header_value(&self) -> (value: &HeaderValue)
        ensures
            header_value_bytes(*value) == self@,
    {
        &self.0
    }
}

impl Clone for Auth {
    fn clone(&self) -> (copy: Self)
        ensures
            copy@ == self@,
    {
        Auth(header_value_clone(&self.0))
    }
}

} // verus!
