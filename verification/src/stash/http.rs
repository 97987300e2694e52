//! Requests, as the plain values that an executor turns into round trips.

use crate::auth::{header_value_bytes, Auth};
use crate::ser::files::{decimal, format_decimal};
use hyper::http::HeaderValue;
use vstd::prelude::*;
use vstd::string::StringExecFns;

verus! {

/// The scheme of every request's address.
pub const SCHEME: &'static str = "https";

/// The authority of every request's address.
pub const AUTHORITY: &'static str = "api.github.com";

/// What a request asks the store to do with what its path names.
#[derive(Clone, Copy, Debug, PartialEq, Eq, Structural)]
pub enum Method {
    Get,
    Post,
    Patch,
    Delete,
}

/// What a header says: a fixed text, or the caller's credential.
pub enum HeaderContent {
    Text(&'static str),
    Credential(HeaderValue),
}

/// One header of a request.
pub struct Header {
    pub name: &'static str,
    pub value: HeaderContent,
}

/// A request to the store. The path holds the query too; the address begins
/// with [`SCHEME`] and [`AUTHORITY`] for every request.
pub struct Request {
    pub method: Method,
    pub path: String,
    pub headers: Vec<Header>,
    pub body: Vec<u8>,
}

/// Whether a header has the given name and the given fixed text.
pub open spec fn is_text_header(header: Header, name: Seq<char>, text: Seq<char>) -> bool {
    &&& header.name@ == name
    &&& header.value matches HeaderContent::Text(value)
    &&& value@ == text
}

/// Whether the headers are those that every request carries, for a
/// credential with the given bytes: the client's name, the credential, the
/// media type asked for, and the version of the interface.
pub open spec fn are_standard_headers(headers: Seq<Header>, credential: Seq<u8>) -> bool {
    &&& headers.len() == 4
    &&& is_text_header(headers[0], "user-agent"@, "octostash"@)
    &&& headers[1].name@ == "authorization"@
    &&& headers[1].value matches HeaderContent::Credential(value)
    &&& header_value_bytes(value) == credential
    &&& is_text_header(headers[2], "accept"@, "application/vnd.github+json"@)
    &&& is_text_header(headers[3], "x-github-api-version"@, "2022-11-28"@)
}

/// The headers that every request carries.
pub fn append_headers(auth: HeaderValue) -> (headers: Vec<Header>)
    ensures
        are_standard_headers(headers@, header_value_bytes(auth)),
{
    let mut headers: Vec<Header> = Vec::new();
    headers.push(Header { name: "user-agent", value: HeaderContent::Text("octostash") });
    headers.push(Header { name: "authorization", value: HeaderContent::Credential(auth) });
    headers.push(
        Header { name: "accept", value: HeaderContent::Text("application/vnd.github+json") },
    );
    headers.push(
        Header { name: "x-github-api-version", value: HeaderContent::Text("2022-11-28") },
    );
    headers
}

/// The path of the collection.
pub open spec fn gists_path() -> Seq<char> {
    "/gists"@
}

/// The path of one page of the collection's listing.
pub open spec fn gists_page_path(per_page: nat, page: nat) -> Seq<char> {
    "/gists?per_page="@ + decimal(per_page) + "&page="@ + decimal(page)
}

/// The path of one item of the collection.
pub open spec fn gist_path(id: Seq<char>) -> Seq<char> {
    "/gists/"@ + id
}

/// What requests are made from: here, the credential.
#[derive(Debug)]
pub struct Client {
    auth: Auth,
}

/// A client, and the path that its next request goes to.
pub struct ClientForUri<'a> {
    client: &'a Client,
    uri: String,
}

impl Client {
    /// The bytes of the credential.
    pub closed spec fn credential(&self) -> Seq<u8> {
        self.auth@
    }

    pub fn new(auth: Auth) -> (client: Self)
        ensures
            client.credential() == auth@,
    {
        Client { auth }
    }

    pub fn auth(&self) -> (auth: &Auth)
        ensures
            auth@ == self.credential(),
    {
        &self.auth
    }

    /// For requests to the collection.
    pub fn gists(&self) -> (target: ClientForUri<'_>)
        ensures
            target.credential() == self.credential(),
            target.path() == gists_path(),
    {
        ClientForUri { client: self, uri: String::from_str("/gists") }
    }

    /// For requests to one page of the collection's listing.
    pub fn gists_page(&self, per_page: usize, page: usize) -> (target: ClientForUri<'_>)
        ensures
            target.credential() == self.credential(),
            target.path() == gists_page_path(per_page as nat, page as nat),
    {
        let uri = String::from_str("/gists?per_page=").concat(
            format_decimal(per_page).as_str(),
        ).concat("&page=").concat(format_decimal(page).as_str());
        ClientForUri { client: self, uri }
    }

    /// For requests to one item of the collection.
    pub fn gist(&self, id: &str) -> (target: ClientForUri<'_>)
        ensures
            target.credential() == self.credential(),
            target.path() == gist_path(id@),
    {
        ClientForUri { client: self, uri: String::from_str("/gists/").concat(id) }
    }
}

impl Clone for Client {
    fn clone(&self) -> (copy: Self)
        ensures
            copy.credential() == self.credential(),
    {
        Client { auth: self.auth.clone() }
    }
}

/// Whether the request asks for `method` on `path`, with the standard
/// headers for `credential` and with `body`.
pub open spec fn is_request(
    request: Request,
    credential: Seq<u8>,
    method: Method,
    path: Seq<char>,
    body: Seq<u8>,
) -> bool {
    &&& request.method == method
    &&& request.path@ == path
    &&& are_standard_headers(request.headers@, credential)
    &&& request.body@ == body
}

impl<'a> ClientForUri<'a> {
    /// The bytes of the credential.
    pub closed spec fn credential(&self) -> Seq<u8> {
        self.client.credential()
    }

    /// The path that requests go to.
    pub closed spec fn path(&self) -> Seq<char> {
        self.uri@
    }

    /// A request to the path, leaving the target for more.
    pub fn request(&self, method: Method, body: Vec<u8>) -> (request: Request)
        ensures
            is_request(request, self.credential(), method, self.path(), body@),
    {
        Request {
            method,
            path: self.uri.clone(),
            headers: append_headers(self.client.auth.clone().into_header_value()),
            body,
        }
    }

    /// A request to the path.
    pub fn into_request(self, method: Method, body: Vec<u8>) -> (request: Request)
        ensures
            is_request(request, self.credential(), method, self.path(), body@),
    {
        Request {
            method,
            path: self.uri,
            headers: append_headers(self.client.auth.clone().into_header_value()),
            body,
        }
    }
}

} // verus!
