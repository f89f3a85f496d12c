//! The response that a handler gives, before it goes on the wire.

use crate::content::Content;
use crate::extensions::{ExtensionStore, ExtensionValue};
use crate::headers::{
    ascii_lower, content_length_name, content_type_name, decimal, header_lines, location_line,
    location_name, mime_bytes, new_headers, no_fields, set_content_length, set_content_type,
    set_location, set_raw_header,
};
use crate::status::{found_status, ok_status, status_of, FOUND, OK};
use hyper::header::Headers;
use hyper::StatusCode;
use mime::Mime;
use vstd::prelude::*;

verus! {

/// What a handler answers: a status, header fields, a body or none, and side
/// storage for the stages that follow. No body is not the same as an empty one.
#[derive(Debug)]
pub struct Response {
    /// The status code.
    pub status: StatusCode,
    /// The header fields.
    pub headers: Headers,
    /// The body, if the response carries one.
    pub body: Option<Vec<u8>>,
    /// Side storage for values that stages hand on.
    pub extensions: ExtensionStore,
}

impl Response {
    /// Whether the field that announces the body's length names the length of
    /// the body that is there.
    pub open spec fn length_matches_body(self) -> bool {
        &&& self.body is Some
        &&& header_lines(self.headers).contains_key(content_length_name())
        &&& header_lines(self.headers)[content_length_name()] == seq![
            decimal(self.body->0@.len()),
        ]
    }

    /// A blank response: the status says all went well, and there are no header
    /// fields, no body and no stored values.
    pub fn new() -> (response: Response)
        ensures
            response.status == ok_status(),
            header_lines(response.headers) == no_fields(),
            response.body is None,
            response.extensions@ == Map::<u64, ExtensionValue>::empty(),
    {
        Response {
            status: status_of(OK).unwrap(),
            headers: new_headers(),
            body: None,
            extensions: ExtensionStore::new(),
        }
    }

    /// A response made of what came off the wire, with nothing stored.
    pub fn from_parts(status: StatusCode, headers: Headers, body: Option<Vec<u8>>) -> (response:
        Response)
        ensures
            response.status == status,
            response.headers == headers,
            response.body == body,
            response.extensions@ == Map::<u64, ExtensionValue>::empty(),
    {
        Response { status, headers, body, extensions: ExtensionStore::new() }
    }

    /// The bytes that go on the wire as the body: the body, or nothing where
    /// the response has none.
    pub open spec fn wire_body(self) -> Seq<u8> {
        match self.body {
            Some(bytes) => bytes@,
            None => Seq::empty(),
        }
    }

    /// What goes on the wire: the status, the header fields and the body, which
    /// is empty where the response has none.
    pub fn into_parts(self) -> (parts: (StatusCode, Headers, Vec<u8>))
        ensures
            parts.0 == self.status,
            parts.1 == self.headers,
            parts.2@ == self.wire_body(),
    {
        let body = match self.body {
            Some(bytes) => bytes,
            None => Vec::new(),
        };
        (self.status, self.headers, body)
    }

    /// A response that sends the client to `location`, which is not empty.
    pub fn new_redirect(location: &str) -> (response: Response)
        requires
            location@.len() > 0,
        ensures
            response.status == found_status(),
            header_lines(response.headers) == no_fields().insert(
                location_name(),
                seq![location_line(location@)],
            ),
            response.body is None,
            response.extensions@ == Map::<u64, ExtensionValue>::empty(),
    {
        let mut headers = new_headers();
        set_location(&mut headers, location);
        Response {
            status: status_of(FOUND).unwrap(),
            headers,
            body: None,
            extensions: ExtensionStore::new(),
        }
    }

    /// The response with its status replaced.
    pub fn with_status(self, status: StatusCode) -> (response: Response)
        ensures
            response.status == status,
            response.headers == self.headers,
            response.body == self.body,
            response.extensions == self.extensions,
    {
        let mut response = self;
        response.status = status;
        response
    }

    /// The response with one header field set: the field of that name, whatever
    /// the case of its letters, holds the one line `value`.
    pub fn with_header(self, name: String, value: Vec<u8>) -> (response: Response)
        ensures
            header_lines(response.headers) == header_lines(self.headers).insert(
                ascii_lower(name@),
                seq![value@],
            ),
            response.status == self.status,
            response.body == self.body,
            response.extensions == self.extensions,
    {
        let mut response = self;
        set_raw_header(&mut response.headers, name, value);
        response
    }

    /// The response with its header fields replaced.
    pub fn with_headers(self, headers: Headers) -> (response: Response)
        ensures
            response.headers == headers,
            response.status == self.status,
            response.body == self.body,
            response.extensions == self.extensions,
    {
        let mut response = self;
        response.headers = headers;
        response
    }

    /// The response with its body replaced.
    pub fn with_body(self, body: Vec<u8>) -> (response: Response)
        ensures
            response.body == Some(body),
            response.status == self.status,
            response.headers == self.headers,
            response.extensions == self.extensions,
    {
        let mut response = self;
        response.body = Some(body);
        response
    }

    /// The response with `content` as its body: see [`Response::set_content`].
    pub fn with_content(self, content: Content, mime: Mime) -> (response: Response)
        ensures
            response.body is Some,
            response.body->0@ == content@,
            response.status == ok_status(),
            header_lines(response.headers) == header_lines(self.headers).insert(
                content_type_name(),
                seq![mime_bytes(mime)],
            ).insert(content_length_name(), seq![decimal(content@.len())]),
            response.extensions == self.extensions,
            response.length_matches_body(),
    {
        let mut response = self;
        response.set_content(content, mime);
        response
    }

    /// Makes `content` the body, announces its media type and its length in the
    /// header fields, and sets the status that says all went well. The length
    /// announced is the length of the body.
    pub fn set_content(&mut self, content: Content, mime: Mime)
        ensures
            final(self).body is Some,
            final(self).body->0@ == content@,
            final(self).status == ok_status(),
            header_lines(final(self).headers) == header_lines(old(self).headers).insert(
                content_type_name(),
                seq![mime_bytes(mime)],
            ).insert(content_length_name(), seq![decimal(content@.len())]),
            final(self).extensions == old(self).extensions,
            final(self).length_matches_body(),
    {
        let length = content.0.len() as u64;
        set_content_type(&mut self.headers, mime);
        set_content_length(&mut self.headers, length);
        self.body = Some(content.0);
        self.status = status_of(OK).unwrap();
    }

    /// The response with its media type announced: see [`Response::set_mime`].
    pub fn with_mime(self, mime: Mime) -> (response: Response)
        ensures
            header_lines(response.headers) == header_lines(self.headers).insert(
                content_type_name(),
                seq![mime_bytes(mime)],
            ),
            response.status == self.status,
            response.body == self.body,
            response.extensions == self.extensions,
    {
        let mut response = self;
        response.set_mime(mime);
        response
    }

    /// The side storage of the response.
    pub fn extensions(&self) -> (store: &ExtensionStore)
        ensures
            *store == self.extensions,
    {
        &self.extensions
    }

    /// The side storage of the response, to be changed in place.
    pub fn extensions_mut(&mut self) -> (store: &mut ExtensionStore)
        ensures
            *store == old(self).extensions,
            *final(self) == (Response { extensions: *final(store), ..*old(self) }),
    {
        &mut self.extensions
    }

    /// Announces the media type of the body in the header fields.
    pub fn set_mime(&mut self, mime: Mime)
        ensures
            header_lines(final(self).headers) == header_lines(old(self).headers).insert(
                content_type_name(),
                seq![mime_bytes(mime)],
            ),
            final(self).status == old(self).status,
            final(self).body == old(self).body,
            final(self).extensions == old(self).extensions,
    {
        set_content_type(&mut self.headers, mime);
    }
}

} // verus!
