//! The request that the stages and the handler work on.

use crate::extensions::{ExtensionStore, ExtensionValue};
use crate::request::uri::{decoded_segments_of, path_of, texts, UriPathSegments};
use hyper::header::Headers;
use hyper::{HttpVersion, Method, Uri};
use vstd::prelude::*;

pub mod uri;

verus! {

/// hyper's request method, carried as it is.
#[verifier::external_type_specification]
#[verifier::external_body]
pub struct ExMethod(hyper::Method);

/// hyper's protocol version, carried as it is.
#[verifier::external_type_specification]
#[verifier::external_body]
pub struct ExHttpVersion(hyper::HttpVersion);

/// A request as the stages see it: what the client sent, and side storage for
/// what the stages tell each other.
#[derive(Debug)]
pub struct Request {
    /// The requested URI.
    pub uri: Uri,
    /// The segments of the URI's path, decoded when the request was made.
    pub uri_path_segments: Vec<String>,
    /// The request method.
    pub method: Method,
    /// The version of the protocol.
    pub version: HttpVersion,
    /// The address of the peer as text, where the transport has one.
    pub remote_addr: Option<String>,
    /// The header fields.
    pub headers: Headers,
    /// The body, until it is taken.
    pub body: Option<Vec<u8>>,
    /// Side storage for values that stages hand on.
    pub extensions: ExtensionStore,
}

impl Request {
    /// The bytes that reading the body yields: the body while it is there,
    /// nothing once it was taken.
    pub open spec fn readable_body(self) -> Seq<u8> {
        match self.body {
            Some(bytes) => bytes@,
            None => Seq::empty(),
        }
    }

    /// A request made of what came off the wire. The path segments are decoded
    /// here, once; the body is there to be taken; nothing is stored yet.
    pub fn new(
        method: Method,
        uri: Uri,
        version: HttpVersion,
        headers: Headers,
        body: Vec<u8>,
        remote_addr: Option<String>,
    ) -> (request: Request)
        ensures
            request.method == method,
            request.uri == uri,
            request.version == version,
            request.headers == headers,
            request.remote_addr == remote_addr,
            request.body == Some(body),
            texts(request.uri_path_segments@) == decoded_segments_of(path_of(uri)),
            request.extensions@ == Map::<u64, ExtensionValue>::empty(),
    {
        let uri_path_segments = uri.decoded_path_segments();
        Request {
            uri,
            uri_path_segments,
            method,
            version,
            remote_addr,
            headers,
            body: Some(body),
            extensions: ExtensionStore::new(),
        }
    }

    /// The side storage of the request.
    pub fn extensions(&self) -> (store: &ExtensionStore)
        ensures
            *store == self.extensions,
    {
        &self.extensions
    }

    /// The side storage of the request, to be changed in place.
    pub fn extensions_mut(&mut self) -> (store: &mut ExtensionStore)
        ensures
            *store == old(self).extensions,
            *final(self) == (Request { extensions: *final(store), ..*old(self) }),
    {
        &mut self.extensions
    }

    /// The request once its body was taken: the same, without a body.
    pub open spec fn body_taken(self) -> Request {
        Request { body: None, ..self }
    }

    /// Takes the body out of the request. The first call yields the whole body,
    /// every later one an empty one.
    pub fn take_body(&mut self) -> (body: Vec<u8>)
        ensures
            body@ == old(self).readable_body(),
            old(self).body is Some ==> body == old(self).body->0,
            *final(self) == old(self).body_taken(),
    {
        match self.body.take() {
            Some(bytes) => bytes,
            None => Vec::new(),
        }
    }
}

/// Reading the body twice yields the whole body the first time and nothing the
/// second: `first` and `second` are what two calls of `take_body` in a row on
/// `request` hand back.
pub proof fn law_body_is_read_once(request: Request, first: Seq<u8>, second: Seq<u8>)
    requires
        first == request.readable_body(),
        second == request.body_taken().readable_body(),
    ensures
        request.body is Some ==> first == request.body->0@,
        second == Seq::<u8>::empty(),
        request.body_taken().body_taken() == request.body_taken(),
{
}

} // verus!
