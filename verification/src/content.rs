//! The bytes of a body that is ready to be sent.

use std::borrow::Cow;
use std::ops::Deref;
use vstd::prelude::*;
use vstd::slice::slice_to_vec;
use vstd::std_specs::convert::FromSpecImpl;
use vstd::utf8::encode_utf8;

verus! {

/// Body bytes, made from whatever a handler has at hand: bytes or text, owned
/// or borrowed.
#[derive(Debug)]
pub struct Content(pub Vec<u8>);

impl View for Content {
    type V = Seq<u8>;

    open spec fn view(&self) -> Seq<u8> {
        self.0@
    }
}

impl Deref for Content {
    type Target = Vec<u8>;

    fn deref(&self) -> (bytes: &Vec<u8>)
        ensures
            bytes@ == self@,
    {
        &self.0
    }
}

impl From<Vec<u8>> for Content {
    fn from(vec: Vec<u8>) -> (content: Content)
        ensures
            content@ == vec@,
    {
        Content(vec)
    }
}

impl FromSpecImpl<Vec<u8>> for Content {
    open spec fn obeys_from_spec() -> bool {
        true
    }

    open spec fn from_spec(vec: Vec<u8>) -> Content {
        Content(vec)
    }
}

impl<'a> From<&'a [u8]> for Content {
    fn from(slice: &'a [u8]) -> (content: Content)
        ensures
            content@ == slice@,
    {
        Content(slice_to_vec(slice))
    }
}

impl<'a> FromSpecImpl<&'a [u8]> for Content {
    open spec fn obeys_from_spec() -> bool {
        false
    }

    open spec fn from_spec(source: &'a [u8]) -> Content {
        Content(choose|bytes: Vec<u8>| bytes@ == source@)
    }
}

impl<'a> From<Cow<'a, [u8]>> for Content {
    fn from(cow: Cow<'a, [u8]>) -> (content: Content)
        ensures
            content@ == cow@,
    {
        match cow {
            Cow::Borrowed(slice) => Content::from(slice),
            Cow::Owned(vec) => Content::from(vec),
        }
    }
}

impl<'a> FromSpecImpl<Cow<'a, [u8]>> for Content {
    open spec fn obeys_from_spec() -> bool {
        false
    }

    open spec fn from_spec(source: Cow<'a, [u8]>) -> Content {
        Content(choose|bytes: Vec<u8>| bytes@ == source@)
    }
}

impl From<String> for Content {
    fn from(string: String) -> (content: Content)
        ensures
            content@ == encode_utf8(string@),
    {
        Content(string.as_str().as_bytes_vec())
    }
}

impl FromSpecImpl<String> for Content {
    open spec fn obeys_from_spec() -> bool {
        false
    }

    open spec fn from_spec(source: String) -> Content {
        Content(choose|bytes: Vec<u8>| bytes@ == encode_utf8(source@))
    }
}

impl<'a> From<&'a str> for Content {
    fn from(text: &'a str) -> (content: Content)
        ensures
            content@ == encode_utf8(text@),
    {
        Content(text.as_bytes_vec())
    }
}

impl<'a> FromSpecImpl<&'a str> for Content {
    open spec fn obeys_from_spec() -> bool {
        false
    }

    open spec fn from_spec(source: &'a str) -> Content {
        Content(choose|bytes: Vec<u8>| bytes@ == encode_utf8(source@))
    }
}

impl<'a> From<Cow<'a, str>> for Content {
    fn from(cow: Cow<'a, str>) -> (content: Content)
        ensures
            content@ == encode_utf8(cow@),
    {
        match cow {
            Cow::Borrowed(text) => Content::from(text),
            Cow::Owned(string) => Content::from(string),
        }
    }
}

impl<'a> FromSpecImpl<Cow<'a, str>> for Content {
    open spec fn obeys_from_spec() -> bool {
        false
    }

    open spec fn from_spec(source: Cow<'a, str>) -> Content {
        Content(choose|bytes: Vec<u8>| bytes@ == encode_utf8(source@))
    }
}

impl From<Content> for Vec<u8> {
    fn from(content: Content) -> (bytes: Vec<u8>)
        ensures
            bytes@ == content@,
    {
        content.0
    }
}

impl FromSpecImpl<Content> for Vec<u8> {
    open spec fn obeys_from_spec() -> bool {
        true
    }

    open spec fn from_spec(content: Content) -> Vec<u8> {
        content.0
    }
}

} // verus!
