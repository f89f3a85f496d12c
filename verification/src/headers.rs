//! Header fields: hyper's collection, and what this library writes into it.

use hyper::header::{ContentLength, ContentType, Header, Headers, Location, Raw};
use mime::Mime;
use vstd::prelude::*;

verus! {

/// hyper's collection of header fields. What it holds is known by
/// [`header_lines`] alone.
#[verifier::external_type_specification]
#[verifier::external_body]
pub struct ExHeaders(hyper::header::Headers);

/// A media type of the `mime` crate, carried as it is.
#[verifier::external_type_specification]
#[verifier::external_body]
pub struct ExMime(mime::Mime);

/// The fields that a collection holds, as `Headers::get_raw` finds them: under
/// each field's name, in lower case, the lines of its value. Names that differ
/// only by the case of their letters name the same field.
pub uninterp spec fn header_lines(headers: Headers) -> Map<Seq<char>, Seq<Seq<u8>>>;

/// The bytes of the text that a media type is written as, which is what a
/// `ContentType` field holds for it.
pub uninterp spec fn mime_bytes(mime: Mime) -> Seq<u8>;

/// The line that a `Location` field holds once `Location::parse_header` has
/// read it from `text`.
pub uninterp spec fn location_line(text: Seq<char>) -> Seq<u8>;

/// The fields of a collection that holds none.
pub open spec fn no_fields() -> Map<Seq<char>, Seq<Seq<u8>>> {
    Map::empty()
}

/// The name under which the length of the body is kept.
pub open spec fn content_length_name() -> Seq<char> {
    "content-length"@
}

/// The name under which the media type of the body is kept.
pub open spec fn content_type_name() -> Seq<char> {
    "content-type"@
}

/// The name under which the target of a redirect is kept.
pub open spec fn location_name() -> Seq<char> {
    "location"@
}

/// A letter of `A` to `Z` as its small letter, any other character as it is.
pub open spec fn ascii_lower_char(c: char) -> char {
    if 'A' <= c && c <= 'Z' {
        ((c as u8) + 32u8) as char
    } else {
        c
    }
}

/// A field name as the collection files it: every letter of `A` to `Z` small.
pub open spec fn ascii_lower(name: Seq<char>) -> Seq<char> {
    name.map_values(|c: char| ascii_lower_char(c))
}

/// The digits of `n` in base ten, as ASCII, most significant first.
pub open spec fn decimal(n: nat) -> Seq<u8>
    decreases n,
{
    if n < 10 {
        seq![(48 + n) as u8]
    } else {
        decimal(n / 10).push((48 + n % 10) as u8)
    }
}

/// The number that decimal digits in ASCII stand for.
pub open spec fn decimal_value(digits: Seq<u8>) -> nat
    decreases digits.len(),
{
    if digits.len() == 0 {
        0
    } else {
        decimal_value(digits.drop_last()) * 10 + (digits.last() - 48) as nat
    }
}

/// The digits of a number are digits, stand for the number, and start with a
/// zero for zero only.
pub proof fn law_decimal_reads_back(n: nat)
    ensures
        decimal(n).len() >= 1,
        forall|i: int| 0 <= i < decimal(n).len() ==> 48 <= #[trigger] decimal(n)[i] <= 57,
        decimal_value(decimal(n)) == n,
        decimal(n)[0] == 48 <==> n == 0,
    decreases n,
{
    if n < 10 {
        assert(decimal(n).drop_last() =~= Seq::<u8>::empty());
        assert(decimal_value(decimal(n).drop_last()) == 0);
    } else {
        law_decimal_reads_back(n / 10);
        assert(decimal(n).drop_last() =~= decimal(n / 10));
        assert(decimal(n)[0] == decimal(n / 10)[0]);
    }
}

/// `Headers::new`: a collection without fields.
#[verifier::external_body]
pub(crate) fn new_headers() -> (headers: Headers)
    ensures
        header_lines(headers) == no_fields(),
{
    Headers::new()
}

/// `Headers::set` with a `ContentLength`: the field `content-length` then holds
/// one line, the number in decimal digits, in place of what it held; the other
/// fields stay.
#[verifier::external_body]
pub(crate) fn set_content_length(headers: &mut Headers, length: u64)
    ensures
        header_lines(*final(headers)) == header_lines(*old(headers)).insert(
            content_length_name(),
            seq![decimal(length as nat)],
        ),
{
    headers.set(ContentLength(length));
}

/// `Headers::set` with a `ContentType`: the field `content-type` then holds one
/// line, the media type as it is written, in place of what it held; the other
/// fields stay.
#[verifier::external_body]
pub(crate) fn set_content_type(headers: &mut Headers, mime: Mime)
    ensures
        header_lines(*final(headers)) == header_lines(*old(headers)).insert(
            content_type_name(),
            seq![mime_bytes(mime)],
        ),
{
    headers.set(ContentType(mime));
}

/// `Location::parse_header` on the text, then `Headers::set` with what it gave:
/// the field `location` then holds one line, which depends on the text alone,
/// in place of what it held; the other fields stay. Of a text only the empty
/// one is not read as a `Location`, so it is left out.
#[verifier::external_body]
pub(crate) fn set_location(headers: &mut Headers, location: &str)
    requires
        location@.len() > 0,
    ensures
        header_lines(*final(headers)) == header_lines(*old(headers)).insert(
            location_name(),
            seq![location_line(location@)],
        ),
{
    match Location::parse_header(&Raw::from(location)) {
        Ok(field) => headers.set(field),
        Err(_) => {},
    }
}

/// `Headers::set_raw`: the field of that name, whatever the case of its letters,
/// then holds the one line given, in place of what it held; the other fields
/// stay.
#[verifier::external_body]
pub(crate) fn set_raw_header(headers: &mut Headers, name: String, value: Vec<u8>)
    ensures
        header_lines(*final(headers)) == header_lines(*old(headers)).insert(
            ascii_lower(name@),
            seq![value@],
        ),
{
    headers.set_raw(name, value);
}

} // verus!
