use std::str::FromStr;

use ferrum::request::uri::{decode_path, segment_or_decoded, split_path};
use ferrum::{Request, UriPathSegments};
use hyper::header::{ContentType, Headers};
use hyper::{HttpVersion, Method, Uri};

fn stub() -> Request {
    let uri = Uri::from_str("http://www.rust-lang.org").unwrap();
    let addr = "127.0.0.1:3000".to_string();
    let mut request =
        Request::new(Method::Get, uri, HttpVersion::Http11, Headers::new(), Vec::new(), Some(addr));
    request.body = None;
    request
}

fn strings(expected: &[&str]) -> Vec<String> {
    expected.iter().map(|s| s.to_string()).collect()
}

#[test]
fn request_test_create_request() {
    let uri = Uri::from_str("http://www.rust-lang.org").unwrap();
    let request = Request::new(
        Method::Get,
        uri.clone(),
        HttpVersion::default(),
        Headers::new(),
        Vec::new(),
        None,
    );

    assert_eq!(request.uri, uri);
    assert_eq!(request.method, Method::Get);
    assert_eq!(request.version, HttpVersion::default());
    assert_eq!(request.remote_addr, None);
    assert_eq!(request.headers, Headers::new());
}

#[test]
fn mod_test_create_request() {
    let uri = Uri::from_str("http://www.rust-lang.org/foo/bar").unwrap();
    let request = Request::new(
        Method::Get,
        uri.clone(),
        HttpVersion::default(),
        Headers::new(),
        Vec::new(),
        None,
    );

    assert_eq!(request.uri, uri);
    assert_eq!(request.uri_path_segments, vec!["foo".to_string(), "bar".to_string()]);
    assert_eq!(request.method, Method::Get);
    assert_eq!(request.version, HttpVersion::default());
    assert_eq!(request.remote_addr, None);
    assert_eq!(request.headers, Headers::new());
}

#[test]
fn request_test_create_request_stub() {
    let uri = Uri::from_str("http://www.rust-lang.org").unwrap();
    let addr = "127.0.0.1:3000".to_string();
    let request = stub();

    assert_eq!(request.uri, uri);
    assert_eq!(request.method, Method::Get);
    assert_eq!(request.version, HttpVersion::default());
    assert_eq!(request.remote_addr.unwrap(), addr);
    assert_eq!(request.headers, Headers::new());
}

#[test]
fn mod_test_create_request_stub() {
    let uri = Uri::from_str("http://www.rust-lang.org").unwrap();
    let addr = "127.0.0.1:3000".to_string();
    let request = stub();

    assert_eq!(request.uri, uri);
    assert_eq!(request.uri_path_segments, vec!["".to_string()]);
    assert_eq!(request.method, Method::Get);
    assert_eq!(request.version, HttpVersion::default());
    assert_eq!(request.remote_addr.unwrap(), addr);
    assert_eq!(request.headers, Headers::new());
}

#[test]
fn test_path_segments() {
    let uri = Uri::from_str("https://example.com/foo/bar").unwrap();
    let path_segments = uri.path_segments();
    let mut path_segments = path_segments.iter().map(|s| s.as_ref());
    assert_eq!(path_segments.next(), Some("foo"));
    assert_eq!(path_segments.next(), Some("bar"));
    assert_eq!(path_segments.next(), None);

    let uri = Uri::from_str("https://example.com").unwrap();
    let path_segments = uri.path_segments();
    let mut path_segments = path_segments.iter().map(|s| s.as_ref());
    assert_eq!(path_segments.next(), Some(""));
    assert_eq!(path_segments.next(), None);

    let uri = Uri::from_str("https://example.com/countries/vi%E1%BB%87t%20nam").unwrap();
    let path_segments = uri.path_segments();
    let mut path_segments = path_segments.iter().map(|s| s.as_ref());
    assert_eq!(path_segments.next(), Some("countries"));
    assert_eq!(path_segments.next(), Some("vi%E1%BB%87t%20nam"));
}

#[test]
fn test_decoded_path_segments() {
    let uri = Uri::from_str("https://example.com/foo/bar").unwrap();
    let path_segments = uri.decoded_path_segments();
    let mut path_segments = path_segments.iter().map(|s| s.as_ref());
    assert_eq!(path_segments.next(), Some("foo"));
    assert_eq!(path_segments.next(), Some("bar"));
    assert_eq!(path_segments.next(), None);

    let uri = Uri::from_str("https://example.com").unwrap();
    let path_segments = uri.decoded_path_segments();
    let mut path_segments = path_segments.iter().map(|s| s.as_ref());
    assert_eq!(path_segments.next(), Some(""));
    assert_eq!(path_segments.next(), None);

    let uri = Uri::from_str("https://example.com/countries/vi%E1%BB%87t%20nam").unwrap();
    let path_segments = uri.decoded_path_segments();
    let mut path_segments = path_segments.iter().map(|s| s.as_ref());
    assert_eq!(path_segments.next(), Some("countries"));
    assert_eq!(path_segments.next(), Some("vi\u{1EC7}t nam"));
}

#[test]
fn decoded_segments_are_read_as_utf8() {
    let uri = Uri::from_str("https://example.com/foo/bar").unwrap();
    assert_eq!(uri.decoded_path_segments(), strings(&["foo", "bar"]));

    let uri = Uri::from_str("https://example.com").unwrap();
    assert_eq!(uri.decoded_path_segments(), strings(&[""]));

    let uri = Uri::from_str("https://example.com/countries/vi%E1%BB%87t%20nam").unwrap();
    let segments = uri.decoded_path_segments();
    assert_eq!(segments.len(), 2);
    assert_eq!(segments[0], "countries");
    assert_eq!(
        segments[1].as_bytes(),
        &[0x76, 0x69, 0xE1, 0xBB, 0x87, 0x74, 0x20, 0x6E, 0x61, 0x6D]
    );
    assert_eq!(segments[1], "vi\u{1EC7}t nam");
}

#[test]
fn segment_that_is_not_utf8_once_decoded_stays_as_it_is() {
    assert_eq!(decode_path("/a%FFb/c%20d"), strings(&["a%FFb", "c d"]));
    assert_eq!(decode_path("/100%/%zz/%4"), strings(&["100%", "%zz", "%4"]));
}

#[test]
fn segment_or_decoded_prefers_the_decoded_text() {
    assert_eq!(segment_or_decoded("a%20b".to_string(), Some("a b".to_string())), "a b");
    assert_eq!(segment_or_decoded("a%FFb".to_string(), None), "a%FFb");
}

#[test]
fn split_path_cuts_at_every_slash() {
    assert_eq!(split_path(""), strings(&[""]));
    assert_eq!(split_path("/"), strings(&[""]));
    assert_eq!(split_path("//"), strings(&["", ""]));
    assert_eq!(split_path("/foo"), strings(&["foo"]));
    assert_eq!(split_path("foo"), strings(&["foo"]));
    assert_eq!(split_path("/foo/"), strings(&["foo", ""]));
    assert_eq!(split_path("/foo//bar"), strings(&["foo", "", "bar"]));
    assert_eq!(split_path("foo/bar/baz"), strings(&["foo", "bar", "baz"]));
    assert_eq!(split_path("/caf\u{e9}/\u{1F600}/x"), strings(&["caf\u{e9}", "\u{1F600}", "x"]));
}

#[test]
fn path_of_uri_leaves_out_query_and_fragment() {
    let uri = Uri::from_str("http://example.com/a/b?c=d/e#f/g").unwrap();
    assert_eq!(uri.path_segments(), strings(&["a", "b"]));

    let uri = Uri::from_str("/only/path?x=1").unwrap();
    assert_eq!(uri.path_segments(), strings(&["only", "path"]));
}

#[test]
fn new_request_keeps_what_it_is_given() {
    let uri = Uri::from_str("http://example.com/a%20b/c").unwrap();
    let mut headers = Headers::new();
    headers.set(ContentType(mime::TEXT_PLAIN));
    let request = Request::new(
        Method::Post,
        uri.clone(),
        HttpVersion::Http10,
        headers.clone(),
        b"body".to_vec(),
        Some("10.0.0.1:80".to_string()),
    );

    assert_eq!(request.method, Method::Post);
    assert_eq!(request.uri, uri);
    assert_eq!(request.version, HttpVersion::Http10);
    assert_eq!(request.headers, headers);
    assert_eq!(request.remote_addr, Some("10.0.0.1:80".to_string()));
    assert_eq!(request.body, Some(b"body".to_vec()));
    assert_eq!(request.uri_path_segments, strings(&["a b", "c"]));
    assert!(request.extensions.is_empty());
}

#[test]
fn body_is_read_once() {
    let uri = Uri::from_str("http://example.com/").unwrap();
    let mut request = Request::new(
        Method::Post,
        uri,
        HttpVersion::default(),
        Headers::new(),
        b"the whole body".to_vec(),
        None,
    );

    assert_eq!(request.take_body(), b"the whole body".to_vec());
    assert_eq!(request.body, None);
    assert_eq!(request.take_body(), Vec::<u8>::new());
    assert_eq!(request.take_body(), Vec::<u8>::new());
    assert_eq!(request.method, Method::Post);
}

#[test]
fn empty_body_is_taken_like_any_other() {
    let mut request = stub();
    request.body = Some(Vec::new());

    assert_eq!(request.take_body(), Vec::<u8>::new());
    assert_eq!(request.body, None);
}
