use std::mem::replace;
use std::str::from_utf8;

use ferrum::{Content, ExtensionStore, Response};
use futures::stream::Stream;
use futures::{future, Future};
use hyper::header::{ContentLength, ContentType, Headers, Location};
use hyper::Response as HyperResponse;
use hyper::StatusCode;

fn raw(headers: &Headers, name: &str) -> Option<Vec<Vec<u8>>> {
    headers.get_raw(name).map(|raw| raw.iter().map(|line| line.to_vec()).collect())
}

#[test]
fn test_create_response() {
    let response = Response::new();

    assert_eq!(response.status, StatusCode::Ok);
    assert_eq!(response.headers, Headers::new());
    assert!(response.body.is_none());
}

#[test]
fn new_response_stores_nothing() {
    let response = Response::new();

    assert!(response.extensions.is_empty());
    assert_eq!(response.headers.len(), 0);
}

#[test]
fn redirect_names_its_target() {
    let response = Response::new_redirect("http://rust-lang.org");

    assert_eq!(response.status, StatusCode::Found);
    assert_eq!(response.headers.len(), 1);
    assert_eq!(response.headers.get::<Location>(), Some(&Location::new("http://rust-lang.org")));
    assert_eq!(raw(&response.headers, "location"), Some(vec![b"http://rust-lang.org".to_vec()]));
    assert!(response.body.is_none());
}

#[test]
fn with_status_changes_the_status_only() {
    let response = Response::new().with_body(b"x".to_vec()).with_status(StatusCode::NotFound);

    assert_eq!(response.status, StatusCode::NotFound);
    assert_eq!(response.headers, Headers::new());
    assert_eq!(response.body, Some(b"x".to_vec()));
}

#[test]
fn with_header_sets_one_field_whatever_the_case_of_its_name() {
    let response = Response::new()
        .with_header("X-Trace".to_string(), b"one".to_vec())
        .with_header("x-trace".to_string(), b"two".to_vec())
        .with_header("X-Other".to_string(), b"three".to_vec());

    assert_eq!(response.headers.len(), 2);
    assert_eq!(raw(&response.headers, "X-TRACE"), Some(vec![b"two".to_vec()]));
    assert_eq!(raw(&response.headers, "x-other"), Some(vec![b"three".to_vec()]));
    assert_eq!(raw(&response.headers, "x-none"), None);
}

#[test]
fn with_headers_replaces_all_fields() {
    let mut headers = Headers::new();
    headers.set(ContentType(mime::TEXT_HTML));
    let response = Response::new()
        .with_header("X-Trace".to_string(), b"one".to_vec())
        .with_headers(headers.clone());

    assert_eq!(response.headers, headers);
    assert_eq!(raw(&response.headers, "x-trace"), None);
}

#[test]
fn with_body_sets_the_body_and_no_field() {
    let response = Response::new().with_body(b"Hello".to_vec());

    assert_eq!(response.body, Some(b"Hello".to_vec()));
    assert_eq!(response.headers, Headers::new());
    assert_eq!(response.status, StatusCode::Ok);
}

#[test]
fn empty_body_is_not_the_same_as_none() {
    let response = Response::new().with_body(Vec::new());

    assert_eq!(response.body, Some(Vec::new()));
    assert!(response.body.is_some());
}

#[test]
fn set_content_announces_type_and_length() {
    let mut response = Response::new().with_status(StatusCode::NotFound);
    response.set_content(Content::from("Hello World!"), mime::TEXT_PLAIN);

    assert_eq!(response.status, StatusCode::Ok);
    assert_eq!(response.body, Some(b"Hello World!".to_vec()));
    assert_eq!(response.headers.len(), 2);
    assert_eq!(response.headers.get::<ContentLength>(), Some(&ContentLength(12)));
    assert_eq!(response.headers.get::<ContentType>(), Some(&ContentType(mime::TEXT_PLAIN)));
    assert_eq!(raw(&response.headers, "content-length"), Some(vec![b"12".to_vec()]));
    assert_eq!(raw(&response.headers, "content-type"), Some(vec![b"text/plain".to_vec()]));
}

#[test]
fn set_content_twice_keeps_the_length_in_step_with_the_body() {
    let mut response = Response::new();
    response.set_content(Content::from(vec![7u8; 1234]), mime::APPLICATION_OCTET_STREAM);
    response.set_content(Content::from(Vec::new()), mime::APPLICATION_JSON);

    assert_eq!(response.body, Some(Vec::new()));
    assert_eq!(response.headers.len(), 2);
    assert_eq!(raw(&response.headers, "content-length"), Some(vec![b"0".to_vec()]));
    assert_eq!(raw(&response.headers, "content-type"), Some(vec![b"application/json".to_vec()]));
}

#[test]
fn with_content_is_set_content_on_the_way() {
    let response = Response::new()
        .with_header("X-Trace".to_string(), b"one".to_vec())
        .with_content(Content::from("{}".to_string()), mime::APPLICATION_JSON);

    assert_eq!(response.status, StatusCode::Ok);
    assert_eq!(response.body, Some(b"{}".to_vec()));
    assert_eq!(raw(&response.headers, "content-length"), Some(vec![b"2".to_vec()]));
    assert_eq!(raw(&response.headers, "x-trace"), Some(vec![b"one".to_vec()]));
    assert_eq!(response.headers.len(), 3);
}

#[test]
fn set_mime_announces_the_type_only() {
    let mut response = Response::new().with_body(b"<p>".to_vec());
    response.set_mime(mime::TEXT_HTML);

    assert_eq!(response.headers.get::<ContentType>(), Some(&ContentType(mime::TEXT_HTML)));
    assert_eq!(response.headers.len(), 1);
    assert_eq!(response.body, Some(b"<p>".to_vec()));

    let response = response.with_mime(mime::TEXT_PLAIN_UTF_8);
    assert_eq!(
        raw(&response.headers, "Content-Type"),
        Some(vec![b"text/plain; charset=utf-8".to_vec()])
    );
    assert_eq!(response.headers.len(), 1);
}

#[test]
fn response_without_body_goes_out_with_an_empty_one() {
    let (status, headers, body) = Response::new().with_status(StatusCode::NoContent).into_parts();

    assert_eq!(status, StatusCode::NoContent);
    assert_eq!(headers, Headers::new());
    assert_eq!(body, Vec::<u8>::new());
}

#[test]
fn response_goes_out_with_its_status_fields_and_body() {
    let mut headers = Headers::new();
    headers.set(ContentType(mime::TEXT_HTML));
    let response =
        Response::from_parts(StatusCode::NotFound, headers.clone(), Some(b"Error".to_vec()));

    assert_eq!(response.status, StatusCode::NotFound);
    assert_eq!(response.headers, headers);
    assert!(response.body.is_some());
    assert!(response.extensions.is_empty());

    let (status, fields, body) = response.into_parts();
    assert_eq!(status, StatusCode::NotFound);
    assert_eq!(fields, headers);
    assert_eq!(body, b"Error".to_vec());
}

#[test]
fn response_off_the_wire_may_have_no_body() {
    let response = Response::from_parts(StatusCode::Ok, Headers::new(), None);

    assert!(response.body.is_none());
    assert_eq!(response.into_parts().2, Vec::<u8>::new());
}

#[test]
fn test_response_from_hyper_response() {
    let mut headers = Headers::new();
    headers.set(ContentType(mime::TEXT_HTML));

    let mut from_response = HyperResponse::new()
        .with_status(StatusCode::NotFound)
        .with_headers(headers.clone())
        .with_body("Error");
    let status = from_response.status();
    let fields = replace(from_response.headers_mut(), Headers::new());
    let body = if from_response.body_ref().is_some() {
        Some(from_response.body().concat2().wait().unwrap().to_vec())
    } else {
        None
    };
    let response = Response::from_parts(status, fields, body);

    assert_eq!(response.status, StatusCode::NotFound);
    assert_eq!(response.headers, headers);
    assert!(response.body.is_some());

    let body = String::from(from_utf8(&response.body.unwrap()).unwrap());

    assert_eq!(body, "Error");
}

#[test]
fn test_hyper_response_from_response() {
    let mut headers = Headers::new();
    headers.set(ContentType(mime::TEXT_HTML));

    let (status, fields, body) = Response {
        status: StatusCode::NotFound,
        headers: headers.clone(),
        body: Some("Error".into()),
        extensions: ExtensionStore::new(),
    }
    .into_parts();
    let response: HyperResponse =
        HyperResponse::new().with_status(status).with_headers(fields).with_body(body);

    assert_eq!(response.status(), StatusCode::NotFound);
    assert_eq!(response.headers(), &headers);
    assert!(response.body_ref().is_some());

    let body = response
        .body()
        .concat2()
        .and_then(|chunk| future::ok(String::from(from_utf8(&chunk).unwrap())))
        .wait()
        .unwrap();

    assert_eq!(body, "Error");
}
