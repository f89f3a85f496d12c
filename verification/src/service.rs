//! From a request to the response that goes back on the wire.
//!
//! A handler's outcome is a response or a failure. The client gets a response
//! either way: what the handler gave, what the failure falls back on, or, where
//! the failure names no fallback, a response that reports the failure.

use crate::error::{FerrumError, FerrumResult};
use crate::extensions::{ExtensionStore, ExtensionValue};
use crate::headers::{
    content_length_name, decimal, header_lines, new_headers, no_fields, set_content_length,
};
use crate::middleware::Handler;
use crate::request::Request;
use crate::response::Response;
use crate::status::{internal_server_error_status, status_of, INTERNAL_SERVER_ERROR};
use vstd::prelude::*;
use vstd::utf8::encode_utf8;

verus! {

/// The bytes of `ERROR: `, with which the report of a failure begins.
pub open spec fn report_prefix() -> Seq<u8> {
    seq![69u8, 82u8, 82u8, 79u8, 82u8, 58u8, 32u8]
}

/// The body that reports a failure: `ERROR: ` and the text of the cause, in
/// UTF-8.
pub open spec fn report_of(cause: Seq<u8>) -> Seq<u8> {
    report_prefix() + cause
}

/// Whether `response` is what the client gets for `failure`: the response that
/// the failure falls back on, as it is; or, where it names none, a response
/// that says the server failed, whose body reports the cause and whose only
/// header field announces the body's length.
pub open spec fn answers_failure(failure: FerrumError, response: Response) -> bool {
    match failure.response {
        Some(fallback) => response == fallback,
        None => {
            let report = report_of(encode_utf8(failure.error@));
            &&& response.status == internal_server_error_status()
            &&& response.body is Some
            &&& response.body->0@ == report
            &&& header_lines(response.headers) == no_fields().insert(
                content_length_name(),
                seq![decimal(report.len())],
            )
            &&& response.extensions@ == Map::<u64, ExtensionValue>::empty()
        },
    }
}

/// Whether `response` is what the client gets for `outcome`.
pub open spec fn answers(outcome: FerrumResult<Response>, response: Response) -> bool {
    match outcome {
        Ok(given) => response == given,
        Err(failure) => answers_failure(failure, response),
    }
}

/// The response that the client gets for a failure that nothing recovered
/// from.
pub fn answer_failure(failure: FerrumError) -> (response: Response)
    ensures
        answers_failure(failure, response),
{
    match failure.response {
        Some(fallback) => fallback,
        None => {
            let mut body: Vec<u8> = vec![69u8, 82u8, 82u8, 79u8, 82u8, 58u8, 32u8];
            let mut cause = failure.error.as_str().as_bytes_vec();
            body.append(&mut cause);
            let length = body.len() as u64;
            let mut headers = new_headers();
            set_content_length(&mut headers, length);
            proof {
                assert(body@ =~= report_of(encode_utf8(failure.error@)));
            }
            Response {
                status: status_of(INTERNAL_SERVER_ERROR).unwrap(),
                headers,
                body: Some(body),
                extensions: ExtensionStore::new(),
            }
        },
    }
}

/// The response that the client gets for an outcome.
pub fn respond(outcome: FerrumResult<Response>) -> (response: Response)
    ensures
        answers(outcome, response),
{
    match outcome {
        Ok(given) => given,
        Err(failure) => answer_failure(failure),
    }
}

/// Runs the request through the handler, once, and gives the response that the
/// client gets for what came out.
pub fn dispatch<H: Handler>(handler: &H, request: &mut Request) -> (response: Response)
    ensures
        exists|outcome: FerrumResult<Response>|
            {
                &&& #[trigger] handler.handles(*old(request), *final(request), outcome)
                &&& answers(outcome, response)
            },
{
    let outcome = handler.handle(request);
    let ghost given = outcome;
    let response = respond(outcome);
    proof {
        assert(handler.handles(*old(request), *request, given));
    }
    response
}

/// A failure without a fallback is answered with the status that says the
/// server failed and a body that is not empty; a failure with a fallback is
/// answered with the fallback, unchanged.
pub proof fn law_failures_are_answered(failure: FerrumError, response: Response)
    requires
        answers_failure(failure, response),
    ensures
        failure.response is None ==> response.status == internal_server_error_status(),
        failure.response is None ==> response.body is Some && response.body->0@.len() >= 7,
        failure.response is None ==> response.length_matches_body(),
        failure.response is Some ==> response == failure.response->0,
{
}

} // verus!
