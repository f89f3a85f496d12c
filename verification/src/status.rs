//! Status codes: hyper's type, reached by the number of a status.

use hyper::StatusCode;
use vstd::prelude::*;

verus! {

/// hyper's status code, carried as it is.
#[verifier::external_type_specification]
#[verifier::external_body]
pub struct ExStatusCode(hyper::StatusCode);

/// The status with the given number, where there is one: what
/// `StatusCode::try_from` gives for the number.
pub uninterp spec fn status_for(number: u16) -> Option<StatusCode>;

/// The status that says all went well.
pub open spec fn ok_status() -> StatusCode {
    status_for(OK)->0
}

/// The status that sends the client elsewhere.
pub open spec fn found_status() -> StatusCode {
    status_for(FOUND)->0
}

/// The status that says the server failed.
pub open spec fn internal_server_error_status() -> StatusCode {
    status_for(INTERNAL_SERVER_ERROR)->0
}

/// The number of the status that says all went well.
pub const OK: u16 = 200;

/// The number of the status that sends the client elsewhere.
pub const FOUND: u16 = 302;

/// The number of the status that says the server failed.
pub const INTERNAL_SERVER_ERROR: u16 = 500;

/// `StatusCode::try_from`: the status with that number, which exists for the
/// numbers from 100 to 599 and no others.
#[verifier::external_body]
pub(crate) fn status_of(number: u16) -> (status: Option<StatusCode>)
    ensures
        status == status_for(number),
        status is Some <==> 100 <= number <= 599,
{
    match StatusCode::try_from(number) {
        Ok(status) => Some(status),
        Err(_) => None,
    }
}

} // verus!
