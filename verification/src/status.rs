//! HTTP status codes of the responses Roc builds.

use vstd::prelude::*;

verus! {

/// The status sent when Roc's response cannot be delivered as asked.
pub const STATUS_INTERNAL_SERVER_ERROR: u16 = 500;

/// Whether `code` is a status code HTTP can carry: three digits, from 100
/// to 999.
pub open spec fn is_valid_status(code: u16) -> bool {
    100 <= code < 1000
}

/// `hyper::StatusCode::from_u16`, read back with `as_u16`: the source
/// accepts exactly the codes from 100 to 999 and stores the code itself,
/// so the result is the code when it is in that range and nothing
/// otherwise.
#[verifier::external_body]
fn status_from_u16(code: u16) -> (r: Option<u16>)
    ensures
        r == (if is_valid_status(code) { Some(code) } else { None::<u16> }),
{
    match hyper::StatusCode::from_u16(code) {
        Ok(status) => Some(status.as_u16()),
        Err(_) => None,
    }
}

/// The status code of a response whose Roc side asked for `code`: the code
/// itself when HTTP accepts it, an internal server error otherwise.
pub fn response_status(code: u16) -> (status: u16)
    ensures
        status == (if is_valid_status(code) { code } else { STATUS_INTERNAL_SERVER_ERROR }),
        is_valid_status(status),
{
    match status_from_u16(code) {
        Some(s) => s,
        None => STATUS_INTERNAL_SERVER_ERROR,
    }
}

} // verus!
