//! Health check via HTTP GET against the gateway's `/health` endpoint.

use vstd::prelude::*;

verus! {

/// What an HTTP GET against the health URL says of the gateway.
///
/// `status` is the status code of the answer. Returns `true` if the server
/// responded with HTTP 200, `false` on any error (connection refused, timeout,
/// non-200 status, etc.).
pub fn check_health(status: Option<u16>) -> (r: bool)
    ensures
        r == (status == Some(200u16)),
{
    match status {
        Some(code) => code == 200,
        None => false,
    }
}

} // verus!
