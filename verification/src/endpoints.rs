//! The answers that need no upstream: the liveness check and the preflight.

use crate::forward::Response;
use vstd::prelude::*;

verus! {

/// The path of the liveness check.
pub const PING_PATH: &'static str = "/ping";

/// The path of the streaming endpoint.
pub const PROXY_PATH: &'static str = "/api/stream/proxy";

/// The status of an answer that went well.
pub const OK: u16 = 200;

/// The status of an answer that has no body.
pub const NO_CONTENT: u16 = 204;

/// What the liveness check answers with.
pub const PONG: &'static str = "pong";

/// The answer to the liveness check: status 200 and the body `pong`.
pub fn pong() -> (response: Response)
    ensures
        response.status == OK,
        response.headers@.len() == 0,
        response.body@ == PONG@,
{
    Response { status: OK, headers: Vec::new(), body: PONG.to_owned() }
}

/// The answer to a preflight request: status 204, and no body.
pub fn preflight() -> (response: Response)
    ensures
        response.status == NO_CONTENT,
        response.headers@.len() == 0,
        response.body@.len() == 0,
{
    Response { status: NO_CONTENT, headers: Vec::new(), body: String::new() }
}

} // verus!
