//! Turning a collaborator's outcome into a response.
use vstd::prelude::*;

verus! {

/// A response as the transport sends it: a status code and a body.
#[derive(Clone, Debug, PartialEq, Eq)]
pub struct Response {
    pub status: u16,
    pub body: Vec<u8>,
}

/// The status of a response that carries content.
pub const STATUS_OK: u16 = 200;

/// The status of a response for a resource that was not found or could not
/// be produced.
pub const STATUS_NOT_FOUND: u16 = 404;

/// Builds the response for the outcome of reading a file or invoking the
/// application: the bytes with status 200, or an empty body with status 404
/// when there are none.
pub fn assemble_response(outcome: Option<Vec<u8>>) -> (r: Response)
    ensures
        match outcome {
            Some(bytes) => r.status == STATUS_OK && r.body@ == bytes@,
            None => r.status == STATUS_NOT_FOUND && r.body@.len() == 0,
        },
{
    match outcome {
        Some(bytes) => Response { status: STATUS_OK, body: bytes },
        None => Response { status: STATUS_NOT_FOUND, body: Vec::new() },
    }
}

} // verus!
