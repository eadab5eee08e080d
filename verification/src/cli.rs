//! Decisions of the local Core command line: request framing and argument bounds.

use vstd::prelude::*;

use crate::contracts::{
    CoreBridgeError, CoreBridgeResponse, CoreErrorCode, CORE_BRIDGE_PROTOCOL_VERSION,
};
use crate::framing::{line_spec, read_line, BufferedInput, MAX_LINE_BYTES};
use crate::ordered::copy_str;

verus! {

/// Longest accepted bridge request line, in bytes.
pub const MAX_BRIDGE_LINE_BYTES: usize = 1048576;

/// Failure to frame a bridge request.
#[derive(Debug, Clone, Copy, PartialEq, Eq, Structural)]
pub enum LineError {
    /// The request exceeds the maximum size (an invalid-data input error).
    InvalidData,
}

/// Read one bounded request line; the newline is not part of the payload.
///
/// Answers whether a line was read; an oversized request is invalid data.
pub fn read_bounded_line(input: &mut BufferedInput, output: &mut Vec<u8>) -> (r: Result<bool, LineError>)
    ensures
        match line_spec(old(input)@, MAX_BRIDGE_LINE_BYTES as nat) {
            None => r == Err::<bool, LineError>(LineError::InvalidData) && final(output)@.len() == 0,
            Some((read, payload, consumed)) => r == Ok::<bool, LineError>(read) && final(output)@
                == payload && final(input)@ == old(input)@.subrange(
                consumed as int,
                old(input)@.len() as int,
            ),
        },
{
    match read_line(input, output, MAX_BRIDGE_LINE_BYTES) {
        Some(read) => Ok(read),
        None => Err(LineError::InvalidData),
    }
}

/// Check the page size of a progress listing before opening any storage.
pub fn validate_progress_limit(limit: u16) -> (r: Result<(), &'static str>)
    ensures
        match r {
            Ok(()) => 1 <= limit <= 100,
            Err(m) => !(1 <= limit <= 100) && m@ == "progress limit must be from 1 through 100"@,
        },
{
    if limit < 1 || limit > 100 {
        return Err("progress limit must be from 1 through 100");
    }
    Ok(())
}

/// The answer to a line that is not a well-formed bridge request.
pub fn malformed_request_response() -> (r: CoreBridgeResponse)
    ensures
        r matches CoreBridgeResponse::Error { protocol_version, request_id, error } && {
            &&& protocol_version@ == CORE_BRIDGE_PROTOCOL_VERSION@
            &&& request_id@.len() == 0
            &&& error.code == CoreErrorCode::InvalidRequest
            &&& error.message@ == "invalid Core bridge request"@
        },
{
    CoreBridgeResponse::Error {
        protocol_version: copy_str(CORE_BRIDGE_PROTOCOL_VERSION),
        request_id: String::new(),
        error: CoreBridgeError {
            code: CoreErrorCode::InvalidRequest,
            message: copy_str("invalid Core bridge request"),
        },
    }
}

} // verus!
