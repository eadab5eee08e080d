//! Decisions of the Board process Adapter: response framing, identity checks and error
//! mapping for the `gareji.board-bridge.v0` protocol.

use vstd::prelude::*;

use crate::board::{BoardActiveWorkAssessment, BoardPortError};
use crate::framing::{line_spec, read_line, BufferedInput};
use crate::ordered::{copy_str, str_eq};
use crate::text::{decimal, decimal_text};

verus! {

/// Version discriminator of the Board bridge.
pub const BOARD_BRIDGE_PROTOCOL_VERSION: &'static str = "gareji.board-bridge.v0";

/// Longest accepted Board bridge message, in bytes.
pub const MAX_BRIDGE_MESSAGE_BYTES: usize = 1048576;

/// Read one bounded Board response line; an oversized response is invalid.
pub fn read_bounded_line(input: &mut BufferedInput, output: &mut Vec<u8>) -> (r: Result<bool, BoardPortError>)
    ensures
        match line_spec(old(input)@, MAX_BRIDGE_MESSAGE_BYTES as nat) {
            None => r == Err::<bool, BoardPortError>(BoardPortError::InvalidResponse)
                && final(output)@.len() == 0,
            Some((read, payload, consumed)) => r == Ok::<bool, BoardPortError>(read)
                && final(output)@ == payload && final(input)@ == old(input)@.subrange(
                consumed as int,
                old(input)@.len() as int,
            ),
        },
{
    match read_line(input, output, MAX_BRIDGE_MESSAGE_BYTES) {
        Some(read) => Ok(read),
        None => Err(BoardPortError::InvalidResponse),
    }
}

/// The identity of one Board request: `core-`, the Core process identity, `-`, and the
/// per-Adapter request counter.
pub fn board_request_id(process_id: u32, counter: u64) -> (r: String)
    ensures
        r@ == "core-"@ + decimal(process_id as nat) + "-"@ + decimal(counter as nat),
{
    let mut out = copy_str("core-");
    let pid = decimal_text(process_id as u64);
    out.append(pid.as_str());
    out.append("-");
    let n = decimal_text(counter);
    out.append(n.as_str());
    out
}

/// Board failure categories on the wire.
#[derive(Debug, Clone, Copy, PartialEq, Eq, Structural)]
pub enum BoardBridgeErrorCode {
    InvalidRequest,
    ProjectNotFound,
    WorkItemNotFound,
    InternalError,
}

/// Board's Work item states.
#[derive(Debug, Clone, Copy, PartialEq, Eq, Structural)]
pub enum BoardWorkItemState {
    Backlog,
    Todo,
    InProgress,
    InReview,
    Blocked,
    Done,
    Cancelled,
}

/// Why Board refuses a Work item as active work.
#[derive(Debug, Clone, Copy, PartialEq, Eq, Structural)]
pub enum BoardIneligibleReason {
    NotAdmitted,
    Blocked,
    Terminal,
}

/// Board's eligibility decision.
#[derive(Debug, Clone, Copy, PartialEq, Eq, Structural)]
pub enum BoardEligibility {
    Eligible,
    Ineligible { reason: BoardIneligibleReason },
}

/// Board's assessment of one Work item.
#[derive(Debug, Clone, PartialEq, Eq)]
pub struct BoardAssessment {
    pub project_id: String,
    pub work_item_id: String,
    pub state: BoardWorkItemState,
    pub eligibility: BoardEligibility,
}

/// One Board bridge response; `result` is `None` when a successful response carried no
/// well-formed assessment.
#[derive(Debug)]
pub enum BoardBridgeResponse {
    Success { protocol_version: String, request_id: String, result: Option<BoardAssessment> },
    Error { protocol_version: String, request_id: String, code: BoardBridgeErrorCode },
}

pub open spec fn board_error(code: BoardBridgeErrorCode) -> BoardPortError {
    match code {
        BoardBridgeErrorCode::InvalidRequest => BoardPortError::InvalidResponse,
        BoardBridgeErrorCode::ProjectNotFound => BoardPortError::ProjectNotFound,
        BoardBridgeErrorCode::WorkItemNotFound => BoardPortError::WorkItemNotFound,
        BoardBridgeErrorCode::InternalError => BoardPortError::Unavailable,
    }
}

/// The Core failure class for a Board failure code.
pub fn map_board_error(code: BoardBridgeErrorCode) -> (r: BoardPortError)
    ensures
        r == board_error(code),
{
    match code {
        BoardBridgeErrorCode::InvalidRequest => BoardPortError::InvalidResponse,
        BoardBridgeErrorCode::ProjectNotFound => BoardPortError::ProjectNotFound,
        BoardBridgeErrorCode::WorkItemNotFound => BoardPortError::WorkItemNotFound,
        BoardBridgeErrorCode::InternalError => BoardPortError::Unavailable,
    }
}

pub open spec fn assessment_spec(
    a: BoardAssessment,
    project_id: Seq<char>,
    work_item_id: Seq<char>,
) -> Result<BoardActiveWorkAssessment, BoardPortError> {
    if a.project_id@ != project_id || a.work_item_id@ != work_item_id {
        Err(BoardPortError::InvalidResponse)
    } else {
        match a.eligibility {
            BoardEligibility::Eligible => Ok(BoardActiveWorkAssessment::Eligible),
            BoardEligibility::Ineligible { .. } => Ok(BoardActiveWorkAssessment::Ineligible),
        }
    }
}

/// Accept an assessment only when it repeats the requested identities.
pub fn decode_assessment(
    assessment: &BoardAssessment,
    expected_project_id: &str,
    expected_work_item_id: &str,
) -> (r: Result<BoardActiveWorkAssessment, BoardPortError>)
    ensures
        r == assessment_spec(*assessment, expected_project_id@, expected_work_item_id@),
{
    if !str_eq(assessment.project_id.as_str(), expected_project_id) || !str_eq(
        assessment.work_item_id.as_str(),
        expected_work_item_id,
    ) {
        return Err(BoardPortError::InvalidResponse);
    }
    match assessment.eligibility {
        BoardEligibility::Eligible => Ok(BoardActiveWorkAssessment::Eligible),
        BoardEligibility::Ineligible { .. } => Ok(BoardActiveWorkAssessment::Ineligible),
    }
}

/// What a response means for the request with the given identity.
pub open spec fn response_spec(
    response: BoardBridgeResponse,
    request_id: Seq<char>,
    project_id: Seq<char>,
    work_item_id: Seq<char>,
) -> Result<BoardActiveWorkAssessment, BoardPortError> {
    match response {
        BoardBridgeResponse::Success { protocol_version, request_id: rid, result } => if protocol_version@
            == BOARD_BRIDGE_PROTOCOL_VERSION@ && rid@ == request_id {
            match result {
                Some(a) => assessment_spec(a, project_id, work_item_id),
                None => Err(BoardPortError::InvalidResponse),
            }
        } else {
            Err(BoardPortError::InvalidResponse)
        },
        BoardBridgeResponse::Error { protocol_version, request_id: rid, code } => if protocol_version@
            == BOARD_BRIDGE_PROTOCOL_VERSION@ && rid@ == request_id {
            Err(board_error(code))
        } else {
            Err(BoardPortError::InvalidResponse)
        },
    }
}

/// Interpret one Board response to the request with the given identity.
pub fn interpret_response(
    response: &BoardBridgeResponse,
    request_id: &str,
    project_id: &str,
    work_item_id: &str,
) -> (r: Result<BoardActiveWorkAssessment, BoardPortError>)
    ensures
        r == response_spec(*response, request_id@, project_id@, work_item_id@),
{
    match response {
        BoardBridgeResponse::Success { protocol_version, request_id: rid, result } => {
            if str_eq(protocol_version.as_str(), BOARD_BRIDGE_PROTOCOL_VERSION) && str_eq(
                rid.as_str(),
                request_id,
            ) {
                match result {
                    Some(a) => decode_assessment(a, project_id, work_item_id),
                    None => Err(BoardPortError::InvalidResponse),
                }
            } else {
                Err(BoardPortError::InvalidResponse)
            }
        },
        BoardBridgeResponse::Error { protocol_version, request_id: rid, code } => {
            if str_eq(protocol_version.as_str(), BOARD_BRIDGE_PROTOCOL_VERSION) && str_eq(
                rid.as_str(),
                request_id,
            ) {
                Err(map_board_error(*code))
            } else {
                Err(BoardPortError::InvalidResponse)
            }
        },
    }
}

/// Active work is eligible exactly when Board says so: an assessment that repeats the
/// requested identities is eligible when Board's eligibility is eligible and ineligible for
/// any reason Board gives, and one for another project or Work item is an invalid response.
pub proof fn law_eligibility_is_board_eligibility(
    a: BoardAssessment,
    project_id: Seq<char>,
    work_item_id: Seq<char>,
)
    ensures
        (a.project_id@ != project_id || a.work_item_id@ != work_item_id) ==> assessment_spec(a, project_id, work_item_id)
            == Err::<BoardActiveWorkAssessment, BoardPortError>(BoardPortError::InvalidResponse),
        (a.project_id@ == project_id && a.work_item_id@ == work_item_id && a.eligibility
            == BoardEligibility::Eligible) ==> assessment_spec(a, project_id, work_item_id) == Ok::<
            BoardActiveWorkAssessment,
            BoardPortError,
        >(BoardActiveWorkAssessment::Eligible),
        (a.project_id@ == project_id && a.work_item_id@ == work_item_id && a.eligibility
            is Ineligible) ==> assessment_spec(a, project_id, work_item_id) == Ok::<
            BoardActiveWorkAssessment,
            BoardPortError,
        >(BoardActiveWorkAssessment::Ineligible),
{
}

/// A Board response makes a Work item eligible only when it is a success in this protocol, for
/// this request, carrying an assessment of the requested Work item that Board found eligible.
pub proof fn law_only_an_eligible_answer_admits_active_work(
    response: BoardBridgeResponse,
    request_id: Seq<char>,
    project_id: Seq<char>,
    work_item_id: Seq<char>,
)
    requires
        response_spec(response, request_id, project_id, work_item_id) == Ok::<
            BoardActiveWorkAssessment,
            BoardPortError,
        >(BoardActiveWorkAssessment::Eligible),
    ensures
        response is Success,
        response->Success_protocol_version@ == BOARD_BRIDGE_PROTOCOL_VERSION@,
        response->Success_request_id@ == request_id,
        response->Success_result matches Some(a) && a.project_id@ == project_id && a.work_item_id@
            == work_item_id && a.eligibility == BoardEligibility::Eligible,
{
}

/// Whether the Board process must be restarted after this outcome: it became unavailable or
/// answered something invalid.
pub fn must_restart(outcome: &Result<BoardActiveWorkAssessment, BoardPortError>) -> (r: bool)
    ensures
        r == (*outcome == Err::<BoardActiveWorkAssessment, BoardPortError>(BoardPortError::Unavailable)
            || *outcome == Err::<BoardActiveWorkAssessment, BoardPortError>(
            BoardPortError::InvalidResponse,
        )),
{
    match outcome {
        Err(BoardPortError::Unavailable) => true,
        Err(BoardPortError::InvalidResponse) => true,
        _ => false,
    }
}

} // verus!
