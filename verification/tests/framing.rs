use gareji::board::{BoardActiveWorkAssessment, BoardPortError};
use gareji::board_adapter::{
    board_request_id, decode_assessment, interpret_response, map_board_error, must_restart,
    read_bounded_line as read_board_line, BoardAssessment, BoardBridgeErrorCode,
    BoardBridgeResponse, BoardEligibility, BoardIneligibleReason, BoardWorkItemState,
    BOARD_BRIDGE_PROTOCOL_VERSION, MAX_BRIDGE_MESSAGE_BYTES,
};
use gareji::cli::{
    malformed_request_response, read_bounded_line, validate_progress_limit, LineError,
    MAX_BRIDGE_LINE_BYTES,
};
use gareji::contracts::{CoreBridgeResponse, CoreErrorCode, CORE_BRIDGE_PROTOCOL_VERSION};
use gareji::framing::{read_line, scan_chunk, BufferedInput, ChunkScan};

#[test]
fn bounded_reader_accepts_multiple_lines_without_newline_bytes() {
    let mut input = BufferedInput::new(b"first\nsecond\n".to_vec());
    let mut output = Vec::new();
    assert!(read_bounded_line(&mut input, &mut output).unwrap());
    assert_eq!(output, b"first");
    assert!(read_bounded_line(&mut input, &mut output).unwrap());
    assert_eq!(output, b"second");
    assert!(!read_bounded_line(&mut input, &mut output).unwrap());
}

#[test]
fn bounded_reader_rejects_an_oversized_request() {
    let mut input = BufferedInput::new(vec![b'x'; MAX_BRIDGE_LINE_BYTES + 1]);
    let mut output = Vec::new();
    assert_eq!(
        read_bounded_line(&mut input, &mut output).unwrap_err(),
        LineError::InvalidData
    );
}

#[test]
fn progress_list_rejects_an_out_of_range_limit() {
    let error = validate_progress_limit(0).unwrap_err();
    assert!(error.contains("from 1 through 100"));
    assert!(validate_progress_limit(101).is_err());
    assert_eq!(validate_progress_limit(1), Ok(()));
    assert_eq!(validate_progress_limit(100), Ok(()));
}

#[test]
fn board_response_reader_rejects_oversized_messages() {
    let mut input = BufferedInput::new(vec![b'x'; MAX_BRIDGE_MESSAGE_BYTES + 1]);
    let mut output = Vec::new();
    assert_eq!(
        read_board_line(&mut input, &mut output),
        Err(BoardPortError::InvalidResponse)
    );
}

fn assessment(project_id: &str, eligibility: BoardEligibility) -> BoardAssessment {
    BoardAssessment {
        project_id: project_id.to_owned(),
        work_item_id: "CORE-1".to_owned(),
        state: BoardWorkItemState::Todo,
        eligibility,
    }
}

#[test]
fn assessment_must_repeat_the_requested_identities() {
    let result = assessment("other", BoardEligibility::Eligible);
    assert_eq!(
        decode_assessment(&result, "core", "CORE-1"),
        Err(BoardPortError::InvalidResponse)
    );
}

#[test]
fn matching_assessments_decide_eligibility() {
    assert_eq!(
        decode_assessment(&assessment("core", BoardEligibility::Eligible), "core", "CORE-1"),
        Ok(BoardActiveWorkAssessment::Eligible)
    );
    assert_eq!(
        decode_assessment(
            &assessment(
                "core",
                BoardEligibility::Ineligible {
                    reason: BoardIneligibleReason::Blocked
                }
            ),
            "core",
            "CORE-1"
        ),
        Ok(BoardActiveWorkAssessment::Ineligible)
    );
    assert_eq!(
        decode_assessment(&assessment("core", BoardEligibility::Eligible), "core", "CORE-2"),
        Err(BoardPortError::InvalidResponse)
    );
}

#[test]
fn board_responses_are_bound_to_their_request() {
    let ok = BoardBridgeResponse::Success {
        protocol_version: BOARD_BRIDGE_PROTOCOL_VERSION.to_owned(),
        request_id: "core-1".to_owned(),
        result: Some(assessment("core", BoardEligibility::Eligible)),
    };
    assert_eq!(
        interpret_response(&ok, "core-1", "core", "CORE-1"),
        Ok(BoardActiveWorkAssessment::Eligible)
    );
    assert_eq!(
        interpret_response(&ok, "core-2", "core", "CORE-1"),
        Err(BoardPortError::InvalidResponse)
    );
    let empty = BoardBridgeResponse::Success {
        protocol_version: BOARD_BRIDGE_PROTOCOL_VERSION.to_owned(),
        request_id: "core-1".to_owned(),
        result: None,
    };
    assert_eq!(
        interpret_response(&empty, "core-1", "core", "CORE-1"),
        Err(BoardPortError::InvalidResponse)
    );
    let failure = BoardBridgeResponse::Error {
        protocol_version: BOARD_BRIDGE_PROTOCOL_VERSION.to_owned(),
        request_id: "core-1".to_owned(),
        code: BoardBridgeErrorCode::WorkItemNotFound,
    };
    assert_eq!(
        interpret_response(&failure, "core-1", "core", "CORE-1"),
        Err(BoardPortError::WorkItemNotFound)
    );
    let old_protocol = BoardBridgeResponse::Error {
        protocol_version: "gareji.board-bridge.v9".to_owned(),
        request_id: "core-1".to_owned(),
        code: BoardBridgeErrorCode::WorkItemNotFound,
    };
    assert_eq!(
        interpret_response(&old_protocol, "core-1", "core", "CORE-1"),
        Err(BoardPortError::InvalidResponse)
    );
}

#[test]
fn board_error_codes_map_and_restart_rules() {
    assert_eq!(
        map_board_error(BoardBridgeErrorCode::InvalidRequest),
        BoardPortError::InvalidResponse
    );
    assert_eq!(
        map_board_error(BoardBridgeErrorCode::ProjectNotFound),
        BoardPortError::ProjectNotFound
    );
    assert_eq!(
        map_board_error(BoardBridgeErrorCode::InternalError),
        BoardPortError::Unavailable
    );
    assert!(must_restart(&Err(BoardPortError::Unavailable)));
    assert!(must_restart(&Err(BoardPortError::InvalidResponse)));
    assert!(!must_restart(&Err(BoardPortError::WorkItemNotFound)));
    assert!(!must_restart(&Ok(BoardActiveWorkAssessment::Eligible)));
}

#[test]
fn chunk_scan_finds_the_first_newline() {
    assert_eq!(
        scan_chunk(b"ab\ncd\n", 0, 10),
        ChunkScan {
            payload_len: 2,
            consumed: 3,
            complete: true,
            too_long: false
        }
    );
    assert_eq!(
        scan_chunk(b"abcd", 3, 10),
        ChunkScan {
            payload_len: 4,
            consumed: 4,
            complete: false,
            too_long: false
        }
    );
    assert!(scan_chunk(b"abcd", 7, 10).too_long);
    assert!(!scan_chunk(b"abc\n", 7, 10).too_long);
}

#[test]
fn a_line_of_exactly_the_bound_is_accepted() {
    let mut data = vec![b'y'; 8];
    data.push(b'\n');
    data.extend_from_slice(b"tail");
    let mut input = BufferedInput::new(data);
    let mut output = Vec::new();
    assert_eq!(read_line(&mut input, &mut output, 8), Some(true));
    assert_eq!(output, vec![b'y'; 8]);
    assert_eq!(input.remaining(), b"tail");
    // A last line without a newline is still a line.
    assert_eq!(read_line(&mut input, &mut output, 8), Some(true));
    assert_eq!(output, b"tail");
    assert_eq!(read_line(&mut input, &mut output, 8), Some(false));
    assert!(output.is_empty());

    let mut long = BufferedInput::new(b"123456789\n".to_vec());
    assert_eq!(read_line(&mut long, &mut output, 8), None);
}

#[test]
fn malformed_lines_get_an_invalid_request_answer() {
    match malformed_request_response() {
        CoreBridgeResponse::Error {
            protocol_version,
            request_id,
            error,
        } => {
            assert_eq!(protocol_version, CORE_BRIDGE_PROTOCOL_VERSION);
            assert!(request_id.is_empty());
            assert_eq!(error.code, CoreErrorCode::InvalidRequest);
            assert_eq!(error.message, "invalid Core bridge request");
        }
        CoreBridgeResponse::Success { .. } => panic!("expected an error"),
    }
}

#[test]
fn board_request_ids_carry_process_and_counter() {
    assert_eq!(board_request_id(4242, 7), "core-4242-7");
    assert_eq!(board_request_id(0, 18_446_744_073_709_551_615), "core-0-18446744073709551615");
}
