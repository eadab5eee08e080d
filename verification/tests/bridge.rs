use gareji::board::{BoardActiveWorkAssessment, BoardPort, BoardPortError, UnavailableBoard};
use gareji::bridge::CoreBridge;
use gareji::contracts::{
    CoreBridgeError, CoreBridgeOperation, CoreBridgeRequest, CoreBridgeResponse,
    CoreBridgeResult, CoreErrorCode, ProjectGrant, ProjectRegistration, SourcedContext,
    CORE_BRIDGE_PROTOCOL_VERSION,
};
use gareji::progress::types::{
    ActorType, CheckpointActor, CheckpointOutcome, CheckpointSource, ProgressCheckpoint,
    VerificationRecord, VerificationStatus, PROGRESS_CHECKPOINT_SCHEMA_VERSION,
};
use gareji::progress::ProgressRecorder;
use gareji::registry::ProjectRegistry;

fn request(id: &str, operation: CoreBridgeOperation) -> CoreBridgeRequest {
    CoreBridgeRequest {
        protocol_version: CORE_BRIDGE_PROTOCOL_VERSION.to_owned(),
        request_id: id.to_owned(),
        operation,
    }
}

fn registration() -> ProjectRegistration {
    ProjectRegistration {
        project_id: "core".to_owned(),
        name: "Core".to_owned(),
        execution_workspace: "core-local".to_owned(),
        context_sources: vec!["local-markdown".to_owned()],
        grants: vec![
            ProjectGrant::ReadContext,
            ProjectGrant::SelectActiveWork,
            ProjectGrant::WriteProgress,
        ],
        sourced_context: vec![SourcedContext {
            workspace_id: "notes".to_owned(),
            source_id: "brief".to_owned(),
            freshness: "configured".to_owned(),
            content: Some("Build Core.".to_owned()),
            evidence_ref: None,
        }],
        delivery_targets: vec!["local-json".to_owned()],
    }
}

fn checkpoint() -> ProgressCheckpoint {
    ProgressCheckpoint {
        schema_version: PROGRESS_CHECKPOINT_SCHEMA_VERSION.to_owned(),
        checkpoint_id: "cp-bridge-1".to_owned(),
        recorded_at: "2026-07-17T18:00:00+09:00".to_owned(),
        project_id: "core".to_owned(),
        work_item_id: Some("CORE-1".to_owned()),
        execution_workspace_id: "core-local".to_owned(),
        source: CheckpointSource::Mcp,
        actor: CheckpointActor {
            kind: ActorType::Agent,
            id: "codex".to_owned(),
        },
        outcome: CheckpointOutcome::Progress,
        summary: "Connected the local Core bridge.".to_owned(),
        changed_paths: vec!["crates/gareji-core/src/bridge.rs".to_owned()],
        git: None,
        verification: vec![VerificationRecord {
            name: "cargo test".to_owned(),
            status: VerificationStatus::Passed,
            evidence_ref: None,
        }],
        evidence_refs: vec![],
        recommended_state: None,
    }
}

struct StaticBoard {
    assessment: Result<BoardActiveWorkAssessment, BoardPortError>,
}

impl BoardPort for StaticBoard {
    fn assess_active_work(
        &self,
        _project_id: &str,
        _work_item_id: &str,
    ) -> Result<BoardActiveWorkAssessment, BoardPortError> {
        self.assessment
    }
}

fn registry_with(registration: &ProjectRegistration) -> ProjectRegistry {
    let mut registry = ProjectRegistry::open_in_memory().unwrap();
    registry.register(registration).unwrap();
    registry
}

/// A registry rebuilt from another one's contents, as durable storage replays it.
fn reopen(registry: &ProjectRegistry) -> ProjectRegistry {
    let mut reopened = ProjectRegistry::open_in_memory().unwrap();
    for registration in registry.list().unwrap() {
        reopened.register(&registration).unwrap();
        if let Some(work_item) = registry.active_work_item(&registration.project_id).unwrap() {
            reopened
                .set_active_work_item(&registration.project_id, &work_item)
                .unwrap();
        }
    }
    reopened
}

fn bridge_with_project() -> CoreBridge<StaticBoard> {
    CoreBridge::new(
        StaticBoard {
            assessment: Ok(BoardActiveWorkAssessment::Eligible),
        },
        registry_with(&registration()),
        ProgressRecorder::open_in_memory().unwrap(),
    )
}

fn error_code(response: &CoreBridgeResponse) -> Option<CoreErrorCode> {
    match response {
        CoreBridgeResponse::Error {
            error: CoreBridgeError { code, .. },
            ..
        } => Some(*code),
        CoreBridgeResponse::Success { .. } => None,
    }
}

#[test]
fn bridge_lists_registered_projects_and_persists_active_work() {
    let mut bridge = bridge_with_project();
    let listed = bridge.handle(request("req-1", CoreBridgeOperation::ListProjects));
    let CoreBridgeResponse::Success {
        result: CoreBridgeResult::Projects(listed),
        ..
    } = listed
    else {
        panic!("expected successful list");
    };
    assert_eq!(listed.projects[0].id, "core");

    let selected = bridge.handle(request(
        "req-2",
        CoreBridgeOperation::SetActiveWorkItem {
            project_id: "core".to_owned(),
            work_item_id: "CORE-1".to_owned(),
        },
    ));
    assert!(matches!(selected, CoreBridgeResponse::Success { .. }));
    assert_eq!(
        bridge.registry().active_work_item("core").unwrap().as_deref(),
        Some("CORE-1")
    );
}

#[test]
fn bridge_records_and_reads_progress_through_the_same_interface() {
    let mut bridge = bridge_with_project();
    let recorded = bridge.handle(request(
        "req-3",
        CoreBridgeOperation::RecordProgress {
            checkpoint: Some(checkpoint()),
        },
    ));
    let CoreBridgeResponse::Success {
        result: CoreBridgeResult::Recorded(receipt),
        ..
    } = recorded
    else {
        panic!("expected successful record");
    };
    assert_eq!(receipt.deliveries[0].status, "pending");

    let status = bridge.handle(request(
        "req-4",
        CoreBridgeOperation::GetCheckpointStatus {
            checkpoint_id: "cp-bridge-1".to_owned(),
        },
    ));
    assert!(matches!(status, CoreBridgeResponse::Success { .. }));

    let listed = bridge.handle(request(
        "req-5",
        CoreBridgeOperation::ListProgress {
            project_id: "core".to_owned(),
            work_item_id: Some("CORE-1".to_owned()),
            before_checkpoint_id: None,
            limit: 10,
        },
    ));
    let CoreBridgeResponse::Success {
        result: CoreBridgeResult::Progress(listed),
        ..
    } = listed
    else {
        panic!("expected successful progress list");
    };
    assert_eq!(listed.checkpoints.len(), 1);
    assert_eq!(listed.checkpoints[0].checkpoint_id, "cp-bridge-1");
    assert!(listed.next_cursor.is_none());
}

#[test]
fn bridge_enforces_project_grants() {
    let mut denied = registration();
    denied.grants.clear();
    let mut bridge = CoreBridge::new(
        UnavailableBoard,
        registry_with(&denied),
        ProgressRecorder::open_in_memory().unwrap(),
    );

    let response = bridge.handle(request(
        "req-denied",
        CoreBridgeOperation::GetProjectContext {
            project_id: "core".to_owned(),
            work_item_id: None,
        },
    ));
    assert!(matches!(
        response,
        CoreBridgeResponse::Error {
            error: CoreBridgeError {
                code: CoreErrorCode::PermissionDenied,
                ..
            },
            ..
        }
    ));
}

#[test]
fn bridge_does_not_store_board_ineligible_active_work() {
    let mut bridge = bridge_with_project();
    let selected = bridge.handle(request(
        "req-eligible",
        CoreBridgeOperation::SetActiveWorkItem {
            project_id: "core".to_owned(),
            work_item_id: "CORE-1".to_owned(),
        },
    ));
    assert!(matches!(selected, CoreBridgeResponse::Success { .. }));
    let stored = reopen(bridge.registry());
    drop(bridge);

    let mut denied_bridge = CoreBridge::new(
        StaticBoard {
            assessment: Ok(BoardActiveWorkAssessment::Ineligible),
        },
        stored,
        ProgressRecorder::open_in_memory().unwrap(),
    );
    let denied = denied_bridge.handle(request(
        "req-ineligible",
        CoreBridgeOperation::SetActiveWorkItem {
            project_id: "core".to_owned(),
            work_item_id: "CORE-2".to_owned(),
        },
    ));
    assert!(matches!(
        denied,
        CoreBridgeResponse::Error {
            error: CoreBridgeError {
                code: CoreErrorCode::WorkItemNotEligible,
                ..
            },
            ..
        }
    ));

    let registry = reopen(denied_bridge.registry());
    assert_eq!(
        registry.active_work_item("core").unwrap().as_deref(),
        Some("CORE-1")
    );
}

#[test]
fn bridge_reports_board_unavailable_without_falling_back() {
    let mut bridge = CoreBridge::new(
        UnavailableBoard,
        registry_with(&registration()),
        ProgressRecorder::open_in_memory().unwrap(),
    );

    let response = bridge.handle(request(
        "req-board-unavailable",
        CoreBridgeOperation::SetActiveWorkItem {
            project_id: "core".to_owned(),
            work_item_id: "CORE-1".to_owned(),
        },
    ));
    assert!(matches!(
        response,
        CoreBridgeResponse::Error {
            error: CoreBridgeError {
                code: CoreErrorCode::BoardUnavailable,
                ..
            },
            ..
        }
    ));
    assert_eq!(bridge.registry().active_work_item("core").unwrap(), None);
}

#[test]
fn board_failures_map_to_stable_codes() {
    let cases = [
        (BoardPortError::ProjectNotFound, CoreErrorCode::ProjectNotFound),
        (BoardPortError::WorkItemNotFound, CoreErrorCode::WorkItemNotFound),
        (BoardPortError::Unavailable, CoreErrorCode::BoardUnavailable),
        (BoardPortError::InvalidResponse, CoreErrorCode::InternalError),
    ];
    for (board_error, code) in cases {
        let mut bridge = CoreBridge::new(
            StaticBoard {
                assessment: Err(board_error),
            },
            registry_with(&registration()),
            ProgressRecorder::open_in_memory().unwrap(),
        );
        let response = bridge.handle(request(
            "req-board",
            CoreBridgeOperation::SetActiveWorkItem {
                project_id: "core".to_owned(),
                work_item_id: "CORE-1".to_owned(),
            },
        ));
        assert_eq!(error_code(&response), Some(code));
    }
}

#[test]
fn unsupported_protocol_and_missing_checkpoint_are_invalid_requests() {
    let mut bridge = bridge_with_project();
    let mut wrong_version = request("req-v", CoreBridgeOperation::ListProjects);
    wrong_version.protocol_version = "gareji.core-bridge.v9".to_owned();
    assert_eq!(
        error_code(&bridge.handle(wrong_version)),
        Some(CoreErrorCode::InvalidRequest)
    );

    let missing = bridge.handle(request(
        "req-m",
        CoreBridgeOperation::RecordProgress { checkpoint: None },
    ));
    assert_eq!(error_code(&missing), Some(CoreErrorCode::InvalidRequest));

    let unknown = bridge.handle(request(
        "req-u",
        CoreBridgeOperation::GetCheckpointStatus {
            checkpoint_id: "nope".to_owned(),
        },
    ));
    assert_eq!(error_code(&unknown), Some(CoreErrorCode::CheckpointNotFound));

    let unregistered = bridge.handle(request(
        "req-p",
        CoreBridgeOperation::GetProjectContext {
            project_id: "elsewhere".to_owned(),
            work_item_id: None,
        },
    ));
    assert_eq!(error_code(&unregistered), Some(CoreErrorCode::ProjectNotFound));
}

#[test]
fn conflicting_checkpoint_is_a_conflict() {
    let mut bridge = bridge_with_project();
    bridge.handle(request(
        "req-1",
        CoreBridgeOperation::RecordProgress {
            checkpoint: Some(checkpoint()),
        },
    ));
    let mut changed = checkpoint();
    changed.summary = "Something else.".to_owned();
    let response = bridge.handle(request(
        "req-2",
        CoreBridgeOperation::RecordProgress {
            checkpoint: Some(changed),
        },
    ));
    assert_eq!(error_code(&response), Some(CoreErrorCode::Conflict));
}

#[test]
fn context_is_answered_for_a_granted_project() {
    let mut bridge = bridge_with_project();
    let response = bridge.handle(request(
        "req-c",
        CoreBridgeOperation::GetProjectContext {
            project_id: "core".to_owned(),
            work_item_id: Some("CORE-9".to_owned()),
        },
    ));
    let CoreBridgeResponse::Success {
        request_id,
        result: CoreBridgeResult::Context(context),
        ..
    } = response
    else {
        panic!("expected context");
    };
    assert_eq!(request_id, "req-c");
    assert_eq!(context.project_id, "core");
    assert_eq!(context.work_item_id.as_deref(), Some("CORE-9"));
    assert_eq!(context.sources, registration().sourced_context);
}
