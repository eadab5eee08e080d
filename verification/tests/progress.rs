use std::collections::VecDeque;

use gareji::progress::types::{
    is_safe_relative_path, ActorType, CheckpointActor, CheckpointOutcome, CheckpointQuery,
    CheckpointSource, DeliveryStatus, DeliveryTarget, GitState, ProgressCheckpoint,
    ProjectionOutcome, SyncSummary, VerificationRecord, VerificationStatus, WorkItemState,
    PROGRESS_CHECKPOINT_SCHEMA_VERSION,
};
use gareji::progress::{
    CheckpointProjector, DeliveryRow, LedgerEntry, ProgressError, ProgressRecorder,
    MAX_DELIVERY_MESSAGE,
};

fn checkpoint(id: &str) -> ProgressCheckpoint {
    ProgressCheckpoint {
        schema_version: PROGRESS_CHECKPOINT_SCHEMA_VERSION.to_owned(),
        checkpoint_id: id.to_owned(),
        recorded_at: "2026-07-17T12:00:00+09:00".to_owned(),
        project_id: "core".to_owned(),
        work_item_id: Some("CORE-1".to_owned()),
        execution_workspace_id: "core-local".to_owned(),
        source: CheckpointSource::Runner,
        actor: CheckpointActor {
            kind: ActorType::Agent,
            id: "implementer".to_owned(),
        },
        outcome: CheckpointOutcome::Progress,
        summary: "Implemented durable progress recording.".to_owned(),
        changed_paths: vec!["crates/gareji-core/src/progress/mod.rs".to_owned()],
        git: Some(GitState {
            head: None,
            branch: Some("main".to_owned()),
            dirty: true,
        }),
        verification: vec![VerificationRecord {
            name: "cargo test".to_owned(),
            status: VerificationStatus::Passed,
            evidence_ref: Some("run://test/core".to_owned()),
        }],
        evidence_refs: vec!["file://crates/gareji-core".to_owned()],
        recommended_state: Some(WorkItemState::InReview),
    }
}

fn targets() -> Vec<DeliveryTarget> {
    vec![
        DeliveryTarget {
            destination_id: "json".to_owned(),
        },
        DeliveryTarget {
            destination_id: "zettelkasten".to_owned(),
        },
    ]
}

#[test]
fn record_is_durable_and_creates_independent_pending_deliveries() {
    let mut recorder = ProgressRecorder::open_in_memory().unwrap();

    let receipt = recorder.record(&checkpoint("cp-1"), &targets()).unwrap();
    assert!(!receipt.duplicate);
    assert_eq!(receipt.deliveries.len(), 2);
    assert!(receipt
        .deliveries
        .iter()
        .all(|delivery| delivery.status == DeliveryStatus::Pending));
    let stored: Vec<LedgerEntry> = recorder.entries().clone();
    drop(recorder);

    let reopened = ProgressRecorder::restore(stored).unwrap();
    assert_eq!(reopened.status("cp-1").unwrap().deliveries.len(), 2);
}

#[test]
fn same_id_and_payload_is_idempotent() {
    let mut recorder = ProgressRecorder::open_in_memory().unwrap();
    let checkpoint = checkpoint("cp-2");
    recorder.record(&checkpoint, &targets()).unwrap();

    let duplicate = recorder.record(&checkpoint, &targets()).unwrap();
    assert!(duplicate.duplicate);
    assert_eq!(duplicate.deliveries.len(), 2);
}

#[test]
fn idempotent_retry_must_preserve_the_initial_delivery_set() {
    let mut recorder = ProgressRecorder::open_in_memory().unwrap();
    let checkpoint = checkpoint("cp-2b");
    recorder.record(&checkpoint, &targets()).unwrap();

    assert!(matches!(
        recorder.record(
            &checkpoint,
            &[DeliveryTarget {
                destination_id: "json".to_owned()
            }]
        ),
        Err(ProgressError::DeliverySetMismatch { .. })
    ));
}

#[test]
fn same_id_with_different_payload_is_a_conflict() {
    let mut recorder = ProgressRecorder::open_in_memory().unwrap();
    recorder.record(&checkpoint("cp-3"), &targets()).unwrap();
    let mut changed = checkpoint("cp-3");
    changed.summary = "Different immutable content.".to_owned();

    assert!(matches!(
        recorder.record(&changed, &targets()),
        Err(ProgressError::CheckpointConflict { .. })
    ));
}

#[test]
fn rejects_absolute_or_parent_traversal_changed_paths() {
    let mut recorder = ProgressRecorder::open_in_memory().unwrap();
    let mut absolute = checkpoint("cp-4");
    absolute.changed_paths = vec!["C:\\Users\\demo\\secret.txt".to_owned()];
    assert!(recorder.record(&absolute, &[]).is_err());

    let mut traversal = checkpoint("cp-5");
    traversal.changed_paths = vec!["../secret.txt".to_owned()];
    assert!(recorder.record(&traversal, &[]).is_err());
}

struct QueueProjector {
    outcomes: VecDeque<ProjectionOutcome>,
}

impl CheckpointProjector for QueueProjector {
    fn project(
        &mut self,
        _target: &DeliveryTarget,
        _checkpoint: &ProgressCheckpoint,
    ) -> ProjectionOutcome {
        self.outcomes.pop_front().unwrap()
    }
}

#[test]
fn sync_preserves_partial_success_and_retries_failed_delivery() {
    let mut recorder = ProgressRecorder::open_in_memory().unwrap();
    recorder.record(&checkpoint("cp-6"), &targets()).unwrap();
    let mut first_pass = QueueProjector {
        outcomes: VecDeque::from([
            ProjectionOutcome::Synced,
            ProjectionOutcome::Failed {
                message: "workspace unavailable".to_owned(),
            },
        ]),
    };

    assert_eq!(
        recorder.sync_pending(&mut first_pass).unwrap(),
        SyncSummary {
            attempted: 2,
            synced: 1,
            conflict: 0,
            failed: 1,
        }
    );
    let partial = recorder.status("cp-6").unwrap();
    assert_eq!(partial.deliveries[0].status, DeliveryStatus::Synced);
    assert_eq!(partial.deliveries[1].status, DeliveryStatus::Failed);

    let mut retry = QueueProjector {
        outcomes: VecDeque::from([ProjectionOutcome::Synced]),
    };
    assert_eq!(recorder.sync_pending(&mut retry).unwrap().synced, 1);
    let complete = recorder.status("cp-6").unwrap();
    assert!(complete
        .deliveries
        .iter()
        .all(|delivery| delivery.status == DeliveryStatus::Synced));
    assert_eq!(complete.deliveries[1].attempts, 2);
}

#[test]
fn conflict_delivery_is_not_retried() {
    let mut recorder = ProgressRecorder::open_in_memory().unwrap();
    recorder
        .record(
            &checkpoint("cp-7"),
            &[DeliveryTarget {
                destination_id: "json".to_owned(),
            }],
        )
        .unwrap();
    let mut projector = QueueProjector {
        outcomes: VecDeque::from([ProjectionOutcome::Conflict {
            message: "different payload".to_owned(),
        }]),
    };
    assert_eq!(recorder.sync_pending(&mut projector).unwrap().conflict, 1);

    let mut should_not_run = QueueProjector {
        outcomes: VecDeque::new(),
    };
    assert_eq!(
        recorder
            .sync_pending(&mut should_not_run)
            .unwrap()
            .attempted,
        0
    );
}

#[test]
fn delivery_messages_are_sanitized_and_bounded() {
    let mut recorder = ProgressRecorder::open_in_memory().unwrap();
    recorder
        .record(
            &checkpoint("cp-8"),
            &[DeliveryTarget {
                destination_id: "json".to_owned(),
            }],
        )
        .unwrap();
    let long = format!("a\u{7}b\nc\td\r{}", "x".repeat(2_000));
    let mut projector = QueueProjector {
        outcomes: VecDeque::from([ProjectionOutcome::Failed { message: long }]),
    };
    recorder.sync_pending(&mut projector).unwrap();
    let status = recorder.status("cp-8").unwrap();
    let message = status.deliveries[0].last_error.clone().unwrap();
    assert!(message.starts_with("ab\nc\tdx"));
    assert_eq!(message.chars().count(), MAX_DELIVERY_MESSAGE);
    assert_eq!(status.deliveries[0].attempts, 1);
}

#[test]
fn read_of_an_unknown_checkpoint_is_not_found() {
    let recorder = ProgressRecorder::open_in_memory().unwrap();
    assert_eq!(
        recorder.status("missing"),
        Err(ProgressError::CheckpointNotFound {
            checkpoint_id: "missing".to_owned()
        })
    );
    assert!(matches!(
        recorder.status(""),
        Err(ProgressError::InvalidCheckpoint(_))
    ));
}

#[test]
fn duplicate_destinations_are_refused() {
    let mut recorder = ProgressRecorder::open_in_memory().unwrap();
    let doubled = vec![
        DeliveryTarget {
            destination_id: "json".to_owned(),
        },
        DeliveryTarget {
            destination_id: "json".to_owned(),
        },
    ];
    match recorder.record(&checkpoint("cp-9"), &doubled) {
        Err(ProgressError::InvalidCheckpoint(error)) => {
            assert_eq!(error.field, "destinations");
            assert_eq!(error.message, "contains duplicate destination IDs");
        }
        other => panic!("unexpected {other:?}"),
    }
    assert!(recorder.entries().is_empty());
}

#[test]
fn deliveries_are_sorted_by_destination() {
    let mut recorder = ProgressRecorder::open_in_memory().unwrap();
    let reversed = vec![
        DeliveryTarget {
            destination_id: "zettelkasten".to_owned(),
        },
        DeliveryTarget {
            destination_id: "json".to_owned(),
        },
    ];
    let receipt = recorder.record(&checkpoint("cp-10"), &reversed).unwrap();
    let ids: Vec<&str> = receipt
        .deliveries
        .iter()
        .map(|delivery| delivery.destination_id.as_str())
        .collect();
    assert_eq!(ids, vec!["json", "zettelkasten"]);
    // The same set in another order is the same delivery set.
    assert!(recorder.record(&checkpoint("cp-10"), &targets()).unwrap().duplicate);
}

#[test]
fn checkpoint_validation_reports_the_first_problem() {
    let mut bad = checkpoint("cp-11");
    bad.schema_version = "v1".to_owned();
    let error = bad.validate().unwrap_err();
    assert_eq!(error.field, "schema_version");
    assert_eq!(error.message, "unsupported schema version");

    let mut bad = checkpoint("cp-11");
    bad.recorded_at = "yesterday".to_owned();
    let error = bad.validate().unwrap_err();
    assert_eq!(error.field, "recorded_at");
    assert_eq!(error.message, "must be RFC 3339 date-time");

    let mut bad = checkpoint("cp-11");
    bad.changed_paths = vec!["a.rs".to_owned(), "a.rs".to_owned()];
    let error = bad.validate().unwrap_err();
    assert_eq!(error.field, "changed_paths");
    assert_eq!(error.message, "contains duplicate items");

    let mut bad = checkpoint("cp-11");
    bad.summary = String::new();
    assert_eq!(bad.validate().unwrap_err().field, "summary");

    assert_eq!(checkpoint("cp-11").validate(), Ok(()));
}

#[test]
fn safe_relative_paths() {
    assert!(is_safe_relative_path("src/lib.rs"));
    assert!(is_safe_relative_path("a/..b/c"));
    assert!(!is_safe_relative_path("/etc/passwd"));
    assert!(!is_safe_relative_path("\\share"));
    assert!(!is_safe_relative_path("C:relative"));
    assert!(!is_safe_relative_path("a/../b"));
    assert!(!is_safe_relative_path("a\\.."));
}

#[test]
fn delivery_status_names_round_trip() {
    for status in [
        DeliveryStatus::Pending,
        DeliveryStatus::Synced,
        DeliveryStatus::Conflict,
        DeliveryStatus::Failed,
    ] {
        assert_eq!(DeliveryStatus::from_db(status.as_db()), Some(status));
    }
    assert_eq!(DeliveryStatus::Pending.as_db(), "pending");
    assert_eq!(DeliveryStatus::from_db("done"), None);
}

#[test]
fn restore_refuses_an_inconsistent_ledger() {
    let entry = LedgerEntry {
        checkpoint: checkpoint("cp-12"),
        deliveries: vec![
            DeliveryRow {
                destination_id: "b".to_owned(),
                status: DeliveryStatus::Pending,
                attempts: 0,
                last_error: None,
            },
            DeliveryRow {
                destination_id: "a".to_owned(),
                status: DeliveryStatus::Pending,
                attempts: 0,
                last_error: None,
            },
        ],
    };
    assert!(matches!(
        ProgressRecorder::restore(vec![entry]),
        Err(ProgressError::CorruptState { .. })
    ));
    let twice = vec![
        LedgerEntry {
            checkpoint: checkpoint("cp-13"),
            deliveries: Vec::new(),
        },
        LedgerEntry {
            checkpoint: checkpoint("cp-13"),
            deliveries: Vec::new(),
        },
    ];
    assert!(matches!(
        ProgressRecorder::restore(twice),
        Err(ProgressError::CorruptState { .. })
    ));
}

fn query(limit: u16, before: Option<&str>) -> CheckpointQuery {
    CheckpointQuery {
        project_id: "core".to_owned(),
        work_item_id: None,
        before_checkpoint_id: before.map(str::to_owned),
        limit,
    }
}

#[test]
fn list_pages_newest_first_with_a_cursor() {
    let mut recorder = ProgressRecorder::open_in_memory().unwrap();
    for id in ["cp-a", "cp-b", "cp-c"] {
        recorder.record(&checkpoint(id), &[]).unwrap();
    }
    let mut other = checkpoint("cp-other");
    other.project_id = "elsewhere".to_owned();
    recorder.record(&other, &[]).unwrap();

    let first = recorder.list(&query(2, None)).unwrap();
    let ids: Vec<&str> = first
        .checkpoints
        .iter()
        .map(|status| status.checkpoint.checkpoint_id.as_str())
        .collect();
    assert_eq!(ids, vec!["cp-c", "cp-b"]);
    assert_eq!(first.next_cursor.as_deref(), Some("cp-b"));

    let second = recorder.list(&query(2, Some("cp-b"))).unwrap();
    let ids: Vec<&str> = second
        .checkpoints
        .iter()
        .map(|status| status.checkpoint.checkpoint_id.as_str())
        .collect();
    assert_eq!(ids, vec!["cp-a"]);
    assert_eq!(second.next_cursor, None);

    assert!(matches!(
        recorder.list(&query(0, None)),
        Err(ProgressError::InvalidCheckpoint(_))
    ));
    assert!(matches!(
        recorder.list(&query(101, None)),
        Err(ProgressError::InvalidCheckpoint(_))
    ));
}
