use std::cell::{Cell, RefCell};
use std::rc::Rc;

use gareji::json::JsonValue;
use gareji::policy::{ApprovalSource, ApprovalSourceError, CapabilityPolicy};
use gareji::runner::{
    validate_json, validate_report, AuthorizedRunnerRequest, CoreRunError, CoreRunRequest,
    CoreRunResult, EvidenceReference, RunContractViolation, RunExecutor, RunnerAdapter,
    RunnerFailure, RunnerFailureCategory, RunnerOutcome, RunnerReport, MAX_JSON_DEPTH,
    MAX_RESULT_BYTES,
};

fn set(values: &[&str]) -> Vec<String> {
    values.iter().map(|value| (*value).to_owned()).collect()
}

struct StaticApprovals {
    approved: Vec<String>,
    fail: bool,
}

impl ApprovalSource for StaticApprovals {
    fn approved_capabilities(&self, _operation_id: &str) -> Result<Vec<String>, ApprovalSourceError> {
        if self.fail {
            Err(ApprovalSourceError::new("board_unavailable"))
        } else {
            Ok(self.approved.clone())
        }
    }
}

type Captured = Rc<RefCell<Option<(String, u32, Vec<String>, bool)>>>;

struct RecordingRunner {
    calls: Rc<Cell<usize>>,
    request: Captured,
    report: fn() -> RunnerReport,
}

impl RunnerAdapter for RecordingRunner {
    fn execute(&mut self, request: &AuthorizedRunnerRequest) -> RunnerReport {
        self.calls.set(self.calls.get() + 1);
        self.request.replace(Some((
            request.run_id().to_owned(),
            request.timeout_seconds(),
            request.authorized_capabilities().clone(),
            request.payload() == &task_payload(),
        )));
        (self.report)()
    }
}

type TestExecutor = RunExecutor<StaticApprovals, RecordingRunner>;

fn task_payload() -> JsonValue {
    JsonValue::Object(vec![("task".to_owned(), JsonValue::Str("opaque".to_owned()))])
}

fn success_report() -> RunnerReport {
    RunnerReport {
        outcome: RunnerOutcome::Succeeded,
        summary: "implementation verified".to_owned(),
        payload: JsonValue::Object(vec![(
            "revision".to_owned(),
            JsonValue::Str("abc123".to_owned()),
        )]),
        evidence: vec![EvidenceReference {
            kind: "git_revision".to_owned(),
            reference: "abc123".to_owned(),
        }],
        failure: None,
    }
}

fn executor(
    allowed: &[&str],
    approval_required: &[&str],
    approved: &[&str],
    fail_approvals: bool,
    report: fn() -> RunnerReport,
) -> (TestExecutor, Rc<Cell<usize>>, Captured) {
    let calls = Rc::new(Cell::new(0));
    let captured = Rc::new(RefCell::new(None));
    let policy = CapabilityPolicy::new(set(allowed), set(approval_required)).unwrap();
    let executor = RunExecutor::new(
        policy,
        StaticApprovals {
            approved: set(approved),
            fail: fail_approvals,
        },
        RecordingRunner {
            calls: Rc::clone(&calls),
            request: Rc::clone(&captured),
            report,
        },
    );
    (executor, calls, captured)
}

fn request(capabilities: &[&str]) -> CoreRunRequest {
    CoreRunRequest {
        run_id: "run-1".to_owned(),
        timeout_seconds: 1_200,
        requested_capabilities: set(capabilities),
        payload: task_payload(),
    }
}

#[test]
fn invokes_runner_once_with_only_sorted_authorized_capabilities() {
    let (mut executor, calls, captured) = executor(
        &["workspace.write", "context.read"],
        &[],
        &[],
        false,
        success_report,
    );

    let result = executor
        .execute(request(&["workspace.write", "context.read"]))
        .unwrap();

    assert_eq!(calls.get(), 1);
    assert_eq!(
        captured.borrow().as_ref().unwrap(),
        &(
            "run-1".to_owned(),
            1_200,
            vec!["context.read".to_owned(), "workspace.write".to_owned()],
            true
        )
    );
    assert!(matches!(
        result,
        CoreRunResult::Finished {
            report: RunnerReport {
                outcome: RunnerOutcome::Succeeded,
                ..
            },
            ..
        }
    ));
}

#[test]
fn policy_rejection_never_invokes_runner() {
    let (mut executor, calls, _) = executor(&["context.read"], &[], &[], false, success_report);

    let result = executor.execute(request(&["workspace.write"])).unwrap();

    assert_eq!(calls.get(), 0);
    assert!(matches!(result, CoreRunResult::Rejected { .. }));
}

#[test]
fn unavailable_approval_source_fails_closed_before_runner() {
    let (mut executor, calls, _) = executor(
        &["workspace.write"],
        &["workspace.write"],
        &["workspace.write"],
        true,
        success_report,
    );

    let error = executor.execute(request(&["workspace.write"])).unwrap_err();

    assert_eq!(calls.get(), 0);
    assert!(matches!(error, CoreRunError::Authorization(_)));
}

#[test]
fn invalid_request_fails_before_approval_or_runner() {
    let (mut executor, calls, _) = executor(&["context.read"], &[], &[], false, success_report);
    let mut invalid = request(&["context.read"]);
    invalid.run_id = "bad\nrun".to_owned();

    let error = executor.execute(invalid).unwrap_err();

    assert_eq!(calls.get(), 0);
    assert!(matches!(
        error,
        CoreRunError::InvalidRequest(RunContractViolation::InvalidRunId)
    ));
}

fn empty_summary_report() -> RunnerReport {
    let mut report = success_report();
    report.summary.clear();
    report
}

#[test]
fn invalid_runner_report_is_not_forwarded() {
    let (mut executor, calls, _) =
        executor(&["context.read"], &[], &[], false, empty_summary_report);

    let error = executor.execute(request(&["context.read"])).unwrap_err();

    assert_eq!(calls.get(), 1);
    assert!(matches!(
        error,
        CoreRunError::InvalidRunnerReport(RunContractViolation::InvalidSummary)
    ));
}

fn timeout_report() -> RunnerReport {
    RunnerReport {
        outcome: RunnerOutcome::Failed,
        summary: "runtime timed out".to_owned(),
        payload: JsonValue::Object(Vec::new()),
        evidence: Vec::new(),
        failure: Some(RunnerFailure {
            category: RunnerFailureCategory::Timeout,
            code: "run_timeout".to_owned(),
            message: "runtime exceeded its deadline".to_owned(),
        }),
    }
}

#[test]
fn accepts_bounded_failed_report() {
    let (mut executor, _, _) = executor(&["context.read"], &[], &[], false, timeout_report);

    assert_eq!(
        executor.execute(request(&["context.read"])).unwrap(),
        CoreRunResult::Finished {
            run_id: "run-1".to_owned(),
            authorized_capabilities: vec!["context.read".to_owned()],
            report: timeout_report(),
        }
    );
}

fn oversized_report() -> RunnerReport {
    let mut report = success_report();
    report.payload = JsonValue::Str("x".repeat(MAX_RESULT_BYTES));
    report
}

#[test]
fn enforces_json_depth_and_result_size_limits() {
    let mut deep = JsonValue::Null;
    for _ in 0..MAX_JSON_DEPTH {
        deep = JsonValue::Array(vec![deep]);
    }
    let (mut deep_executor, calls, _) =
        executor(&["context.read"], &[], &[], false, success_report);
    let mut deep_request = request(&["context.read"]);
    deep_request.payload = deep;

    assert!(matches!(
        deep_executor.execute(deep_request),
        Err(CoreRunError::InvalidRequest(
            RunContractViolation::PayloadTooDeep
        ))
    ));
    assert_eq!(calls.get(), 0);

    let (mut oversized_executor, calls, _) =
        executor(&["context.read"], &[], &[], false, oversized_report);

    assert!(matches!(
        oversized_executor.execute(request(&["context.read"])),
        Err(CoreRunError::InvalidRunnerReport(
            RunContractViolation::PayloadTooLarge
        ))
    ));
    assert_eq!(calls.get(), 1);
}

fn cancelled_with_execution_category() -> RunnerReport {
    RunnerReport {
        outcome: RunnerOutcome::Cancelled,
        summary: "cancelled by operator".to_owned(),
        payload: JsonValue::Null,
        evidence: Vec::new(),
        failure: Some(RunnerFailure {
            category: RunnerFailureCategory::Execution,
            code: "operator_cancelled".to_owned(),
            message: "operator cancelled the run".to_owned(),
        }),
    }
}

#[test]
fn cancellation_requires_cancelled_failure_category() {
    let (mut executor, calls, _) = executor(
        &["context.read"],
        &[],
        &[],
        false,
        cancelled_with_execution_category,
    );

    assert!(matches!(
        executor.execute(request(&["context.read"])),
        Err(CoreRunError::InvalidRunnerReport(
            RunContractViolation::FailureOutcomeMismatch
        ))
    ));
    assert_eq!(calls.get(), 1);
}

#[test]
fn nesting_one_below_the_limit_is_accepted() {
    let mut deep = JsonValue::Null;
    for _ in 0..MAX_JSON_DEPTH - 1 {
        deep = JsonValue::Array(vec![deep]);
    }
    assert_eq!(validate_json(&deep, 1_000), Ok(()));
    // Compact encoding of `[[...null...]]` is 4 bytes plus two per level.
    let bytes = 4 + 2 * (MAX_JSON_DEPTH - 1);
    assert_eq!(validate_json(&deep, bytes), Ok(()));
    assert_eq!(
        validate_json(&deep, bytes - 1),
        Err(RunContractViolation::PayloadTooLarge)
    );
}

#[test]
fn string_payload_length_counts_quotes_and_escapes() {
    // "a\"b" encodes as 6 bytes: quote, a, backslash, quote, b, quote.
    let value = JsonValue::Str("a\"b".to_owned());
    assert_eq!(validate_json(&value, 6), Ok(()));
    assert_eq!(
        validate_json(&value, 5),
        Err(RunContractViolation::PayloadTooLarge)
    );
    // An object {"k":1} encodes as 7 bytes.
    let object = JsonValue::Object(vec![("k".to_owned(), JsonValue::Number("1".to_owned()))]);
    assert_eq!(validate_json(&object, 7), Ok(()));
    assert_eq!(
        validate_json(&object, 6),
        Err(RunContractViolation::PayloadTooLarge)
    );
}

#[test]
fn report_violations_cover_every_failure_rule() {
    let mut report = success_report();
    report.failure = Some(RunnerFailure {
        category: RunnerFailureCategory::Execution,
        code: "x".to_owned(),
        message: "m".to_owned(),
    });
    assert_eq!(
        validate_report(&report),
        Err(RunContractViolation::UnexpectedFailure)
    );

    let mut report = success_report();
    report.outcome = RunnerOutcome::Failed;
    assert_eq!(
        validate_report(&report),
        Err(RunContractViolation::MissingFailure)
    );

    let mut report = timeout_report();
    report.failure.as_mut().unwrap().code = "Bad Code".to_owned();
    assert_eq!(
        validate_report(&report),
        Err(RunContractViolation::InvalidFailure)
    );

    let mut report = success_report();
    report.evidence[0].kind = "Git".to_owned();
    assert_eq!(
        validate_report(&report),
        Err(RunContractViolation::InvalidEvidenceReference)
    );

    let mut report = success_report();
    report.evidence = (0..33)
        .map(|_| EvidenceReference {
            kind: "audit".to_owned(),
            reference: "r".to_owned(),
        })
        .collect();
    assert_eq!(
        validate_report(&report),
        Err(RunContractViolation::TooManyEvidenceReferences)
    );

    let mut report = success_report();
    report.summary = "   ".to_owned();
    assert_eq!(
        validate_report(&report),
        Err(RunContractViolation::InvalidSummary)
    );
    assert_eq!(validate_report(&success_report()), Ok(()));
}

#[test]
fn invalid_timeout_is_refused_before_authorization() {
    let (mut executor, calls, _) = executor(&["context.read"], &[], &[], false, success_report);
    let mut invalid = request(&["context.read"]);
    invalid.timeout_seconds = 0;
    assert!(matches!(
        executor.execute(invalid),
        Err(CoreRunError::InvalidRequest(RunContractViolation::InvalidTimeout))
    ));
    let mut invalid = request(&["context.read"]);
    invalid.timeout_seconds = 86_401;
    assert!(matches!(
        executor.execute(invalid),
        Err(CoreRunError::InvalidRequest(RunContractViolation::InvalidTimeout))
    ));
    assert_eq!(calls.get(), 0);
}
