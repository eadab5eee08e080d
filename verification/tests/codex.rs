use std::cell::RefCell;
use std::rc::Rc;

use gareji::codex::{
    bounded_text, event_lines, payload_from_json, prepare, translate_events, translate_output,
    validate_payload,
    BoundedOutput, CodexInvocation, CodexRunPayload, ProcessOutput, CONTEXT_READ_CAPABILITY,
    WORKSPACE_WRITE_CAPABILITY,
};
use gareji::json::{parse_json_text, JsonValue};
use gareji::policy::{ApprovalSource, ApprovalSourceError, CapabilityPolicy};
use gareji::runner::{
    AuthorizedRunnerRequest, CoreRunRequest, CoreRunResult, RunExecutor, RunnerAdapter,
    RunnerFailureCategory, RunnerOutcome, RunnerReport,
};

struct NoApprovals;

impl ApprovalSource for NoApprovals {
    fn approved_capabilities(&self, _operation_id: &str) -> Result<Vec<String>, ApprovalSourceError> {
        Ok(Vec::new())
    }
}

/// Runs the library's Codex decisions around a scripted process instead of a real one.
struct StubCodex {
    invocation: Rc<RefCell<Option<(CodexInvocation, u32)>>>,
    output: fn() -> ProcessOutput,
}

impl RunnerAdapter for StubCodex {
    fn execute(&mut self, request: &AuthorizedRunnerRequest) -> RunnerReport {
        let payload = payload_from_json(request.payload());
        match prepare(request, payload, true) {
            Err(report) => report,
            Ok(invocation) => {
                self.invocation
                    .replace(Some((invocation, request.timeout_seconds())));
                let output = (self.output)();
                translate_output(&output, request.timeout_seconds())
            }
        }
    }
}

fn text(value: &str) -> JsonValue {
    JsonValue::Str(value.to_owned())
}

fn object(members: Vec<(&str, JsonValue)>) -> JsonValue {
    JsonValue::Object(
        members
            .into_iter()
            .map(|(key, value)| (key.to_owned(), value))
            .collect(),
    )
}

fn number(value: &str) -> JsonValue {
    JsonValue::Number(value.to_owned())
}

fn bounded(value: &str) -> BoundedOutput {
    BoundedOutput {
        bytes: value.as_bytes().to_vec(),
        exceeded: false,
    }
}

/// The events of `success_output`, as parsed: object members come out ordered by key.
fn success_events() -> Vec<Option<JsonValue>> {
    vec![
        Some(object(vec![
            ("thread_id", text("thread-1")),
            ("type", text("thread.started")),
        ])),
        Some(object(vec![("type", text("turn.started"))])),
        Some(object(vec![
            (
                "item",
                object(vec![
                    ("id", text("item-1")),
                    ("text", text("Implemented the requested change.")),
                    ("type", text("agent_message")),
                ]),
            ),
            ("type", text("item.completed")),
        ])),
        Some(object(vec![
            ("type", text("turn.completed")),
            (
                "usage",
                object(vec![
                    ("input_tokens", number("10")),
                    ("output_tokens", number("5")),
                ]),
            ),
        ])),
    ]
}

fn success_output() -> ProcessOutput {
    ProcessOutput {
        exit_code: Some(0),
        timed_out: false,
        stdout: bounded(
            "{\"type\":\"thread.started\",\"thread_id\":\"thread-1\"}\n\
             {\"type\":\"turn.started\"}\n\
             {\"type\":\"item.completed\",\"item\":{\"id\":\"item-1\",\"type\":\"agent_message\",\"text\":\"Implemented the requested change.\"}}\n\
             {\"type\":\"turn.completed\",\"usage\":{\"input_tokens\":10,\"output_tokens\":5}}\n",
        ),
        stderr: bounded("progress only"),
    }
}

fn stub_adapter(
    output: fn() -> ProcessOutput,
) -> (StubCodex, Rc<RefCell<Option<(CodexInvocation, u32)>>>) {
    let invocation = Rc::new(RefCell::new(None));
    (
        StubCodex {
            invocation: Rc::clone(&invocation),
            output,
        },
        invocation,
    )
}

fn executor(adapter: StubCodex, allowed: &[&str]) -> RunExecutor<NoApprovals, StubCodex> {
    RunExecutor::new(
        CapabilityPolicy::new(set(allowed), Vec::new()).unwrap(),
        NoApprovals,
        adapter,
    )
}

fn set(values: &[&str]) -> Vec<String> {
    values.iter().map(|value| (*value).to_owned()).collect()
}

fn request(capabilities: &[&str]) -> CoreRunRequest {
    CoreRunRequest {
        run_id: "run-1".to_owned(),
        timeout_seconds: 30,
        requested_capabilities: set(capabilities),
        payload: object(vec![
            ("prompt", text("Implement the feature.")),
            ("workspace", text("/work/project")),
            ("model", text("gpt-test")),
        ]),
    }
}

fn has_pair(args: &[String], first: &str, second: &str) -> bool {
    args.windows(2)
        .any(|pair| pair[0] == first && pair[1] == second)
}

fn finished(result: CoreRunResult) -> RunnerReport {
    match result {
        CoreRunResult::Finished { report, .. } => report,
        CoreRunResult::Rejected { .. } => panic!("expected finished result"),
    }
}

fn assert_failure(report: &RunnerReport, category: RunnerFailureCategory, code: &str) {
    assert_eq!(report.outcome, RunnerOutcome::Failed);
    let failure = report.failure.as_ref().unwrap();
    assert_eq!(failure.category, category);
    assert_eq!(failure.code, code);
}

#[test]
fn executes_jsonl_codex_with_the_authorized_workspace_sandbox() {
    let (adapter, invocation) = stub_adapter(success_output);
    let mut executor = executor(
        adapter,
        &[CONTEXT_READ_CAPABILITY, WORKSPACE_WRITE_CAPABILITY],
    );

    let report = finished(
        executor
            .execute(request(&[CONTEXT_READ_CAPABILITY, WORKSPACE_WRITE_CAPABILITY]))
            .unwrap(),
    );

    assert_eq!(report.outcome, RunnerOutcome::Succeeded);
    assert_eq!(report.summary, "Implemented the requested change.");
    assert_eq!(
        report.payload,
        object(vec![
            ("final_output", text("Implemented the requested change.")),
            ("thread_id", text("thread-1")),
            (
                "usage",
                object(vec![
                    ("input_tokens", number("10")),
                    ("output_tokens", number("5")),
                ])
            ),
        ])
    );
    let invocation = invocation.borrow();
    let (invocation, timeout) = invocation.as_ref().unwrap();
    assert!(has_pair(&invocation.args, "--sandbox", "workspace-write"));
    assert!(has_pair(&invocation.args, "--disable", "hooks"));
    assert!(has_pair(
        &invocation.args,
        "--config",
        "web_search=\"disabled\""
    ));
    assert!(has_pair(&invocation.args, "--config", "mcp_servers={}"));
    assert!(has_pair(&invocation.args, "--model", "gpt-test"));
    assert_eq!(invocation.args.last().map(String::as_str), Some("-"));
    assert_eq!(invocation.prompt, "Implement the feature.");
    assert_eq!(invocation.workspace, "/work/project");
    assert_eq!(*timeout, 30);
}

#[test]
fn defaults_to_read_only_without_workspace_write() {
    let (adapter, invocation) = stub_adapter(success_output);
    let mut executor = executor(adapter, &[CONTEXT_READ_CAPABILITY]);

    executor.execute(request(&[CONTEXT_READ_CAPABILITY])).unwrap();

    assert!(has_pair(
        &invocation.borrow().as_ref().unwrap().0.args,
        "--sandbox",
        "read-only"
    ));
}

#[test]
fn rejects_capabilities_it_cannot_enforce_without_invoking_codex() {
    let (adapter, invocation) = stub_adapter(success_output);
    let mut executor = executor(adapter, &["production.write"]);

    let report = finished(executor.execute(request(&["production.write"])).unwrap());

    assert_failure(
        &report,
        RunnerFailureCategory::Configuration,
        "unsupported_capability",
    );
    assert_eq!(
        report.payload,
        object(vec![("unsupported_capability", text("production.write"))])
    );
    assert!(invocation.borrow().is_none());
}

fn timeout_output() -> ProcessOutput {
    ProcessOutput {
        exit_code: None,
        timed_out: true,
        stdout: bounded(""),
        stderr: bounded("secret stderr"),
    }
}

fn invalid_jsonl_output() -> ProcessOutput {
    ProcessOutput {
        exit_code: Some(0),
        timed_out: false,
        stdout: bounded("not-json\n"),
        stderr: bounded(""),
    }
}

#[test]
fn maps_timeout_and_invalid_jsonl_to_stable_failures() {
    let (adapter, _) = stub_adapter(timeout_output);
    let mut timeout_executor = executor(adapter, &[CONTEXT_READ_CAPABILITY]);
    let report = finished(
        timeout_executor
            .execute(request(&[CONTEXT_READ_CAPABILITY]))
            .unwrap(),
    );
    assert_failure(&report, RunnerFailureCategory::Timeout, "codex_timeout");
    assert_eq!(
        report.payload,
        object(vec![("timeout_seconds", number("30"))])
    );
    assert!(!format!("{report:?}").contains("secret"));

    let (adapter, _) = stub_adapter(invalid_jsonl_output);
    let mut protocol_executor = executor(adapter, &[CONTEXT_READ_CAPABILITY]);
    let report = finished(
        protocol_executor
            .execute(request(&[CONTEXT_READ_CAPABILITY]))
            .unwrap(),
    );
    assert_failure(
        &report,
        RunnerFailureCategory::Protocol,
        "invalid_codex_jsonl",
    );
}

fn malformed_usage_output() -> ProcessOutput {
    ProcessOutput {
        exit_code: Some(0),
        timed_out: false,
        stdout: bounded("{\"type\":\"turn.completed\",\"usage\":{\"input_tokens\":\"ten\"}}\n"),
        stderr: bounded(""),
    }
}

#[test]
fn rejects_malformed_usage_in_a_known_completion_event() {
    let (adapter, _) = stub_adapter(malformed_usage_output);
    let mut executor = executor(adapter, &[CONTEXT_READ_CAPABILITY]);

    let report = finished(executor.execute(request(&[CONTEXT_READ_CAPABILITY])).unwrap());

    assert_failure(
        &report,
        RunnerFailureCategory::Protocol,
        "invalid_turn_completed",
    );
}

fn nonzero_output() -> ProcessOutput {
    ProcessOutput {
        exit_code: Some(2),
        timed_out: false,
        stdout: bounded("{\"type\":\"thread.started\",\"thread_id\":\"thread-1\"}\n"),
        stderr: bounded("credential-shaped stderr"),
    }
}

#[test]
fn maps_nonzero_exit_without_persisting_stderr() {
    let (adapter, _) = stub_adapter(nonzero_output);
    let mut executor = executor(adapter, &[CONTEXT_READ_CAPABILITY]);

    let report = finished(executor.execute(request(&[CONTEXT_READ_CAPABILITY])).unwrap());

    assert_failure(
        &report,
        RunnerFailureCategory::Execution,
        "codex_exit_nonzero",
    );
    assert_eq!(
        report.payload,
        object(vec![("exit_code", number("2")), ("thread_id", text("thread-1"))])
    );
    assert!(!format!("{report:?}").contains("credential"));
}

#[test]
fn rejects_invalid_adapter_payload_before_invoking_codex() {
    let (adapter, invocation) = stub_adapter(success_output);
    let mut executor = executor(adapter, &[CONTEXT_READ_CAPABILITY]);
    let request = CoreRunRequest {
        run_id: "run-1".to_owned(),
        timeout_seconds: 30,
        requested_capabilities: set(&[CONTEXT_READ_CAPABILITY]),
        payload: object(vec![("prompt", text("missing workspace"))]),
    };

    let report = finished(executor.execute(request).unwrap());

    assert_failure(
        &report,
        RunnerFailureCategory::Configuration,
        "invalid_codex_payload",
    );
    assert!(invocation.borrow().is_none());
}

#[test]
fn payload_decoding_follows_the_payload_shape() {
    let decoded = payload_from_json(&object(vec![
        ("workspace", text("/w")),
        ("prompt", text("p")),
    ]))
    .unwrap();
    assert_eq!(
        decoded,
        CodexRunPayload {
            prompt: "p".to_owned(),
            workspace: "/w".to_owned(),
            model: None
        }
    );
    let null_model = payload_from_json(&object(vec![
        ("prompt", text("p")),
        ("workspace", text("/w")),
        ("model", JsonValue::Null),
    ]))
    .unwrap();
    assert_eq!(null_model.model, None);
    assert!(payload_from_json(&object(vec![
        ("prompt", text("p")),
        ("workspace", text("/w")),
        ("extra", text("x")),
    ]))
    .is_none());
    assert!(payload_from_json(&object(vec![
        ("prompt", text("p")),
        ("prompt", text("q")),
        ("workspace", text("/w")),
    ]))
    .is_none());
    assert!(payload_from_json(&object(vec![
        ("prompt", number("1")),
        ("workspace", text("/w")),
    ]))
    .is_none());
    assert!(payload_from_json(&text("p")).is_none());
}

#[test]
fn payload_validation_reports_the_first_problem() {
    let payload = CodexRunPayload {
        prompt: " ".to_owned(),
        workspace: "/w".to_owned(),
        model: None,
    };
    assert_eq!(validate_payload(&payload, true).unwrap_err().code, "invalid_prompt");
    let payload = CodexRunPayload {
        prompt: "do it".to_owned(),
        workspace: "relative".to_owned(),
        model: None,
    };
    assert_eq!(
        validate_payload(&payload, false).unwrap_err().code,
        "invalid_workspace"
    );
    let payload = CodexRunPayload {
        prompt: "do it".to_owned(),
        workspace: "/w".to_owned(),
        model: Some("bad\nmodel".to_owned()),
    };
    assert_eq!(validate_payload(&payload, true).unwrap_err().code, "invalid_model");
}

#[test]
fn jsonl_lines_drop_blanks_and_carriage_returns() {
    assert_eq!(
        event_lines("a\r\n\n  \nb\nc"),
        vec!["a".to_owned(), "b".to_owned(), "c".to_owned()]
    );
    assert!(event_lines("").is_empty());
}

#[test]
fn bounded_text_replaces_controls_and_truncates() {
    assert_eq!(bounded_text("ab\u{1}c\nd", 100), "ab c\nd");
    assert_eq!(bounded_text("abcdef", 3), "abc");
    assert_eq!(bounded_text("\u{1}\u{2}", 10), "Codex returned an empty result");
}

#[test]
fn retained_output_stops_at_its_limit() {
    let mut output = BoundedOutput::new();
    output.retain(b"abc", 5);
    output.retain(b"def", 5);
    assert_eq!(output.bytes, b"abcde");
    assert!(output.exceeded);
}

#[test]
fn stdout_that_is_not_utf8_is_a_protocol_failure() {
    let output = ProcessOutput {
        exit_code: Some(0),
        timed_out: false,
        stdout: BoundedOutput {
            bytes: vec![0xff, 0xfe],
            exceeded: false,
        },
        stderr: bounded(""),
    };
    assert_eq!(gareji::codex::stdout_text(&output), None);
    let report = translate_output(&output, 30);
    assert_failure(&report, RunnerFailureCategory::Protocol, "invalid_codex_utf8");
    let good = ProcessOutput {
        stdout: bounded("héllo"),
        ..output
    };
    assert_eq!(gareji::codex::stdout_text(&good).as_deref(), Some("héllo"));
}

#[test]
fn cancelled_exit_is_reported_as_cancelled() {
    let output = ProcessOutput {
        exit_code: Some(130),
        timed_out: false,
        stdout: bounded(""),
        stderr: bounded(""),
    };
    let report = translate_output(&output, 30);
    assert_eq!(report.outcome, RunnerOutcome::Cancelled);
    assert_eq!(
        report.failure.unwrap().category,
        RunnerFailureCategory::Cancelled
    );
}

#[test]
fn stdout_lines_are_parsed_as_json_events() {
    let output = success_output();
    let text = gareji::codex::stdout_text(&output).unwrap();
    let events: Vec<Option<JsonValue>> = event_lines(&text)
        .iter()
        .map(|line| parse_json_text(line))
        .collect();
    assert_eq!(events, success_events());
    assert_eq!(parse_json_text("not-json"), None);
    assert_eq!(parse_json_text("[1, true, null]"), Some(JsonValue::Array(vec![
        number("1"),
        JsonValue::Bool(true),
        JsonValue::Null,
    ])));
    let from_events = translate_events(&output, Some(&events), 30);
    assert_eq!(translate_output(&output, 30), from_events);
}
