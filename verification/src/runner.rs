//! Policy-enforcing execution seam for replaceable Runner Adapters.
//!
//! A Core Run request is validated, authorized by the capability gate, and only
//! then handed to a Runner Adapter, exactly once. The Adapter's report is
//! validated before it reaches the caller.

use vstd::prelude::*;

use crate::json::{add_json_len, json_len, JsonValue};
use crate::ordered::{canonical_set, string_views, strictly_sorted};
use crate::policy::{
    gate_outcome, valid_capability, ApprovalSource, CapabilityGate, CapabilityPolicy,
    ExecutionIntent, GateError, PolicyDecision, PolicyRejection,
};
use crate::text::{
    char_len, has_visible_char, no_control, only_layout_controls, text_has_no_control,
    text_has_visible_char, text_only_layout_controls,
};

verus! {

pub const MAX_RUN_ID_CHARS: usize = 128;

pub const MAX_TIMEOUT_SECONDS: u32 = 86_400;

pub const MAX_REQUEST_BYTES: usize = 1_048_576;

pub const MAX_RESULT_BYTES: usize = 262_144;

pub const MAX_JSON_DEPTH: usize = 64;

pub const MAX_JSON_NODES: usize = 100_000;

pub const MAX_SUMMARY_CHARS: usize = 4_096;

pub const MAX_FAILURE_MESSAGE_CHARS: usize = 2_048;

pub const MAX_EVIDENCE_REFERENCES: usize = 32;

pub const MAX_EVIDENCE_REFERENCE_CHARS: usize = 2_048;

/// Stable reason a request or report violated the Runner contract.
#[derive(Clone, Copy, Debug, Eq, PartialEq)]
pub enum RunContractViolation {
    /// The Run identity is empty, too long, or contains control characters.
    InvalidRunId,
    /// The deadline is zero or exceeds the v0 maximum.
    InvalidTimeout,
    /// The JSON payload exceeds its serialized byte limit.
    PayloadTooLarge,
    /// The JSON payload exceeds the nesting limit.
    PayloadTooDeep,
    /// The JSON payload exceeds the node-count limit.
    PayloadTooComplex,
    /// The compact summary is empty, too long, or contains unsafe controls.
    InvalidSummary,
    /// The report contains more evidence references than permitted.
    TooManyEvidenceReferences,
    /// An evidence kind or reference violates the bounded contract.
    InvalidEvidenceReference,
    /// A failed or cancelled report omitted its failure.
    MissingFailure,
    /// A successful report unexpectedly included a failure.
    UnexpectedFailure,
    /// Failure category and outcome are inconsistent.
    FailureOutcomeMismatch,
    /// Failure code or message violates the bounded contract.
    InvalidFailure,
}

/// Depth-first walk of a payload, last child first, that stops at the first node deeper than
/// the nesting limit or beyond the node-count limit. `Ok` carries the nodes seen so far.
pub open spec fn walk(v: JsonValue, depth: nat, seen: nat) -> Result<nat, RunContractViolation>
    decreases v,
{
    if depth > MAX_JSON_DEPTH {
        Err(RunContractViolation::PayloadTooDeep)
    } else if seen + 1 > MAX_JSON_NODES {
        Err(RunContractViolation::PayloadTooComplex)
    } else {
        match v {
            JsonValue::Array(items) => walk_items(items@, depth + 1, seen + 1),
            JsonValue::Object(members) => walk_members(members@, depth + 1, seen + 1),
            _ => Ok(seen + 1),
        }
    }
}

pub open spec fn walk_items(s: Seq<JsonValue>, depth: nat, seen: nat) -> Result<
    nat,
    RunContractViolation,
>
    decreases s,
{
    if s.len() == 0 {
        Ok(seen)
    } else {
        match walk(s[s.len() - 1], depth, seen) {
            Err(e) => Err(e),
            Ok(n) => walk_items(s.subrange(0, s.len() - 1), depth, n),
        }
    }
}

pub open spec fn walk_members(s: Seq<(String, JsonValue)>, depth: nat, seen: nat) -> Result<
    nat,
    RunContractViolation,
>
    decreases s,
{
    if s.len() == 0 {
        Ok(seen)
    } else {
        match walk(s[s.len() - 1].1, depth, seen) {
            Err(e) => Err(e),
            Ok(n) => walk_members(s.subrange(0, s.len() - 1), depth, n),
        }
    }
}

/// The payload's violation of the nesting, node-count and byte limits, if any.
pub open spec fn payload_violation(v: JsonValue, max_bytes: nat) -> Option<RunContractViolation> {
    match walk(v, 1, 0) {
        Err(e) => Some(e),
        Ok(_) => if json_len(v) > max_bytes {
            Some(RunContractViolation::PayloadTooLarge)
        } else {
            None
        },
    }
}

fn walk_exec(v: &JsonValue, depth: usize, seen: usize) -> (r: Result<usize, RunContractViolation>)
    requires
        depth <= MAX_JSON_DEPTH + 1,
        seen <= MAX_JSON_NODES,
    ensures
        match walk(*v, depth as nat, seen as nat) {
            Ok(n) => r == Ok::<usize, RunContractViolation>(n as usize) && n <= MAX_JSON_NODES,
            Err(e) => r == Err::<usize, RunContractViolation>(e),
        },
    decreases *v,
{
    if depth > MAX_JSON_DEPTH {
        return Err(RunContractViolation::PayloadTooDeep);
    }
    if seen + 1 > MAX_JSON_NODES {
        return Err(RunContractViolation::PayloadTooComplex);
    }
    match v {
        JsonValue::Array(items) => {
            let mut n = seen + 1;
            let mut i = items.len();
            assert(items@.subrange(0, i as int) =~= items@);
            while i > 0
                invariant
                    i <= items@.len(),
                    n <= MAX_JSON_NODES,
                    depth <= MAX_JSON_DEPTH,
                    *v == JsonValue::Array(*items),
                    walk(*v, depth as nat, seen as nat) == walk_items(
                        items@.subrange(0, i as int),
                        depth as nat + 1,
                        n as nat,
                    ),
                decreases i,
            {
                let item = &items[i - 1];
                assert(*item == items@[i - 1]);
                assert(items@.subrange(0, i as int)[i - 1] == items@[i - 1]);
                assert(items@.subrange(0, i as int).subrange(0, i - 1) =~= items@.subrange(
                    0,
                    i - 1,
                ));
                match walk_exec(item, depth + 1, n) {
                    Err(e) => return Err(e),
                    Ok(m) => {
                        n = m;
                    },
                }
                i = i - 1;
            }
            Ok(n)
        },
        JsonValue::Object(members) => {
            let mut n = seen + 1;
            let mut i = members.len();
            assert(members@.subrange(0, i as int) =~= members@);
            while i > 0
                invariant
                    i <= members@.len(),
                    n <= MAX_JSON_NODES,
                    depth <= MAX_JSON_DEPTH,
                    *v == JsonValue::Object(*members),
                    walk(*v, depth as nat, seen as nat) == walk_members(
                        members@.subrange(0, i as int),
                        depth as nat + 1,
                        n as nat,
                    ),
                decreases i,
            {
                let item = &members[i - 1].1;
                assert(*item == members@[i - 1].1);
                assert(members@.subrange(0, i as int)[i - 1] == members@[i - 1]);
                assert(members@.subrange(0, i as int).subrange(0, i - 1) =~= members@.subrange(
                    0,
                    i - 1,
                ));
                match walk_exec(item, depth + 1, n) {
                    Err(e) => return Err(e),
                    Ok(m) => {
                        n = m;
                    },
                }
                i = i - 1;
            }
            Ok(n)
        },
        _ => Ok(seen + 1),
    }
}

/// Check a payload against the nesting, node-count and encoded byte limits.
pub fn validate_json(v: &JsonValue, max_bytes: usize) -> (r: Result<(), RunContractViolation>)
    requires
        max_bytes <= MAX_REQUEST_BYTES,
    ensures
        match payload_violation(*v, max_bytes as nat) {
            Some(e) => r == Err::<(), RunContractViolation>(e),
            None => r is Ok,
        },
{
    match walk_exec(v, 1, 0) {
        Err(e) => Err(e),
        Ok(_) => {
            let len = add_json_len(v, 0, max_bytes);
            if len > max_bytes {
                Err(RunContractViolation::PayloadTooLarge)
            } else {
                Ok(())
            }
        },
    }
}

/// A stable lowercase token: 1 to 128 ASCII lowercase letters, digits, `.`, `_` or `-`.
pub open spec fn valid_token(s: Seq<char>) -> bool {
    valid_capability(s)
}

/// Text that is not blank, has at most `max` characters and no control other than line feed,
/// carriage return and tab.
pub open spec fn valid_safe_text(s: Seq<char>, max: nat) -> bool {
    has_visible_char(s) && s.len() <= max && only_layout_controls(s)
}

pub fn safe_text_is_valid(s: &str, max: usize) -> (b: bool)
    ensures
        b == valid_safe_text(s@, max as nat),
{
    text_has_visible_char(s) && char_len(s) <= max && text_only_layout_controls(s)
}

/// A Run identity: 1 to 128 characters, none of them a control character.
pub open spec fn valid_run_id(s: Seq<char>) -> bool {
    1 <= s.len() <= MAX_RUN_ID_CHARS && no_control(s)
}

/// Caller-supplied request before Core capability authorization.
#[derive(Debug, PartialEq)]
pub struct CoreRunRequest {
    /// Stable identity for this Core Run and its operation-bound approvals.
    pub run_id: String,
    /// Positive execution deadline supplied to the trusted Runner Adapter.
    pub timeout_seconds: u32,
    /// Capabilities the requested invocation will exercise, taken as a set.
    pub requested_capabilities: Vec<String>,
    /// Runtime-owned structured input kept opaque to Core.
    pub payload: JsonValue,
}

/// The request's contract violation, if any, in the order Core checks them.
pub open spec fn request_violation(request: CoreRunRequest) -> Option<RunContractViolation> {
    if !valid_run_id(request.run_id@) {
        Some(RunContractViolation::InvalidRunId)
    } else if request.timeout_seconds == 0 || request.timeout_seconds > MAX_TIMEOUT_SECONDS {
        Some(RunContractViolation::InvalidTimeout)
    } else {
        payload_violation(request.payload, MAX_REQUEST_BYTES as nat)
    }
}

fn validate_request(request: &CoreRunRequest) -> (r: Result<(), RunContractViolation>)
    ensures
        match request_violation(*request) {
            Some(e) => r == Err::<(), RunContractViolation>(e),
            None => r is Ok,
        },
{
    let n = char_len(request.run_id.as_str());
    if n == 0 || n > MAX_RUN_ID_CHARS || !text_has_no_control(request.run_id.as_str()) {
        return Err(RunContractViolation::InvalidRunId);
    }
    if request.timeout_seconds == 0 || request.timeout_seconds > MAX_TIMEOUT_SECONDS {
        return Err(RunContractViolation::InvalidTimeout);
    }
    validate_json(&request.payload, MAX_REQUEST_BYTES)
}

/// Request delivered to a Runner Adapter only after Core authorization.
#[derive(Debug, PartialEq)]
pub struct AuthorizedRunnerRequest {
    run_id: String,
    timeout_seconds: u32,
    authorized_capabilities: Vec<String>,
    payload: JsonValue,
}

impl AuthorizedRunnerRequest {
    pub closed spec fn spec_run_id(&self) -> Seq<char> {
        self.run_id@
    }

    pub closed spec fn spec_timeout_seconds(&self) -> u32 {
        self.timeout_seconds
    }

    pub closed spec fn spec_capabilities(&self) -> Seq<Seq<char>> {
        string_views(self.authorized_capabilities@)
    }

    pub closed spec fn spec_payload(&self) -> JsonValue {
        self.payload
    }

    /// A request Core authorized: valid identity and deadline, a bounded payload, and an
    /// ascending list of valid capabilities.
    pub open spec fn authorized(&self) -> bool {
        &&& valid_run_id(self.spec_run_id())
        &&& 1 <= self.spec_timeout_seconds() <= MAX_TIMEOUT_SECONDS
        &&& payload_violation(self.spec_payload(), MAX_REQUEST_BYTES as nat) is None
        &&& strictly_sorted(self.spec_capabilities())
        &&& forall|i: int|
            0 <= i < self.spec_capabilities().len() ==> valid_capability(
                #[trigger] self.spec_capabilities()[i],
            )
    }

    /// Stable Core Run identity.
    pub fn run_id(&self) -> (r: &str)
        ensures
            r@ == self.spec_run_id(),
    {
        self.run_id.as_str()
    }

    /// Positive execution deadline in seconds.
    pub fn timeout_seconds(&self) -> (r: u32)
        ensures
            r == self.spec_timeout_seconds(),
    {
        self.timeout_seconds
    }

    /// Sorted capabilities authorized by Core for this exact Run.
    pub fn authorized_capabilities(&self) -> (r: &Vec<String>)
        ensures
            string_views(r@) == self.spec_capabilities(),
    {
        &self.authorized_capabilities
    }

    /// Runtime-owned structured input kept opaque to Core.
    pub fn payload(&self) -> (r: &JsonValue)
        ensures
            *r == self.spec_payload(),
    {
        &self.payload
    }
}

/// Runtime-neutral Adapter that translates one authorized request into one invocation.
pub trait RunnerAdapter: Sized {
    /// Whether one invocation of this Runner with `request` can leave it as `after` and return
    /// `report`. What each implementation does is its own; one that does not state it promises
    /// nothing more of its reports.
    closed spec fn executes(&self, request: AuthorizedRunnerRequest, after: Self, report: RunnerReport) -> bool {
        true
    }

    /// Execute exactly one bounded runtime invocation and return a compact report.
    fn execute(&mut self, request: &AuthorizedRunnerRequest) -> (r: RunnerReport)
        requires
            request.authorized(),
        ensures
            old(self).executes(*request, *final(self), r),
    ;
}

/// Terminal Runner outcome.
#[derive(Clone, Copy, Debug, Eq, PartialEq)]
pub enum RunnerOutcome {
    /// The runtime completed the requested work successfully.
    Succeeded,
    /// The runtime completed with a non-cancellation failure.
    Failed,
    /// The invocation was cancelled before successful completion.
    Cancelled,
}

/// Reference to bounded Run evidence stored outside the compact result.
#[derive(Clone, Debug, Eq, PartialEq)]
pub struct EvidenceReference {
    /// Stable lowercase evidence kind, such as `audit_sidecar` or `git_revision`.
    pub kind: String,
    /// Bounded Adapter-produced reference; never raw evidence content.
    pub reference: String,
}

/// Runtime-neutral Runner failure category.
#[derive(Clone, Copy, Debug, Eq, PartialEq)]
pub enum RunnerFailureCategory {
    Configuration,
    Execution,
    Timeout,
    Cancelled,
    Protocol,
    Evidence,
    Internal,
}

/// Stable bounded Runner failure.
#[derive(Clone, Debug, Eq, PartialEq)]
pub struct RunnerFailure {
    /// Broad runtime-neutral failure category.
    pub category: RunnerFailureCategory,
    /// Stable lowercase Adapter-defined failure code.
    pub code: String,
    /// Safe bounded message without raw runtime output.
    pub message: String,
}

/// Compact runtime-neutral report returned by a Runner Adapter.
#[derive(Debug, PartialEq)]
pub struct RunnerReport {
    /// Terminal outcome of the invocation.
    pub outcome: RunnerOutcome,
    /// Bounded human-readable result summary without a raw transcript.
    pub summary: String,
    /// Runtime-owned compact structured result kept opaque to Core.
    pub payload: JsonValue,
    /// Bounded references to evidence retained outside the compact report.
    pub evidence: Vec<EvidenceReference>,
    /// Stable failure detail required for failed and cancelled outcomes.
    pub failure: Option<RunnerFailure>,
}

pub open spec fn valid_evidence(e: EvidenceReference) -> bool {
    valid_token(e.kind@) && 1 <= e.reference@.len() <= MAX_EVIDENCE_REFERENCE_CHARS && no_control(
        e.reference@,
    )
}

/// The failure's violation for the given outcome, if any.
pub open spec fn failure_violation(outcome: RunnerOutcome, failure: RunnerFailure) -> Option<
    RunContractViolation,
> {
    if !valid_token(failure.code@) || !valid_safe_text(
        failure.message@,
        MAX_FAILURE_MESSAGE_CHARS as nat,
    ) {
        Some(RunContractViolation::InvalidFailure)
    } else if (outcome == RunnerOutcome::Cancelled) != (failure.category
        == RunnerFailureCategory::Cancelled) {
        Some(RunContractViolation::FailureOutcomeMismatch)
    } else {
        None
    }
}

/// The report's contract violation, if any, in the order Core checks them.
pub open spec fn report_violation(report: RunnerReport) -> Option<RunContractViolation> {
    if !valid_safe_text(report.summary@, MAX_SUMMARY_CHARS as nat) {
        Some(RunContractViolation::InvalidSummary)
    } else if payload_violation(report.payload, MAX_RESULT_BYTES as nat) is Some {
        payload_violation(report.payload, MAX_RESULT_BYTES as nat)
    } else if report.evidence@.len() > MAX_EVIDENCE_REFERENCES {
        Some(RunContractViolation::TooManyEvidenceReferences)
    } else if (exists|i: int|
        0 <= i < report.evidence@.len() && !valid_evidence(#[trigger] report.evidence@[i])) {
        Some(RunContractViolation::InvalidEvidenceReference)
    } else {
        match (report.outcome, report.failure) {
            (RunnerOutcome::Succeeded, None) => None,
            (RunnerOutcome::Succeeded, Some(_)) => Some(RunContractViolation::UnexpectedFailure),
            (_, None) => Some(RunContractViolation::MissingFailure),
            (outcome, Some(failure)) => failure_violation(outcome, failure),
        }
    }
}

/// An accepted report is bounded and consistent: a safe summary, a payload within its limits,
/// at most 32 well-formed evidence references, a failure exactly when the outcome is not a
/// success, and the `cancelled` category exactly for a cancelled outcome.
pub proof fn law_accepted_reports_are_bounded_and_consistent(report: RunnerReport)
    requires
        report_violation(report) is None,
    ensures
        valid_safe_text(report.summary@, MAX_SUMMARY_CHARS as nat),
        payload_violation(report.payload, MAX_RESULT_BYTES as nat) is None,
        report.evidence@.len() <= MAX_EVIDENCE_REFERENCES,
        forall|i: int| 0 <= i < report.evidence@.len() ==> valid_evidence(#[trigger] report.evidence@[i]),
        (report.outcome == RunnerOutcome::Succeeded) == (report.failure is None),
        report.failure matches Some(f) ==> {
            &&& valid_token(f.code@)
            &&& valid_safe_text(f.message@, MAX_FAILURE_MESSAGE_CHARS as nat)
            &&& (report.outcome == RunnerOutcome::Cancelled) == (f.category == RunnerFailureCategory::Cancelled)
        },
{
}

fn validate_failure(outcome: RunnerOutcome, failure: &RunnerFailure) -> (r: Result<
    (),
    RunContractViolation,
>)
    ensures
        match failure_violation(outcome, *failure) {
            Some(e) => r == Err::<(), RunContractViolation>(e),
            None => r is Ok,
        },
{
    if !crate::policy::capability_is_valid(failure.code.as_str()) || !safe_text_is_valid(
        failure.message.as_str(),
        MAX_FAILURE_MESSAGE_CHARS,
    ) {
        return Err(RunContractViolation::InvalidFailure);
    }
    let cancelled_outcome = match outcome {
        RunnerOutcome::Cancelled => true,
        _ => false,
    };
    let cancelled_category = match failure.category {
        RunnerFailureCategory::Cancelled => true,
        _ => false,
    };
    if cancelled_outcome != cancelled_category {
        return Err(RunContractViolation::FailureOutcomeMismatch);
    }
    Ok(())
}

fn evidence_is_valid(e: &EvidenceReference) -> (b: bool)
    ensures
        b == valid_evidence(*e),
{
    if !crate::policy::capability_is_valid(e.kind.as_str()) {
        return false;
    }
    let n = char_len(e.reference.as_str());
    n >= 1 && n <= MAX_EVIDENCE_REFERENCE_CHARS && text_has_no_control(e.reference.as_str())
}

/// Validate a Runner report before it reaches the caller.
#[verifier::loop_isolation(false)]
pub fn validate_report(report: &RunnerReport) -> (r: Result<(), RunContractViolation>)
    ensures
        match report_violation(*report) {
            Some(e) => r == Err::<(), RunContractViolation>(e),
            None => r is Ok,
        },
{
    if !safe_text_is_valid(report.summary.as_str(), MAX_SUMMARY_CHARS) {
        return Err(RunContractViolation::InvalidSummary);
    }
    validate_json(&report.payload, MAX_RESULT_BYTES)?;
    if report.evidence.len() > MAX_EVIDENCE_REFERENCES {
        return Err(RunContractViolation::TooManyEvidenceReferences);
    }
    let mut i: usize = 0;
    while i < report.evidence.len()
        invariant
            i <= report.evidence@.len(),
            forall|j: int| 0 <= j < i ==> valid_evidence(#[trigger] report.evidence@[j]),
        decreases report.evidence@.len() - i,
    {
        if !evidence_is_valid(&report.evidence[i]) {
            assert(!valid_evidence(report.evidence@[i as int]));
            return Err(RunContractViolation::InvalidEvidenceReference);
        }
        i = i + 1;
    }
    match (report.outcome, &report.failure) {
        (RunnerOutcome::Succeeded, None) => Ok(()),
        (RunnerOutcome::Succeeded, Some(_)) => Err(RunContractViolation::UnexpectedFailure),
        (_, None) => Err(RunContractViolation::MissingFailure),
        (outcome, Some(failure)) => validate_failure(outcome, failure),
    }
}

/// Stable result of policy evaluation and optional Runner invocation.
#[derive(Debug, PartialEq)]
pub enum CoreRunResult {
    /// Core policy rejected the request before Runner invocation.
    Rejected {
        /// Stable Core Run identity.
        run_id: String,
        /// Sorted policy rejection reasons.
        reasons: Vec<PolicyRejection>,
    },
    /// The Runner returned one bounded report after authorization.
    Finished {
        /// Stable Core Run identity.
        run_id: String,
        /// Sorted capabilities authorized for the invocation.
        authorized_capabilities: Vec<String>,
        /// Validated compact Runner report.
        report: RunnerReport,
    },
}

/// Failure before a trustworthy Core Run result can be returned.
#[derive(Debug)]
pub enum CoreRunError {
    /// The caller supplied a request outside the bounded contract.
    InvalidRequest(RunContractViolation),
    /// Capability policy or trusted approval lookup failed closed.
    Authorization(GateError),
    /// The Runner Adapter returned an untrustworthy report.
    InvalidRunnerReport(RunContractViolation),
}

/// Deep Core Module that validates, authorizes, and executes one bounded Run.
pub struct RunExecutor<S, R> {
    gate: CapabilityGate<S>,
    runner: R,
}

/// The execution intent built from a request for authorization.
pub open spec fn request_intent(request: CoreRunRequest) -> ExecutionIntent {
    ExecutionIntent { operation_id: request.run_id, requested: request.requested_capabilities }
}

/// The request handed to the Runner for a Core request and the capabilities that the
/// capability gate approved.
pub open spec fn runner_request_for(
    request: CoreRunRequest,
    capabilities: Vec<String>,
    handed: AuthorizedRunnerRequest,
) -> bool {
    &&& handed.spec_run_id() == request.run_id@
    &&& handed.spec_timeout_seconds() == request.timeout_seconds
    &&& handed.spec_capabilities() == string_views(capabilities@)
    &&& handed.spec_payload() == request.payload
}

/// One invocation of the executor's Runner: the capability gate approved `capabilities` for
/// the request, the Runner was handed the matching request, and it answered `report`.
pub open spec fn runner_invoked<S: ApprovalSource, R: RunnerAdapter>(
    request: CoreRunRequest,
    before: RunExecutor<S, R>,
    after: RunExecutor<S, R>,
    capabilities: Vec<String>,
    report: RunnerReport,
) -> bool {
    &&& gate_outcome(
        before.policy(),
        before.approvals(),
        &request_intent(request),
        Ok(PolicyDecision::Approved { capabilities }),
    )
    &&& exists|handed: AuthorizedRunnerRequest|
        runner_request_for(request, capabilities, handed) && #[trigger] before.runner().executes(
            handed,
            after.runner(),
            report,
        )
}

/// What `execute` returns for a request. The Runner is invoked once, only when the capability
/// gate approved; otherwise the executor, its Runner included, is left unchanged. Its report is
/// returned unchanged when it is within the contract, and its violation otherwise.
pub open spec fn execute_outcome<S: ApprovalSource, R: RunnerAdapter>(
    request: CoreRunRequest,
    before: RunExecutor<S, R>,
    after: RunExecutor<S, R>,
    r: Result<CoreRunResult, CoreRunError>,
) -> bool {
    let intent = request_intent(request);
    let policy = before.policy();
    let approvals = before.approvals();
    if let Some(v) = request_violation(request) {
        r == Err::<CoreRunResult, CoreRunError>(CoreRunError::InvalidRequest(v)) && after == before
    } else {
        match r {
            Err(CoreRunError::InvalidRequest(_)) => false,
            Err(CoreRunError::Authorization(e)) => gate_outcome(policy, approvals, &intent, Err(e))
                && after == before,
            Ok(CoreRunResult::Rejected { run_id, reasons }) => run_id@ == request.run_id@
                && gate_outcome(policy, approvals, &intent, Ok(PolicyDecision::Rejected { reasons }))
                && after == before,
            Ok(CoreRunResult::Finished { run_id, authorized_capabilities, report }) => run_id@
                == request.run_id@ && runner_invoked(
                request,
                before,
                after,
                authorized_capabilities,
                report,
            ) && report_violation(report) is None,
            Err(CoreRunError::InvalidRunnerReport(v)) => exists|caps: Vec<String>, report: RunnerReport|
                runner_invoked(request, before, after, caps, report) && report_violation(report)
                    == Some(v),
        }
    }
}

/// The Runner is reached only through an approval: an invalid request, a failed approval
/// lookup or a policy rejection leaves the executor and its Runner untouched, and a finished
/// Run always carries a report within the contract.
pub proof fn law_runner_runs_only_after_approval<S: ApprovalSource, R: RunnerAdapter>(
    request: CoreRunRequest,
    before: RunExecutor<S, R>,
    after: RunExecutor<S, R>,
    r: Result<CoreRunResult, CoreRunError>,
)
    requires
        execute_outcome(request, before, after, r),
    ensures
        request_violation(request) is Some ==> r matches Err(CoreRunError::InvalidRequest(_)),
        (r matches Err(CoreRunError::InvalidRequest(_)) || r matches Err(CoreRunError::Authorization(_))
            || r matches Ok(CoreRunResult::Rejected { .. })) ==> after == before,
        r matches Ok(CoreRunResult::Finished { report, .. }) ==> report_violation(report) is None,
{
}

impl<S: ApprovalSource, R: RunnerAdapter> RunExecutor<S, R> {
    pub closed spec fn policy(&self) -> CapabilityPolicy {
        self.gate.policy()
    }

    /// The trusted approval source the executor's gate consults.
    pub closed spec fn approvals(&self) -> S {
        self.gate.approvals()
    }

    /// The Runner Adapter the executor invokes.
    pub closed spec fn runner(&self) -> R {
        self.runner
    }

    /// Create an executor from local policy, a trusted approval source, and one Runner Adapter.
    pub fn new(policy: CapabilityPolicy, approvals: S, runner: R) -> (e: Self)
        ensures
            e.policy() == policy,
            e.approvals() == approvals,
            e.runner() == runner,
    {
        RunExecutor { gate: CapabilityGate::new(policy, approvals), runner }
    }

    /// Validate and authorize one request before invoking the Runner Adapter exactly once.
    pub fn execute(&mut self, request: CoreRunRequest) -> (r: Result<CoreRunResult, CoreRunError>)
        ensures
            final(self).policy() == old(self).policy(),
            final(self).approvals() == old(self).approvals(),
            execute_outcome(request, *old(self), *final(self), r),
    {
        match validate_request(&request) {
            Ok(()) => {},
            Err(v) => return Err(CoreRunError::InvalidRequest(v)),
        }
        let ghost original = request;
        let run_id = request.run_id.clone();
        let intent = ExecutionIntent {
            operation_id: request.run_id,
            requested: request.requested_capabilities,
        };
        assert(intent == request_intent(original));
        let decision = self.gate.authorize(&intent);
        match decision {
            Err(e) => Err(CoreRunError::Authorization(e)),
            Ok(PolicyDecision::Rejected { reasons }) => Ok(
                CoreRunResult::Rejected { run_id, reasons },
            ),
            Ok(PolicyDecision::Approved { capabilities }) => {
                proof {
                    crate::policy::lemma_approved_capabilities(
                        self.gate.policy(),
                        self.gate.approvals(),
                        &intent,
                        capabilities,
                    );
                }
                let authorized = AuthorizedRunnerRequest {
                    run_id: run_id.clone(),
                    timeout_seconds: request.timeout_seconds,
                    authorized_capabilities: crate::ordered::copy_strings(&capabilities),
                    payload: request.payload,
                };
                let report = self.runner.execute(&authorized);
                proof {
                    assert(runner_request_for(original, capabilities, authorized));
                    assert(old(self).runner().executes(authorized, self.runner(), report));
                    assert(gate_outcome(
                        old(self).policy(),
                        old(self).approvals(),
                        &request_intent(original),
                        Ok(PolicyDecision::Approved { capabilities }),
                    ));
                    assert(runner_invoked(original, *old(self), *self, capabilities, report));
                }
                match validate_report(&report) {
                    Ok(()) => {},
                    Err(v) => {
                        proof {
                            assert(report_violation(report) == Some(v));
                        }
                        return Err(CoreRunError::InvalidRunnerReport(v));
                    },
                }
                Ok(
                    CoreRunResult::Finished {
                        run_id,
                        authorized_capabilities: capabilities,
                        report,
                    },
                )
            },
        }
    }
}

} // verus!
