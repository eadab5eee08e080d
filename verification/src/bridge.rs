//! Trusted local bridge over the Registry and Progress Recorder Interfaces.
//!
//! The bridge checks the protocol and request identities, enforces project grants and the
//! Board's active-work decision, and maps every internal failure to a stable public category.

use vstd::prelude::*;

use crate::board::{BoardActiveWorkAssessment, BoardPort, BoardPortError, UnavailableBoard};
use crate::contracts::{
    checkpoint_result_views, delivery_views, project_summaries, sourced_views, ActiveWorkItemResult,
    CheckpointResultView, CheckpointStatusResult, CoreBridgeError, CoreBridgeOperation,
    CoreBridgeRequest, CoreBridgeResponse, CoreBridgeResult, CoreErrorCode, DeliverySummaryView,
    DeliveryView, ListProgressResult, ListProjectsResult, OperationView, ProjectContextResult,
    ProjectGrant, RecordProgressResult, RegistrationView, ResultView, registration_views,
    CORE_BRIDGE_PROTOCOL_VERSION,
};
use crate::ordered::{copy_str, str_eq};
use crate::progress::types::{
    delivery_status_name, opt_view, receipt_views, rfc3339_accepts, CheckpointQuery,
    CheckpointStatus, DeliveryReceipt, DeliveryStatus, DeliveryTarget, QueryView, ReceiptView,
    StatusView,
};
use crate::progress::{
    list_spec, page_views, receipts_of, record_spec, ledger_after_record, status_spec,
    status_views, target_ids, EntryView, ErrorView, ProgressError, ProgressRecorder,
};
use crate::registry::{
    get_spec, listed, project_view, select_post, select_spec, summary_of, ProjectRegistry,
    RegistryError, RegistryErrorView, RegistryView,
};
use crate::text::{char_len, prefix_at_most, push_char};

verus! {

/// Abstract value of the bridge: its registry and its checkpoint ledger.
pub struct BridgeView {
    pub registry: RegistryView,
    pub ledger: Seq<EntryView>,
}

/// A public failure: its stable category and message.
pub struct FailureView {
    pub code: CoreErrorCode,
    pub message: Seq<char>,
}

pub open spec fn failure(code: CoreErrorCode, message: &'static str) -> FailureView {
    FailureView { code, message: message@ }
}

pub open spec fn internal_failure() -> FailureView {
    failure(CoreErrorCode::InternalError, "local Core operation failed")
}

pub open spec fn registry_failure(e: RegistryErrorView) -> FailureView {
    match e {
        RegistryErrorView::Invalid(_) => failure(CoreErrorCode::InvalidRequest, "invalid project operation"),
        RegistryErrorView::NotFound(_) => failure(
            CoreErrorCode::ProjectNotFound,
            "project was not found or is not visible",
        ),
    }
}

pub open spec fn board_failure(e: BoardPortError) -> FailureView {
    match e {
        BoardPortError::ProjectNotFound => failure(
            CoreErrorCode::ProjectNotFound,
            "project was not found or is not visible in Board",
        ),
        BoardPortError::WorkItemNotFound => failure(
            CoreErrorCode::WorkItemNotFound,
            "Work item was not found in the requested project",
        ),
        BoardPortError::Unavailable => failure(CoreErrorCode::BoardUnavailable, "Gareji Board is unavailable"),
        BoardPortError::InvalidResponse => internal_failure(),
    }
}

pub open spec fn progress_failure(e: ErrorView) -> FailureView {
    match e {
        ErrorView::Invalid(_) => failure(CoreErrorCode::InvalidRequest, "invalid Progress Checkpoint"),
        ErrorView::Conflict(_) => failure(
            CoreErrorCode::Conflict,
            "checkpoint identity conflicts with stored content or destinations",
        ),
        ErrorView::Mismatch(_) => failure(
            CoreErrorCode::Conflict,
            "checkpoint identity conflicts with stored content or destinations",
        ),
        ErrorView::NotFound(_) => failure(CoreErrorCode::CheckpointNotFound, "checkpoint was not found"),
        ErrorView::Corrupt(_) => internal_failure(),
    }
}

pub open spec fn grant_denied() -> FailureView {
    failure(CoreErrorCode::PermissionDenied, "project does not grant this operation")
}

/// The delivery summary of a receipt.
pub open spec fn receipt_summary(r: ReceiptView) -> DeliverySummaryView {
    DeliverySummaryView {
        destination_id: r.destination_id,
        status: delivery_status_name(r.status),
        attempts: r.attempts,
        last_error: r.last_error,
    }
}

pub open spec fn receipt_summaries(v: Seq<ReceiptView>) -> Seq<DeliverySummaryView> {
    v.map_values(|r: ReceiptView| receipt_summary(r))
}

/// The transport view of an inspected checkpoint.
pub open spec fn checkpoint_result(s: StatusView) -> CheckpointResultView {
    CheckpointResultView {
        checkpoint_id: s.checkpoint.checkpoint_id,
        checkpoint: s.checkpoint,
        deliveries: receipt_summaries(s.deliveries),
    }
}

/// An optional Work item identity that is empty or longer than 128 characters.
pub open spec fn optional_id_invalid(o: Option<Seq<char>>) -> bool {
    match o {
        Some(s) => s.len() == 0 || s.len() > 128,
        None => false,
    }
}

/// A record request reaches the ledger: its project is visible, grants writing progress and
/// is connected to the checkpoint's workspace.
pub open spec fn record_reaches_ledger(v: BridgeView, c: crate::progress::types::CheckpointView) -> bool {
    match get_spec(v.registry, c.project_id) {
        Ok(p) => p.grants.contains(ProjectGrant::WriteProgress) && p.execution_workspace
            == c.execution_workspace_id,
        Err(_) => false,
    }
}

/// What an operation answers, given what the Board answers when it is asked.
pub open spec fn execute_spec(
    v: BridgeView,
    op: OperationView,
    board: Result<BoardActiveWorkAssessment, BoardPortError>,
) -> Result<ResultView, FailureView> {
    match op {
        OperationView::ListProjects => Ok(
            ResultView::Projects(listed(v.registry.projects).map_values(|r: RegistrationView| summary_of(r))),
        ),
        OperationView::GetProjectContext(pid, wid) => if optional_id_invalid(wid) {
            Err(failure(CoreErrorCode::InvalidRequest, "invalid Work item identity"))
        } else {
            match get_spec(v.registry, pid) {
                Err(e) => Err(registry_failure(e)),
                Ok(p) => if !p.grants.contains(ProjectGrant::ReadContext) {
                    Err(grant_denied())
                } else {
                    Ok(ResultView::Context(pid, wid, p.sourced_context))
                },
            }
        },
        OperationView::SetActiveWorkItem(pid, wid) => match get_spec(v.registry, pid) {
            Err(e) => Err(registry_failure(e)),
            Ok(p) => if !p.grants.contains(ProjectGrant::SelectActiveWork) {
                Err(grant_denied())
            } else {
                match board {
                    Err(be) => Err(board_failure(be)),
                    Ok(BoardActiveWorkAssessment::Ineligible) => Err(
                        failure(
                            CoreErrorCode::WorkItemNotEligible,
                            "Work item state is not eligible for active work",
                        ),
                    ),
                    Ok(BoardActiveWorkAssessment::Eligible) => match select_spec(v.registry, pid, wid) {
                        Err(e) => Err(registry_failure(e)),
                        Ok(prev) => Ok(ResultView::ActiveWork(pid, prev, wid)),
                    },
                }
            },
        },
        OperationView::RecordProgress(None) => Err(
            failure(CoreErrorCode::InvalidRequest, "invalid Progress Checkpoint"),
        ),
        OperationView::RecordProgress(Some(c)) => match get_spec(v.registry, c@.project_id) {
            Err(e) => Err(registry_failure(e)),
            Ok(p) => if !p.grants.contains(ProjectGrant::WriteProgress) {
                Err(grant_denied())
            } else if p.execution_workspace != c@.execution_workspace_id {
                Err(
                    failure(
                        CoreErrorCode::WorkspaceNotConnected,
                        "checkpoint workspace is not connected to the project",
                    ),
                )
            } else {
                match record_spec(v.ledger, c@, p.delivery_targets, rfc3339_accepts(c@.recorded_at)) {
                    Err(e) => Err(progress_failure(e)),
                    Ok((dup, rows)) => Ok(
                        ResultView::Recorded(
                            c@.checkpoint_id,
                            dup,
                            receipt_summaries(receipts_of(rows)),
                        ),
                    ),
                }
            },
        },
        OperationView::GetCheckpointStatus(cid) => match status_spec(v.ledger, cid) {
            Err(e) => Err(progress_failure(e)),
            Ok(s) => match get_spec(v.registry, s.checkpoint.project_id) {
                Err(e) => Err(registry_failure(e)),
                Ok(p) => if !p.grants.contains(ProjectGrant::WriteProgress) {
                    Err(grant_denied())
                } else {
                    Ok(ResultView::Checkpoint(checkpoint_result(s)))
                },
            },
        },
        OperationView::ListProgress(q) => match get_spec(v.registry, q.project_id) {
            Err(e) => Err(registry_failure(e)),
            Ok(p) => if !p.grants.contains(ProjectGrant::WriteProgress) {
                Err(grant_denied())
            } else {
                match list_spec(v.ledger, q) {
                    Err(e) => Err(progress_failure(e)),
                    Ok((page, cursor)) => Ok(
                        ResultView::Progress(
                            page_views(v.ledger, page).map_values(|s: StatusView| checkpoint_result(s)),
                            cursor,
                        ),
                    ),
                }
            },
        },
    }
}

/// How an operation changes the bridge: a successful selection changes the registry as a
/// selection does, a record that reaches the ledger changes the ledger as `record` does, and
/// nothing else changes anything.
pub open spec fn execute_post(
    v: BridgeView,
    op: OperationView,
    board: Result<BoardActiveWorkAssessment, BoardPortError>,
    new: BridgeView,
) -> bool {
    match op {
        OperationView::SetActiveWorkItem(pid, wid) => if execute_spec(v, op, board) is Ok {
            select_post(v.registry, pid, wid, new.registry) && new.ledger == v.ledger
        } else {
            new == v
        },
        OperationView::RecordProgress(Some(c)) => {
            &&& new.registry == v.registry
            &&& new.ledger == if record_reaches_ledger(v, c@) {
                ledger_after_record(
                    v.ledger,
                    c@,
                    get_spec(v.registry, c@.project_id)->Ok_0.delivery_targets,
                    rfc3339_accepts(c@.recorded_at),
                )
            } else {
                v.ledger
            }
        },
        _ => new == v,
    }
}

/// The project and Work item the Board is asked about for an operation, if it is asked: a
/// selection on a visible project that grants selecting active work.
pub open spec fn board_question(v: BridgeView, op: OperationView) -> Option<(Seq<char>, Seq<char>)> {
    match op {
        OperationView::SetActiveWorkItem(pid, wid) => match get_spec(v.registry, pid) {
            Ok(p) => if p.grants.contains(ProjectGrant::SelectActiveWork) {
                Some((pid, wid))
            } else {
                None
            },
            Err(_) => None,
        },
        _ => None,
    }
}

/// `answer` is what the bridge's Board gave when the operation asked it, if it asked.
pub open spec fn board_answered<B: BoardPort>(
    board: B,
    v: BridgeView,
    op: OperationView,
    answer: Result<BoardActiveWorkAssessment, BoardPortError>,
) -> bool {
    match board_question(v, op) {
        Some((pid, wid)) => board.assesses(pid, wid, answer),
        None => true,
    }
}

/// The request passes the protocol and identity checks.
pub open spec fn request_accepted(protocol_version: Seq<char>, request_id: Seq<char>) -> bool {
    protocol_version == CORE_BRIDGE_PROTOCOL_VERSION@ && 0 < request_id.len() <= 128
}

/// What the bridge answers for a request.
pub open spec fn handle_spec(
    v: BridgeView,
    protocol_version: Seq<char>,
    request_id: Seq<char>,
    op: OperationView,
    board: Result<BoardActiveWorkAssessment, BoardPortError>,
) -> Result<ResultView, FailureView> {
    if protocol_version != CORE_BRIDGE_PROTOCOL_VERSION@ {
        Err(failure(CoreErrorCode::InvalidRequest, "unsupported Core bridge protocol"))
    } else if !request_accepted(protocol_version, request_id) {
        Err(failure(CoreErrorCode::InvalidRequest, "invalid request identity"))
    } else {
        execute_spec(v, op, board)
    }
}

/// The response carries the request identity, the protocol, and the expected outcome, with a
/// failure message bounded to 256 characters.
pub open spec fn response_matches(
    r: CoreBridgeResponse,
    request_id: Seq<char>,
    out: Result<ResultView, FailureView>,
) -> bool {
    match r {
        CoreBridgeResponse::Success { protocol_version, request_id: rid, result } => {
            &&& protocol_version@ == CORE_BRIDGE_PROTOCOL_VERSION@
            &&& rid@ == request_id
            &&& out == Ok::<ResultView, FailureView>(result@)
        },
        CoreBridgeResponse::Error { protocol_version, request_id: rid, error } => {
            &&& protocol_version@ == CORE_BRIDGE_PROTOCOL_VERSION@
            &&& rid@ == request_id
            &&& out is Err
            &&& error.code == out->Err_0.code
            &&& error.message@ == prefix_at_most(out->Err_0.message, 256)
        },
    }
}

struct CoreFailure {
    code: CoreErrorCode,
    message: &'static str,
}

impl View for CoreFailure {
    type V = FailureView;

    closed spec fn view(&self) -> FailureView {
        FailureView { code: self.code, message: self.message@ }
    }
}

impl CoreFailure {
    fn invalid(message: &'static str) -> (r: CoreFailure)
        ensures
            r@ == failure(CoreErrorCode::InvalidRequest, message),
    {
        CoreFailure { code: CoreErrorCode::InvalidRequest, message }
    }

    fn internal() -> (r: CoreFailure)
        ensures
            r@ == internal_failure(),
    {
        CoreFailure { code: CoreErrorCode::InternalError, message: "local Core operation failed" }
    }

    fn from_registry(error: RegistryError) -> (r: CoreFailure)
        ensures
            r@ == registry_failure(error@),
    {
        match error {
            RegistryError::Invalid { .. } => CoreFailure::invalid("invalid project operation"),
            RegistryError::ProjectNotFound { .. } => CoreFailure {
                code: CoreErrorCode::ProjectNotFound,
                message: "project was not found or is not visible",
            },
        }
    }

    fn from_board(error: BoardPortError) -> (r: CoreFailure)
        ensures
            r@ == board_failure(error),
    {
        match error {
            BoardPortError::ProjectNotFound => CoreFailure {
                code: CoreErrorCode::ProjectNotFound,
                message: "project was not found or is not visible in Board",
            },
            BoardPortError::WorkItemNotFound => CoreFailure {
                code: CoreErrorCode::WorkItemNotFound,
                message: "Work item was not found in the requested project",
            },
            BoardPortError::Unavailable => CoreFailure {
                code: CoreErrorCode::BoardUnavailable,
                message: "Gareji Board is unavailable",
            },
            BoardPortError::InvalidResponse => CoreFailure::internal(),
        }
    }

    fn from_progress(error: ProgressError) -> (r: CoreFailure)
        ensures
            r@ == progress_failure(error@),
    {
        match error {
            ProgressError::InvalidCheckpoint(_) => CoreFailure::invalid("invalid Progress Checkpoint"),
            ProgressError::CheckpointConflict { .. } => CoreFailure {
                code: CoreErrorCode::Conflict,
                message: "checkpoint identity conflicts with stored content or destinations",
            },
            ProgressError::DeliverySetMismatch { .. } => CoreFailure {
                code: CoreErrorCode::Conflict,
                message: "checkpoint identity conflicts with stored content or destinations",
            },
            ProgressError::CheckpointNotFound { .. } => CoreFailure {
                code: CoreErrorCode::CheckpointNotFound,
                message: "checkpoint was not found",
            },
            ProgressError::CorruptState { .. } => CoreFailure::internal(),
        }
    }
}

/// Require one grant of the project.
fn require_grant(grants: &Vec<ProjectGrant>, required: ProjectGrant) -> (r: Result<(), CoreFailure>)
    ensures
        match r {
            Ok(()) => grants@.contains(required),
            Err(e) => !grants@.contains(required) && e@ == grant_denied(),
        },
{
    let mut i: usize = 0;
    while i < grants.len()
        invariant
            i <= grants@.len(),
            forall|k: int| 0 <= k < i ==> grants@[k] != required,
        decreases grants@.len() - i,
    {
        if grants[i] == required {
            return Ok(());
        }
        i = i + 1;
    }
    Err(CoreFailure { code: CoreErrorCode::PermissionDenied, message: "project does not grant this operation" })
}

fn validate_optional_id(value: &Option<String>) -> (r: Result<(), CoreFailure>)
    ensures
        match r {
            Ok(()) => !optional_id_invalid(opt_view(*value)),
            Err(e) => optional_id_invalid(opt_view(*value)) && e@ == failure(
                CoreErrorCode::InvalidRequest,
                "invalid Work item identity",
            ),
        },
{
    if let Some(v) = value {
        let n = char_len(v.as_str());
        if n == 0 || n > 128 {
            return Err(CoreFailure::invalid("invalid Work item identity"));
        }
    }
    Ok(())
}

/// Stable wire name of a delivery state.
fn delivery_status(status: DeliveryStatus) -> (r: &'static str)
    ensures
        r@ == delivery_status_name(status),
{
    match status {
        DeliveryStatus::Pending => "pending",
        DeliveryStatus::Synced => "synced",
        DeliveryStatus::Conflict => "conflict",
        DeliveryStatus::Failed => "failed",
    }
}

fn delivery_summaries(v: Vec<DeliveryReceipt>) -> (r: Vec<DeliveryView>)
    ensures
        delivery_views(r@) == receipt_summaries(receipt_views(v@)),
{
    let mut out: Vec<DeliveryView> = Vec::new();
    let mut i: usize = 0;
    while i < v.len()
        invariant
            i <= v@.len(),
            out@.len() == i,
            forall|k: int| 0 <= k < i ==> (#[trigger] out@[k])@ == receipt_summary(v@[k]@),
        decreases v@.len() - i,
    {
        let d = &v[i];
        out.push(
            DeliveryView {
                destination_id: d.destination_id.clone(),
                status: copy_str(delivery_status(d.status)),
                attempts: d.attempts,
                last_error: crate::progress::types::copy_optional(&d.last_error),
            },
        );
        i = i + 1;
    }
    assert(delivery_views(out@) =~= receipt_summaries(receipt_views(v@)));
    out
}

fn checkpoint_status_result(status: CheckpointStatus) -> (r: CheckpointStatusResult)
    ensures
        r@ == checkpoint_result(status@),
{
    let checkpoint_id = status.checkpoint.checkpoint_id.clone();
    CheckpointStatusResult {
        checkpoint_id,
        checkpoint: status.checkpoint,
        deliveries: delivery_summaries(status.deliveries),
    }
}

/// The first `max` characters of the text.
fn take_chars(s: &str, max: usize) -> (r: String)
    ensures
        r@ == prefix_at_most(s@, max as nat),
{
    let n = char_len(s);
    let end = if n <= max {
        n
    } else {
        max
    };
    let mut out = String::new();
    let mut i: usize = 0;
    while i < end
        invariant
            n == s@.len(),
            end <= n,
            end == prefix_at_most(s@, max as nat).len(),
            i <= end,
            out@ == s@.take(i as int),
        decreases end - i,
    {
        push_char(&mut out, s.get_char(i));
        assert(s@.take(i + 1) =~= s@.take(i as int).push(s@[i as int]));
        i = i + 1;
    }
    assert(out@ =~= prefix_at_most(s@, max as nat));
    out
}

fn error_response(request_id: String, code: CoreErrorCode, message: &str) -> (r: CoreBridgeResponse)
    ensures
        response_matches(
            r,
            request_id@,
            Err::<ResultView, FailureView>(FailureView { code, message: message@ }),
        ),
{
    CoreBridgeResponse::Error {
        protocol_version: copy_str(CORE_BRIDGE_PROTOCOL_VERSION),
        request_id,
        error: CoreBridgeError { code, message: take_chars(message, 256) },
    }
}

/// Deep Module serving bounded local transport operations over one registry and one ledger.
pub struct CoreBridge<B: BoardPort> {
    board: B,
    registry: ProjectRegistry,
    progress: ProgressRecorder,
}

impl<B: BoardPort> View for CoreBridge<B> {
    type V = BridgeView;

    closed spec fn view(&self) -> BridgeView {
        BridgeView { registry: self.registry@, ledger: self.progress@ }
    }
}

impl<B: BoardPort> CoreBridge<B> {
    /// A bridge over the given Board Adapter, registry and ledger.
    pub fn new(board: B, registry: ProjectRegistry, progress: ProgressRecorder) -> (r: CoreBridge<B>)
        ensures
            r@ == (BridgeView { registry: registry@, ledger: progress@ }),
            r.board() == board,
    {
        CoreBridge { board, registry, progress }
    }

    /// The Board Adapter this bridge asks.
    pub closed spec fn board(&self) -> B {
        self.board
    }

    /// The registry, for durable storage.
    pub fn registry(&self) -> (r: &ProjectRegistry)
        ensures
            r@ == self@.registry,
    {
        &self.registry
    }

    /// The checkpoint ledger, for durable storage.
    pub fn progress(&self) -> (r: &ProgressRecorder)
        ensures
            r@ == self@.ledger,
    {
        &self.progress
    }

    /// Handle one validated wire request without exposing internal errors or state. The Board
    /// is asked only for a selection that passed the request, project and grant checks, about
    /// that project and Work item, and the response is the one its answer calls for.
    pub fn handle(&mut self, request: CoreBridgeRequest) -> (r: CoreBridgeResponse)
        ensures
            final(self).board() == old(self).board(),
            exists|board: Result<BoardActiveWorkAssessment, BoardPortError>|
                #![trigger handle_spec(old(self)@, request.protocol_version@, request.request_id@, request.operation@, board)]
                {
                    &&& request_accepted(request.protocol_version@, request.request_id@) ==> board_answered(
                        old(self).board(),
                        old(self)@,
                        request.operation@,
                        board,
                    )
                    &&& response_matches(
                        r,
                        request.request_id@,
                        handle_spec(
                            old(self)@,
                            request.protocol_version@,
                            request.request_id@,
                            request.operation@,
                            board,
                        ),
                    )
                    &&& if request_accepted(request.protocol_version@, request.request_id@) {
                        execute_post(old(self)@, request.operation@, board, final(self)@)
                    } else {
                        final(self)@ == old(self)@
                    }
                },
    {
        let request_id = request.request_id;
        if !str_eq(request.protocol_version.as_str(), CORE_BRIDGE_PROTOCOL_VERSION) {
            let r = error_response(request_id, CoreErrorCode::InvalidRequest, "unsupported Core bridge protocol");
            let ghost b = Ok::<BoardActiveWorkAssessment, BoardPortError>(BoardActiveWorkAssessment::Eligible);
            assert(response_matches(r, request.request_id@, handle_spec(old(self)@, request.protocol_version@, request.request_id@, request.operation@, b)));
            assert(!request_accepted(request.protocol_version@, request.request_id@));
            assert({
                &&& response_matches(
                    r,
                    request.request_id@,
                    handle_spec(old(self)@, request.protocol_version@, request.request_id@, request.operation@, b),
                )
                &&& if request_accepted(request.protocol_version@, request.request_id@) {
                    execute_post(old(self)@, request.operation@, b, self@)
                } else {
                    self@ == old(self)@
                }
            });
            return r;
        }
        let n = char_len(request_id.as_str());
        if n == 0 || n > 128 {
            let r = error_response(request_id, CoreErrorCode::InvalidRequest, "invalid request identity");
            let ghost b = Ok::<BoardActiveWorkAssessment, BoardPortError>(BoardActiveWorkAssessment::Eligible);
            assert(response_matches(r, request.request_id@, handle_spec(old(self)@, request.protocol_version@, request.request_id@, request.operation@, b)));
            assert(!request_accepted(request.protocol_version@, request.request_id@));
            assert({
                &&& response_matches(
                    r,
                    request.request_id@,
                    handle_spec(old(self)@, request.protocol_version@, request.request_id@, request.operation@, b),
                )
                &&& if request_accepted(request.protocol_version@, request.request_id@) {
                    execute_post(old(self)@, request.operation@, b, self@)
                } else {
                    self@ == old(self)@
                }
            });
            return r;
        }
        let ghost op = request.operation@;
        let ghost v = self@;
        let (outcome, board) = self.execute(request.operation);
        match outcome {
            Ok(result) => {
                let r = CoreBridgeResponse::Success {
                    protocol_version: copy_str(CORE_BRIDGE_PROTOCOL_VERSION),
                    request_id,
                    result,
                };
                assert(response_matches(r, request.request_id@, handle_spec(v, request.protocol_version@, request.request_id@, op, board@)));
                r
            },
            Err(failure) => {
                let r = error_response(request_id, failure.code, failure.message);
                assert(response_matches(r, request.request_id@, handle_spec(v, request.protocol_version@, request.request_id@, op, board@)));
                r
            },
        }
    }

    /// Run one operation; also answers what the Board said, when it was asked.
    fn execute(&mut self, operation: CoreBridgeOperation) -> (r: (
        Result<CoreBridgeResult, CoreFailure>,
        Ghost<Result<BoardActiveWorkAssessment, BoardPortError>>,
    ))
        ensures
            match execute_spec(old(self)@, operation@, r.1@) {
                Ok(v) => r.0 matches Ok(x) && x@ == v,
                Err(f) => r.0 matches Err(x) && x@ == f,
            },
            execute_post(old(self)@, operation@, r.1@, final(self)@),
            board_answered(old(self).board(), old(self)@, operation@, r.1@),
            final(self).board() == old(self).board(),
    {
        let ghost v = self@;
        let ghost no_board = Ok::<BoardActiveWorkAssessment, BoardPortError>(BoardActiveWorkAssessment::Eligible);
        match operation {
            CoreBridgeOperation::ListProjects => {
                let projects = match self.registry.list() {
                    Ok(p) => p,
                    Err(e) => {
                        return (Err(CoreFailure::from_registry(e)), Ghost(no_board));
                    },
                };
                let mut views: Vec<crate::contracts::ProjectView> = Vec::new();
                let mut i: usize = 0;
                while i < projects.len()
                    invariant
                        i <= projects@.len(),
                        views@.len() == i,
                        forall|k: int| 0 <= k < i ==> (#[trigger] views@[k])@ == summary_of(projects@[k]@),
                    decreases projects@.len() - i,
                {
                    views.push(project_view(&projects[i]));
                    i = i + 1;
                }
                proof {
                    assert(project_summaries(views@) =~= registration_views(projects@).map_values(
                        |r: RegistrationView| summary_of(r),
                    ));
                }
                (Ok(CoreBridgeResult::Projects(ListProjectsResult { projects: views })), Ghost(no_board))
            },
            CoreBridgeOperation::GetProjectContext { project_id, work_item_id } => {
                if let Err(f) = validate_optional_id(&work_item_id) {
                    return (Err(f), Ghost(no_board));
                }
                let project = match self.registry.get(project_id.as_str()) {
                    Ok(p) => p,
                    Err(e) => {
                        return (Err(CoreFailure::from_registry(e)), Ghost(no_board));
                    },
                };
                if let Err(f) = require_grant(&project.grants, ProjectGrant::ReadContext) {
                    return (Err(f), Ghost(no_board));
                }
                (
                    Ok(
                        CoreBridgeResult::Context(
                            ProjectContextResult {
                                project_id,
                                work_item_id,
                                sources: project.sourced_context,
                            },
                        ),
                    ),
                    Ghost(no_board),
                )
            },
            CoreBridgeOperation::SetActiveWorkItem { project_id, work_item_id } => {
                let project = match self.registry.get(project_id.as_str()) {
                    Ok(p) => p,
                    Err(e) => {
                        return (Err(CoreFailure::from_registry(e)), Ghost(no_board));
                    },
                };
                if let Err(f) = require_grant(&project.grants, ProjectGrant::SelectActiveWork) {
                    return (Err(f), Ghost(no_board));
                }
                let answer = self.board.assess_active_work(project_id.as_str(), work_item_id.as_str());
                let ghost b = answer;
                match answer {
                    Err(e) => {
                        return (Err(CoreFailure::from_board(e)), Ghost(b));
                    },
                    Ok(BoardActiveWorkAssessment::Ineligible) => {
                        return (
                            Err(
                                CoreFailure {
                                    code: CoreErrorCode::WorkItemNotEligible,
                                    message: "Work item state is not eligible for active work",
                                },
                            ),
                            Ghost(b),
                        );
                    },
                    Ok(BoardActiveWorkAssessment::Eligible) => {},
                }
                match self.registry.set_active_work_item(project_id.as_str(), work_item_id.as_str()) {
                    Ok(result) => (Ok(CoreBridgeResult::ActiveWork(result)), Ghost(b)),
                    Err(e) => (Err(CoreFailure::from_registry(e)), Ghost(b)),
                }
            },
            CoreBridgeOperation::RecordProgress { checkpoint } => {
                let checkpoint = match checkpoint {
                    Some(c) => c,
                    None => {
                        return (Err(CoreFailure::invalid("invalid Progress Checkpoint")), Ghost(no_board));
                    },
                };
                let project = match self.registry.get(checkpoint.project_id.as_str()) {
                    Ok(p) => p,
                    Err(e) => {
                        return (Err(CoreFailure::from_registry(e)), Ghost(no_board));
                    },
                };
                if let Err(f) = require_grant(&project.grants, ProjectGrant::WriteProgress) {
                    return (Err(f), Ghost(no_board));
                }
                if !str_eq(project.execution_workspace.as_str(), checkpoint.execution_workspace_id.as_str()) {
                    return (
                        Err(
                            CoreFailure {
                                code: CoreErrorCode::WorkspaceNotConnected,
                                message: "checkpoint workspace is not connected to the project",
                            },
                        ),
                        Ghost(no_board),
                    );
                }
                let mut targets: Vec<DeliveryTarget> = Vec::new();
                let mut i: usize = 0;
                while i < project.delivery_targets.len()
                    invariant
                        i <= project.delivery_targets@.len(),
                        target_ids(targets@) == project@.delivery_targets.take(i as int),
                    decreases project.delivery_targets@.len() - i,
                {
                    let ghost before = targets@;
                    targets.push(DeliveryTarget { destination_id: project.delivery_targets[i].clone() });
                    assert(target_ids(targets@) =~= target_ids(before).push(project@.delivery_targets[i as int]));
                    assert(project@.delivery_targets.take(i + 1) =~= project@.delivery_targets.take(i as int).push(project@.delivery_targets[i as int]));
                    i = i + 1;
                }
                assert(project@.delivery_targets.take(project@.delivery_targets.len() as int) =~= project@.delivery_targets);
                match self.progress.record(&checkpoint, targets.as_slice()) {
                    Ok(receipt) => (
                        Ok(
                            CoreBridgeResult::Recorded(
                                RecordProgressResult {
                                    checkpoint_id: receipt.checkpoint_id,
                                    duplicate: receipt.duplicate,
                                    deliveries: delivery_summaries(receipt.deliveries),
                                },
                            ),
                        ),
                        Ghost(no_board),
                    ),
                    Err(e) => (Err(CoreFailure::from_progress(e)), Ghost(no_board)),
                }
            },
            CoreBridgeOperation::GetCheckpointStatus { checkpoint_id } => {
                let status = match self.progress.status(checkpoint_id.as_str()) {
                    Ok(s) => s,
                    Err(e) => {
                        return (Err(CoreFailure::from_progress(e)), Ghost(no_board));
                    },
                };
                let project = match self.registry.get(status.checkpoint.project_id.as_str()) {
                    Ok(p) => p,
                    Err(e) => {
                        return (Err(CoreFailure::from_registry(e)), Ghost(no_board));
                    },
                };
                if let Err(f) = require_grant(&project.grants, ProjectGrant::WriteProgress) {
                    return (Err(f), Ghost(no_board));
                }
                (Ok(CoreBridgeResult::Checkpoint(checkpoint_status_result(status))), Ghost(no_board))
            },
            CoreBridgeOperation::ListProgress { project_id, work_item_id, before_checkpoint_id, limit } => {
                let project = match self.registry.get(project_id.as_str()) {
                    Ok(p) => p,
                    Err(e) => {
                        return (Err(CoreFailure::from_registry(e)), Ghost(no_board));
                    },
                };
                if let Err(f) = require_grant(&project.grants, ProjectGrant::WriteProgress) {
                    return (Err(f), Ghost(no_board));
                }
                let query = CheckpointQuery { project_id, work_item_id, before_checkpoint_id, limit };
                let page = match self.progress.list(&query) {
                    Ok(p) => p,
                    Err(e) => {
                        return (Err(CoreFailure::from_progress(e)), Ghost(no_board));
                    },
                };
                let ghost statuses = status_views(page.checkpoints@);
                let mut results: Vec<CheckpointStatusResult> = Vec::new();
                let mut rest = page.checkpoints;
                let ghost all = rest@;
                while rest.len() > 0
                    invariant
                        rest@.len() <= all.len(),
                        rest@ == all.take(rest@.len() as int),
                        results@.len() + rest@.len() == all.len(),
                        forall|k: int|
                            0 <= k < results@.len() ==> (#[trigger] results@[k])@ == checkpoint_result(
                                all[rest@.len() + k]@,
                            ),
                    decreases rest@.len(),
                {
                    let ghost before = results@;
                    let ghost n = rest@.len();
                    let s = rest.pop().unwrap();
                    assert(s == all[n - 1]);
                    assert(rest@ =~= all.take(n - 1));
                    results.insert(0, checkpoint_status_result(s));
                    assert forall|k: int| 0 <= k < results@.len() implies (#[trigger] results@[k])@ == checkpoint_result(
                        all[rest@.len() + k]@,
                    ) by {
                        if k > 0 {
                            assert(results@[k] == before[k - 1]);
                        }
                    }
                }
                proof {
                    assert(checkpoint_result_views(results@) =~= status_views(all).map_values(
                        |s: StatusView| checkpoint_result(s),
                    ));
                }
                (
                    Ok(
                        CoreBridgeResult::Progress(
                            ListProgressResult { checkpoints: results, next_cursor: page.next_cursor },
                        ),
                    ),
                    Ghost(no_board),
                )
            },
        }
    }
}

/// Every response repeats the protocol and the request identity, and an error answers a
/// stable category with a message of at most 256 characters.
pub proof fn law_responses_repeat_identities(
    r: CoreBridgeResponse,
    request_id: Seq<char>,
    out: Result<ResultView, FailureView>,
)
    requires
        response_matches(r, request_id, out),
    ensures
        match r {
            CoreBridgeResponse::Success { protocol_version, request_id: rid, .. } => protocol_version@
                == CORE_BRIDGE_PROTOCOL_VERSION@ && rid@ == request_id && out is Ok,
            CoreBridgeResponse::Error { protocol_version, request_id: rid, error } => protocol_version@
                == CORE_BRIDGE_PROTOCOL_VERSION@ && rid@ == request_id && out is Err
                && error.message@.len() <= 256,
        },
{
}

/// A request in another protocol is refused as invalid before any operation runs.
pub proof fn law_other_protocols_are_refused(
    v: BridgeView,
    protocol_version: Seq<char>,
    request_id: Seq<char>,
    op: OperationView,
    board: Result<BoardActiveWorkAssessment, BoardPortError>,
)
    requires
        protocol_version != CORE_BRIDGE_PROTOCOL_VERSION@,
    ensures
        handle_spec(v, protocol_version, request_id, op, board) == Err::<ResultView, FailureView>(
            failure(CoreErrorCode::InvalidRequest, "unsupported Core bridge protocol"),
        ),
{
}

/// Active work changes only when the Board answers that the Work item is eligible: an
/// ineligible item, an unknown one or an unavailable Board leaves the bridge unchanged.
pub proof fn law_active_work_requires_board_eligibility(
    v: BridgeView,
    project_id: Seq<char>,
    work_item_id: Seq<char>,
    board: Result<BoardActiveWorkAssessment, BoardPortError>,
    new: BridgeView,
)
    requires
        execute_post(v, OperationView::SetActiveWorkItem(project_id, work_item_id), board, new),
        board != Ok::<BoardActiveWorkAssessment, BoardPortError>(BoardActiveWorkAssessment::Eligible),
    ensures
        new == v,
        execute_spec(v, OperationView::SetActiveWorkItem(project_id, work_item_id), board) is Err,
{
}

/// Without a configured Board, a selection that reaches the Board fails closed as Board being
/// unavailable and changes nothing.
pub proof fn law_unconfigured_board_fails_closed(
    v: BridgeView,
    project_id: Seq<char>,
    work_item_id: Seq<char>,
    answer: Result<BoardActiveWorkAssessment, BoardPortError>,
    new: BridgeView,
)
    requires
        board_question(v, OperationView::SetActiveWorkItem(project_id, work_item_id)) is Some,
        board_answered(UnavailableBoard, v, OperationView::SetActiveWorkItem(project_id, work_item_id), answer),
        execute_post(v, OperationView::SetActiveWorkItem(project_id, work_item_id), answer, new),
    ensures
        execute_spec(v, OperationView::SetActiveWorkItem(project_id, work_item_id), answer) == Err::<
            ResultView,
            FailureView,
        >(failure(CoreErrorCode::BoardUnavailable, "Gareji Board is unavailable")),
        new == v,
{
}

/// An operation on a project that lacks the grant it needs is denied and changes nothing.
pub proof fn law_grants_are_enforced(
    v: BridgeView,
    op: OperationView,
    board: Result<BoardActiveWorkAssessment, BoardPortError>,
    new: BridgeView,
    project: RegistrationView,
)
    requires
        execute_post(v, op, board, new),
        match op {
            OperationView::GetProjectContext(pid, wid) => !optional_id_invalid(wid) && get_spec(
                v.registry,
                pid,
            ) == Ok::<RegistrationView, RegistryErrorView>(project) && !project.grants.contains(
                ProjectGrant::ReadContext,
            ),
            OperationView::SetActiveWorkItem(pid, _) => get_spec(v.registry, pid) == Ok::<
                RegistrationView,
                RegistryErrorView,
            >(project) && !project.grants.contains(ProjectGrant::SelectActiveWork),
            OperationView::RecordProgress(Some(c)) => get_spec(v.registry, c@.project_id) == Ok::<
                RegistrationView,
                RegistryErrorView,
            >(project) && !project.grants.contains(ProjectGrant::WriteProgress),
            OperationView::ListProgress(q) => get_spec(v.registry, q.project_id) == Ok::<
                RegistrationView,
                RegistryErrorView,
            >(project) && !project.grants.contains(ProjectGrant::WriteProgress),
            OperationView::GetCheckpointStatus(cid) => status_spec(v.ledger, cid) matches Ok(s)
                && get_spec(v.registry, s.checkpoint.project_id) == Ok::<
                RegistrationView,
                RegistryErrorView,
            >(project) && !project.grants.contains(ProjectGrant::WriteProgress),
            _ => false,
        },
    ensures
        execute_spec(v, op, board) == Err::<ResultView, FailureView>(grant_denied()),
        new == v,
{
}

/// Only a selection or a record changes the bridge; every read leaves it as it was.
pub proof fn law_reads_change_nothing(
    v: BridgeView,
    op: OperationView,
    board: Result<BoardActiveWorkAssessment, BoardPortError>,
    new: BridgeView,
)
    requires
        execute_post(v, op, board, new),
        !(op is SetActiveWorkItem),
        !(op is RecordProgress),
    ensures
        new == v,
{
}

} // verus!
