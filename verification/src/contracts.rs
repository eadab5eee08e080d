//! Wire contracts shared by the local Core bridge and its transports.

use vstd::prelude::*;

use crate::ordered::string_views;
use crate::progress::types::{opt_view, CheckpointView, ProgressCheckpoint};

verus! {

/// Version discriminator for the local Core bridge.
pub const CORE_BRIDGE_PROTOCOL_VERSION: &'static str = "gareji.core-bridge.v0";

/// User-granted operation for one registered project.
#[derive(Clone, Copy, Debug, PartialEq, Eq, Structural)]
pub enum ProjectGrant {
    /// Read configured sourced context.
    ReadContext,
    /// Select an opaque active Work item reference.
    SelectActiveWork,
    /// Record and inspect Progress Checkpoints.
    WriteProgress,
}

/// Stable name of a grant.
pub open spec fn grant_name(g: ProjectGrant) -> Seq<char> {
    match g {
        ProjectGrant::ReadContext => "read_context"@,
        ProjectGrant::SelectActiveWork => "select_active_work"@,
        ProjectGrant::WriteProgress => "write_progress"@,
    }
}

impl ProjectGrant {
    /// Stable string used by MCP and configuration views.
    pub fn as_str(self) -> (r: &'static str)
        ensures
            r@ == grant_name(self),
    {
        match self {
            ProjectGrant::ReadContext => "read_context",
            ProjectGrant::SelectActiveWork => "select_active_work",
            ProjectGrant::WriteProgress => "write_progress",
        }
    }
}

/// One attributed context entry configured for a project.
#[derive(Clone, Debug, PartialEq, Eq)]
pub struct SourcedContext {
    /// Knowledge workspace identity.
    pub workspace_id: String,
    /// Source identity inside the workspace.
    pub source_id: String,
    /// Bounded freshness description.
    pub freshness: String,
    /// Optional bounded inline content.
    pub content: Option<String>,
    /// Optional reference for content kept outside Core.
    pub evidence_ref: Option<String>,
}

/// Abstract value of a sourced context entry.
pub struct SourcedView {
    pub workspace_id: Seq<char>,
    pub source_id: Seq<char>,
    pub freshness: Seq<char>,
    pub content: Option<Seq<char>>,
    pub evidence_ref: Option<Seq<char>>,
}

impl View for SourcedContext {
    type V = SourcedView;

    open spec fn view(&self) -> SourcedView {
        SourcedView {
            workspace_id: self.workspace_id@,
            source_id: self.source_id@,
            freshness: self.freshness@,
            content: opt_view(self.content),
            evidence_ref: opt_view(self.evidence_ref),
        }
    }
}

pub open spec fn sourced_views(v: Seq<SourcedContext>) -> Seq<SourcedView> {
    v.map_values(|s: SourcedContext| s@)
}

/// Complete operational registration stored by Core.
#[derive(Clone, Debug, PartialEq, Eq)]
pub struct ProjectRegistration {
    /// Stable Board-owned project identity.
    pub project_id: String,
    /// Human-readable project name.
    pub name: String,
    /// Stable execution workspace identity or local reference.
    pub execution_workspace: String,
    /// Configured source identifiers displayed to clients.
    pub context_sources: Vec<String>,
    /// Explicit user grants.
    pub grants: Vec<ProjectGrant>,
    /// Context entries returned until provider Adapters are connected.
    pub sourced_context: Vec<SourcedContext>,
    /// Projection destination identities captured at first record.
    pub delivery_targets: Vec<String>,
}

/// Abstract value of a registration.
pub struct RegistrationView {
    pub project_id: Seq<char>,
    pub name: Seq<char>,
    pub execution_workspace: Seq<char>,
    pub context_sources: Seq<Seq<char>>,
    pub grants: Seq<ProjectGrant>,
    pub sourced_context: Seq<SourcedView>,
    pub delivery_targets: Seq<Seq<char>>,
}

impl View for ProjectRegistration {
    type V = RegistrationView;

    open spec fn view(&self) -> RegistrationView {
        RegistrationView {
            project_id: self.project_id@,
            name: self.name@,
            execution_workspace: self.execution_workspace@,
            context_sources: string_views(self.context_sources@),
            grants: self.grants@,
            sourced_context: sourced_views(self.sourced_context@),
            delivery_targets: string_views(self.delivery_targets@),
        }
    }
}

pub open spec fn registration_views(v: Seq<ProjectRegistration>) -> Seq<RegistrationView> {
    v.map_values(|r: ProjectRegistration| r@)
}

/// Project summary exposed to trusted local transports.
#[derive(Clone, Debug, PartialEq, Eq)]
pub struct ProjectView {
    /// Stable project identity.
    pub id: String,
    /// Human-readable project name.
    pub name: String,
    /// Execution workspace identity or local reference.
    pub execution_workspace: String,
    /// Configured context source identities.
    pub context_sources: Vec<String>,
    /// Explicit grants as stable strings.
    pub grants: Vec<String>,
}

/// Result of listing registered projects.
#[derive(Clone, Debug, PartialEq, Eq)]
pub struct ListProjectsResult {
    /// Registered projects sorted by identity.
    pub projects: Vec<ProjectView>,
}

/// Result of reading configured project context.
#[derive(Clone, Debug, PartialEq, Eq)]
pub struct ProjectContextResult {
    /// Stable project identity.
    pub project_id: String,
    /// Explicit Work item reference, when supplied.
    pub work_item_id: Option<String>,
    /// Attributed entries from every configured source.
    pub sources: Vec<SourcedContext>,
}

/// Result of selecting active work.
#[derive(Clone, Debug, PartialEq, Eq)]
pub struct ActiveWorkItemResult {
    /// Stable project identity.
    pub project_id: String,
    /// Previously selected Work item, when present.
    pub previous_work_item_id: Option<String>,
    /// Newly selected Work item.
    pub current_work_item_id: String,
}

/// Current projection delivery summary.
#[derive(Clone, Debug, PartialEq, Eq)]
pub struct DeliveryView {
    /// Stable destination identity.
    pub destination_id: String,
    /// Current delivery state.
    pub status: String,
    /// Projection attempt count.
    pub attempts: u32,
    /// Bounded latest error or conflict summary.
    pub last_error: Option<String>,
}

/// Abstract value of a delivery summary.
pub struct DeliverySummaryView {
    pub destination_id: Seq<char>,
    pub status: Seq<char>,
    pub attempts: u32,
    pub last_error: Option<Seq<char>>,
}

impl View for DeliveryView {
    type V = DeliverySummaryView;

    open spec fn view(&self) -> DeliverySummaryView {
        DeliverySummaryView {
            destination_id: self.destination_id@,
            status: self.status@,
            attempts: self.attempts,
            last_error: opt_view(self.last_error),
        }
    }
}

pub open spec fn delivery_views(v: Seq<DeliveryView>) -> Seq<DeliverySummaryView> {
    v.map_values(|d: DeliveryView| d@)
}

/// Result of durable Progress Checkpoint intake.
#[derive(Clone, Debug, PartialEq, Eq)]
pub struct RecordProgressResult {
    /// Stable checkpoint identity.
    pub checkpoint_id: String,
    /// True when the same immutable record already existed.
    pub duplicate: bool,
    /// Independent destination delivery states.
    pub deliveries: Vec<DeliveryView>,
}

/// Result of inspecting one Progress Checkpoint.
#[derive(Clone, Debug, PartialEq, Eq)]
pub struct CheckpointStatusResult {
    /// Stable checkpoint identity.
    pub checkpoint_id: String,
    /// Immutable checkpoint payload.
    pub checkpoint: ProgressCheckpoint,
    /// Independent destination delivery states.
    pub deliveries: Vec<DeliveryView>,
}

/// Abstract value of an inspected checkpoint.
pub struct CheckpointResultView {
    pub checkpoint_id: Seq<char>,
    pub checkpoint: CheckpointView,
    pub deliveries: Seq<DeliverySummaryView>,
}

impl View for CheckpointStatusResult {
    type V = CheckpointResultView;

    open spec fn view(&self) -> CheckpointResultView {
        CheckpointResultView {
            checkpoint_id: self.checkpoint_id@,
            checkpoint: self.checkpoint@,
            deliveries: delivery_views(self.deliveries@),
        }
    }
}

/// Result of listing recorded progress for one project.
#[derive(Clone, Debug, PartialEq, Eq)]
pub struct ListProgressResult {
    /// Checkpoints in newest-first intake order.
    pub checkpoints: Vec<CheckpointStatusResult>,
    /// Cursor for the next older page when more records exist.
    pub next_cursor: Option<String>,
}

/// Stable Core bridge failure categories.
#[derive(Clone, Copy, Debug, PartialEq, Eq, Structural)]
pub enum CoreErrorCode {
    /// The request or payload violates the contract.
    InvalidRequest,
    /// The project does not grant the requested operation.
    PermissionDenied,
    /// The project is not registered.
    ProjectNotFound,
    /// The Work item is unknown to an attached Board Adapter.
    WorkItemNotFound,
    /// Board owns the item but its state cannot be selected as active work.
    WorkItemNotEligible,
    /// The configured local Board Adapter is unavailable.
    BoardUnavailable,
    /// The execution workspace is not connected.
    WorkspaceNotConnected,
    /// The checkpoint does not exist.
    CheckpointNotFound,
    /// An immutable identity was reused with different content.
    Conflict,
    /// A local implementation failure occurred.
    InternalError,
}

/// Bounded error returned across the Core bridge.
#[derive(Clone, Debug, PartialEq, Eq)]
pub struct CoreBridgeError {
    /// Stable machine-readable category.
    pub code: CoreErrorCode,
    /// Safe, bounded human-readable summary.
    pub message: String,
}

/// Operations available to trusted local transports.
#[derive(Debug)]
pub enum CoreBridgeOperation {
    /// List registered projects visible through Core.
    ListProjects,
    /// Read configured sourced context for one project.
    GetProjectContext { project_id: String, work_item_id: Option<String> },
    /// Select an operational Work item reference.
    SetActiveWorkItem { project_id: String, work_item_id: String },
    /// Submit one immutable Progress Checkpoint; `None` when the payload was not a
    /// well-formed checkpoint object.
    RecordProgress { checkpoint: Option<ProgressCheckpoint> },
    /// Inspect one stored Progress Checkpoint.
    GetCheckpointStatus { checkpoint_id: String },
    /// List accepted checkpoints for one project, newest first.
    ListProgress {
        project_id: String,
        work_item_id: Option<String>,
        before_checkpoint_id: Option<String>,
        limit: u16,
    },
}

/// One request sent to the local Core bridge.
#[derive(Debug)]
pub struct CoreBridgeRequest {
    /// Bridge protocol discriminator.
    pub protocol_version: String,
    /// Caller-assigned correlation identity.
    pub request_id: String,
    /// One bounded operation.
    pub operation: CoreBridgeOperation,
}

/// Operation-specific bounded result.
#[derive(Debug)]
pub enum CoreBridgeResult {
    Projects(ListProjectsResult),
    Context(ProjectContextResult),
    ActiveWork(ActiveWorkItemResult),
    Recorded(RecordProgressResult),
    Checkpoint(CheckpointStatusResult),
    Progress(ListProgressResult),
}

/// One response returned by the local Core bridge.
#[derive(Debug)]
pub enum CoreBridgeResponse {
    /// The operation completed successfully.
    Success { protocol_version: String, request_id: String, result: CoreBridgeResult },
    /// The operation failed with a stable public category.
    Error { protocol_version: String, request_id: String, error: CoreBridgeError },
}

/// Abstract value of an operation result.
pub enum ResultView {
    Projects(Seq<crate::registry::SummaryView>),
    Context(Seq<char>, Option<Seq<char>>, Seq<SourcedView>),
    ActiveWork(Seq<char>, Option<Seq<char>>, Seq<char>),
    Recorded(Seq<char>, bool, Seq<DeliverySummaryView>),
    Checkpoint(CheckpointResultView),
    Progress(Seq<CheckpointResultView>, Option<Seq<char>>),
}

pub open spec fn checkpoint_result_views(v: Seq<CheckpointStatusResult>) -> Seq<CheckpointResultView> {
    v.map_values(|c: CheckpointStatusResult| c@)
}

pub open spec fn project_summaries(v: Seq<ProjectView>) -> Seq<crate::registry::SummaryView> {
    v.map_values(|p: ProjectView| p@)
}

impl View for CoreBridgeResult {
    type V = ResultView;

    open spec fn view(&self) -> ResultView {
        match self {
            CoreBridgeResult::Projects(r) => ResultView::Projects(project_summaries(r.projects@)),
            CoreBridgeResult::Context(r) => ResultView::Context(
                r.project_id@,
                opt_view(r.work_item_id),
                sourced_views(r.sources@),
            ),
            CoreBridgeResult::ActiveWork(r) => ResultView::ActiveWork(
                r.project_id@,
                opt_view(r.previous_work_item_id),
                r.current_work_item_id@,
            ),
            CoreBridgeResult::Recorded(r) => ResultView::Recorded(
                r.checkpoint_id@,
                r.duplicate,
                delivery_views(r.deliveries@),
            ),
            CoreBridgeResult::Checkpoint(r) => ResultView::Checkpoint(r@),
            CoreBridgeResult::Progress(r) => ResultView::Progress(
                checkpoint_result_views(r.checkpoints@),
                opt_view(r.next_cursor),
            ),
        }
    }
}

/// Abstract value of an operation.
pub enum OperationView {
    ListProjects,
    GetProjectContext(Seq<char>, Option<Seq<char>>),
    SetActiveWorkItem(Seq<char>, Seq<char>),
    RecordProgress(Option<ProgressCheckpoint>),
    GetCheckpointStatus(Seq<char>),
    ListProgress(crate::progress::types::QueryView),
}

impl View for CoreBridgeOperation {
    type V = OperationView;

    open spec fn view(&self) -> OperationView {
        match self {
            CoreBridgeOperation::ListProjects => OperationView::ListProjects,
            CoreBridgeOperation::GetProjectContext { project_id, work_item_id } => OperationView::GetProjectContext(
                project_id@,
                opt_view(*work_item_id),
            ),
            CoreBridgeOperation::SetActiveWorkItem { project_id, work_item_id } => OperationView::SetActiveWorkItem(
                project_id@,
                work_item_id@,
            ),
            CoreBridgeOperation::RecordProgress { checkpoint } => OperationView::RecordProgress(
                *checkpoint,
            ),
            CoreBridgeOperation::GetCheckpointStatus { checkpoint_id } => OperationView::GetCheckpointStatus(
                checkpoint_id@,
            ),
            CoreBridgeOperation::ListProgress { project_id, work_item_id, before_checkpoint_id, limit } => OperationView::ListProgress(
                crate::progress::types::QueryView {
                    project_id: project_id@,
                    work_item_id: opt_view(*work_item_id),
                    before_checkpoint_id: opt_view(*before_checkpoint_id),
                    limit: *limit,
                },
            ),
        }
    }
}

} // verus!
