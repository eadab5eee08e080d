//! Idempotent first-run setup and diagnosis of a local Gareji installation: the reports and
//! every decision between the filesystem and command steps that the caller performs.

pub mod flow;
pub mod presentation;

use sha2::Digest;
use vstd::prelude::*;

use crate::contracts::{registration_views, sourced_views, ProjectGrant, ProjectRegistration, SourcedContext};
use crate::ordered::{bytes_eq, copy_str, str_eq, string_views};
use crate::progress::types::opt_view;
use crate::text::{
    char_len, decimal, decimal_text, has_visible_char, is_whitespace, push_char, char_is_whitespace,
};

verus! {

/// Where the local application-data directory comes from: an environment variable and a
/// relative suffix joined to its path.
#[derive(Clone, Copy, Debug, PartialEq, Eq, Structural)]
pub enum DataDirBase {
    /// `LOCALAPPDATA` (Windows).
    LocalAppData,
    /// `HOME`, then `Library/Application Support` (macOS).
    HomeApplicationSupport,
    /// `XDG_DATA_HOME` (other systems).
    XdgDataHome,
    /// `HOME`, then `.local/share` (other systems without `XDG_DATA_HOME`).
    HomeLocalShare,
}

pub open spec fn data_dir_base(
    windows: bool,
    macos: bool,
    local_app_data_set: bool,
    home_set: bool,
    xdg_data_home_set: bool,
) -> Option<DataDirBase> {
    if windows {
        if local_app_data_set {
            Some(DataDirBase::LocalAppData)
        } else {
            None
        }
    } else if macos {
        if home_set {
            Some(DataDirBase::HomeApplicationSupport)
        } else {
            None
        }
    } else if xdg_data_home_set {
        Some(DataDirBase::XdgDataHome)
    } else if home_set {
        Some(DataDirBase::HomeLocalShare)
    } else {
        None
    }
}

/// The application directory's own name, joined last.
pub const APP_DIRECTORY_NAME: &'static str = "Gareji";

/// The application-data directory: the path of `base`'s environment variable, then each of
/// `components` joined in turn. The last component is always `Gareji`.
#[derive(Clone, Debug, PartialEq, Eq)]
pub struct DataDirectory {
    pub base: DataDirBase,
    pub components: Vec<&'static str>,
}

pub open spec fn str_views(s: Seq<&'static str>) -> Seq<Seq<char>> {
    s.map_values(|x: &'static str| x@)
}

/// The relative components joined to the base variable's path.
pub open spec fn data_dir_components(base: DataDirBase) -> Seq<Seq<char>> {
    match base {
        DataDirBase::HomeApplicationSupport => seq!["Library/Application Support"@, "Gareji"@],
        DataDirBase::HomeLocalShare => seq![".local/share"@, "Gareji"@],
        _ => seq!["Gareji"@],
    }
}

/// Resolve the platform-specific Gareji application-data directory, given the platform and
/// which of `LOCALAPPDATA`, `HOME` and `XDG_DATA_HOME` are set to a non-empty value.
pub fn default_data_dir(
    windows: bool,
    macos: bool,
    local_app_data_set: bool,
    home_set: bool,
    xdg_data_home_set: bool,
) -> (r: Result<DataDirectory, SetupError>)
    ensures
        match data_dir_base(windows, macos, local_app_data_set, home_set, xdg_data_home_set) {
            Some(b) => r matches Ok(d) && d.base == b && str_views(d.components@) == data_dir_components(b),
            None => r matches Err(e) && e.message@ == "could not resolve the local application-data directory"@,
        },
{
    let base = if windows {
        if local_app_data_set {
            Some(DataDirBase::LocalAppData)
        } else {
            None
        }
    } else if macos {
        if home_set {
            Some(DataDirBase::HomeApplicationSupport)
        } else {
            None
        }
    } else if xdg_data_home_set {
        Some(DataDirBase::XdgDataHome)
    } else if home_set {
        Some(DataDirBase::HomeLocalShare)
    } else {
        None
    };
    match base {
        Some(b) => {
            let mut components: Vec<&'static str> = Vec::new();
            match b.suffix() {
                Some(s) => components.push(s),
                None => {},
            }
            components.push(APP_DIRECTORY_NAME);
            proof {
                reveal_strlit("Gareji");
                assert(str_views(components@) =~= data_dir_components(b));
            }
            Ok(DataDirectory { base: b, components })
        },
        None => Err(SetupError { message: "could not resolve the local application-data directory" }),
    }
}

impl DataDirBase {
    /// The environment variable whose path the directory starts from.
    pub fn variable(self) -> (r: &'static str)
        ensures
            r@ == match self {
                DataDirBase::LocalAppData => "LOCALAPPDATA"@,
                DataDirBase::XdgDataHome => "XDG_DATA_HOME"@,
                _ => "HOME"@,
            },
    {
        match self {
            DataDirBase::LocalAppData => "LOCALAPPDATA",
            DataDirBase::XdgDataHome => "XDG_DATA_HOME",
            _ => "HOME",
        }
    }

    /// The relative path joined to the variable's path, if any.
    pub fn suffix(self) -> (r: Option<&'static str>)
        ensures
            match self {
                DataDirBase::HomeApplicationSupport => r matches Some(s) && s@ == "Library/Application Support"@,
                DataDirBase::HomeLocalShare => r matches Some(s) && s@ == ".local/share"@,
                _ => r is None,
            },
    {
        match self {
            DataDirBase::HomeApplicationSupport => Some("Library/Application Support"),
            DataDirBase::HomeLocalShare => Some(".local/share"),
            _ => None,
        }
    }
}

/// Name of the local Codex marketplace that distributes Gareji.
pub const MARKETPLACE_NAME: &'static str = "gareji-local";
/// Identity of the Gareji Progress Plugin in that marketplace.
pub const PLUGIN_ID: &'static str = "gareji-progress@gareji-local";
/// Most bytes a setup command may print on either stream.
pub const MAX_COMMAND_OUTPUT_BYTES: usize = 1048576;

/// One requested local installation and project registration.
#[derive(Clone, Debug, PartialEq, Eq)]
pub struct SetupRequest {
    /// Stable project identity. When omitted, Setup derives one from the workspace name.
    pub project_id: Option<String>,
    /// Human-readable project name. When omitted, Setup uses the workspace name.
    pub project_name: Option<String>,
    /// Absolute project workspace directory.
    pub workspace: String,
    /// One or more absolute Markdown context paths.
    pub context_paths: Vec<String>,
    /// Gareji Core binary to install.
    pub core_source: String,
    /// Directory that receives the installed Core binary.
    pub install_dir: String,
    /// Codex CLI executable.
    pub codex_binary: String,
    /// Local marketplace root containing `.agents/plugins/marketplace.json`.
    pub marketplace_root: String,
    /// Report intended changes without writing or invoking mutating commands.
    pub dry_run: bool,
    /// Replace a differing registration with the same project identity.
    pub replace_project: bool,
}

/// Inputs for a non-repairing Gareji installation diagnosis.
#[derive(Clone, Debug, PartialEq, Eq)]
pub struct DoctorRequest {
    /// Directory that should contain the installed Core binary.
    pub install_dir: String,
    /// Codex CLI executable.
    pub codex_binary: String,
    /// Optional project identity that should be registered.
    pub project_id: Option<String>,
}

/// Inputs for a project-centered, non-repairing status view.
#[derive(Clone, Debug, PartialEq, Eq)]
pub struct StatusRequest {
    /// Registered project workspace. Relative paths are resolved before matching.
    pub workspace: String,
    /// Directory that should contain the installed Core binary.
    pub install_dir: String,
    /// Codex CLI executable.
    pub codex_binary: String,
    /// Maximum number of recent Progress Checkpoints to return.
    pub limit: u16,
}

/// The layers that Setup installs and Doctor diagnoses.
#[derive(Clone, Copy, Debug, PartialEq, Eq, Structural)]
pub enum StepKind {
    Core,
    Project,
    Marketplace,
    Plugin,
}

pub open spec fn step_name(k: StepKind) -> Seq<char> {
    match k {
        StepKind::Core => "core"@,
        StepKind::Project => "project"@,
        StepKind::Marketplace => "marketplace"@,
        StepKind::Plugin => "plugin"@,
    }
}

impl StepKind {
    /// Stable name of the step.
    pub fn as_str(self) -> (r: &'static str)
        ensures
            r@ == step_name(self),
    {
        match self {
            StepKind::Core => "core",
            StepKind::Project => "project",
            StepKind::Marketplace => "marketplace",
            StepKind::Plugin => "plugin",
        }
    }

    /// Stable name of the step, owned.
    pub fn to_string(self) -> (r: String)
        ensures
            r@ == step_name(self),
    {
        copy_str(self.as_str())
    }
}

/// Result of one setup or diagnosis step.
#[derive(Clone, Copy, Debug, PartialEq, Eq, Structural)]
pub enum StepStatus {
    /// The desired state was already present.
    Ready,
    /// Setup changed local state.
    Changed,
    /// Dry-run identified a change that would be made.
    Planned,
    /// Doctor could not find the desired state.
    Missing,
}

/// One bounded setup or diagnosis observation.
#[derive(Clone, Debug, PartialEq, Eq)]
pub struct StepReport {
    /// Stable step name.
    pub step: StepKind,
    /// Current step status.
    pub status: StepStatus,
    /// Bounded human-readable explanation.
    pub message: String,
}

pub struct StepView {
    pub step: StepKind,
    pub status: StepStatus,
    pub message: Seq<char>,
}

impl View for StepReport {
    type V = StepView;

    open spec fn view(&self) -> StepView {
        StepView { step: self.step, status: self.status, message: self.message@ }
    }
}

pub open spec fn step_views(v: Seq<StepReport>) -> Seq<StepView> {
    v.map_values(|s: StepReport| s@)
}

/// Complete bounded report returned by Setup or Doctor.
#[derive(Clone, Debug, PartialEq, Eq)]
pub struct SetupReport {
    /// Project identity, when the operation was project-scoped.
    pub project_id: Option<String>,
    /// Ordered setup or diagnosis steps.
    pub steps: Vec<StepReport>,
    /// Whether Codex must restart and review the installed Hook.
    pub restart_codex: bool,
    /// Whether every diagnosed requirement is ready.
    pub healthy: bool,
}

pub struct ReportView {
    pub project_id: Option<Seq<char>>,
    pub steps: Seq<StepView>,
    pub restart_codex: bool,
    pub healthy: bool,
}

impl View for SetupReport {
    type V = ReportView;

    open spec fn view(&self) -> ReportView {
        ReportView {
            project_id: opt_view(self.project_id),
            steps: step_views(self.steps@),
            restart_codex: self.restart_codex,
            healthy: self.healthy,
        }
    }
}

/// One human-oriented, bounded progress observation.
#[derive(Clone, Debug, PartialEq, Eq)]
pub struct ActivityReport {
    /// Stable immutable checkpoint identity.
    pub checkpoint_id: String,
    /// UTC timestamp supplied by the accepted checkpoint.
    pub recorded_at: String,
    /// Stable checkpoint outcome.
    pub outcome: String,
    /// Bounded checkpoint summary.
    pub summary: String,
    /// Workspace-relative paths changed during the recorded turn.
    pub changed_paths: Vec<String>,
}

pub struct ActivityView {
    pub checkpoint_id: Seq<char>,
    pub recorded_at: Seq<char>,
    pub outcome: Seq<char>,
    pub summary: Seq<char>,
    pub changed_paths: Seq<Seq<char>>,
}

impl View for ActivityReport {
    type V = ActivityView;

    open spec fn view(&self) -> ActivityView {
        ActivityView {
            checkpoint_id: self.checkpoint_id@,
            recorded_at: self.recorded_at@,
            outcome: self.outcome@,
            summary: self.summary@,
            changed_paths: string_views(self.changed_paths@),
        }
    }
}

pub open spec fn activity_views(v: Seq<ActivityReport>) -> Seq<ActivityView> {
    v.map_values(|a: ActivityReport| a@)
}

/// Project-centered status returned by the user-facing `gareji status` Interface.
#[derive(Clone, Debug, PartialEq, Eq)]
pub struct StatusReport {
    /// Stable registered project identity.
    pub project_id: String,
    /// Human-readable registered project name.
    pub project_name: String,
    /// Canonical registered execution workspace.
    pub workspace: String,
    /// Number of attributed context references configured for the project.
    pub context_references: usize,
    /// Installation and integration health.
    pub health: SetupReport,
    /// Newest accepted project progress, in intake order.
    pub recent_activity: Vec<ActivityReport>,
}

/// Bounded output captured from one local command.
#[derive(Clone, Debug, PartialEq, Eq)]
pub struct CommandOutput {
    /// Process exit status represented as a success flag.
    pub success: bool,
    /// Bounded stdout bytes.
    pub stdout: Vec<u8>,
}

/// A failed setup step, with a stable explanation.
#[derive(Clone, Copy, Debug, PartialEq, Eq)]
pub struct SetupError {
    pub message: &'static str,
}

fn step(kind: StepKind, status: StepStatus, message: &str) -> (r: StepReport)
    ensures
        r@ == (StepView { step: kind, status, message: message@ }),
{
    StepReport { step: kind, status, message: copy_str(message) }
}

/// An ASCII letter or digit.
pub open spec fn ascii_alnum(c: char) -> bool {
    ('a' <= c && c <= 'z') || ('A' <= c && c <= 'Z') || ('0' <= c && c <= '9')
}

pub open spec fn ascii_lower(c: char) -> char {
    if 'A' <= c && c <= 'Z' {
        ((c as u32) + 32) as char
    } else {
        c
    }
}

fn lower(c: char) -> (r: char)
    ensures
        r == ascii_lower(c),
{
    if 'A' <= c && c <= 'Z' {
        let u = (c as u32) + 32;
        assert(u <= 0x7f);
        (u as u8) as char
    } else {
        c
    }
}

/// The slug built so far from a prefix of a name, and whether it ends in a hyphen: ASCII
/// letters and digits are kept in lowercase, and every run of other characters after the
/// first letter or digit becomes one hyphen.
pub open spec fn slug_state(s: Seq<char>) -> (Seq<char>, bool)
    decreases s.len(),
{
    if s.len() == 0 {
        (Seq::empty(), false)
    } else {
        let (id, hyphen) = slug_state(s.drop_last());
        let c = s.last();
        if ascii_alnum(c) {
            (id.push(ascii_lower(c)), false)
        } else if !hyphen && id.len() > 0 {
            (id.push('-'), true)
        } else {
            (id, hyphen)
        }
    }
}

/// The slug without trailing hyphens.
pub open spec fn trim_hyphens(s: Seq<char>) -> Seq<char>
    decreases s.len(),
{
    if s.len() > 0 && s.last() == '-' {
        trim_hyphens(s.drop_last())
    } else {
        s
    }
}

/// The project identity derived from a workspace directory name, if it has one.
pub open spec fn derived_id(name: Seq<char>) -> Seq<char> {
    trim_hyphens(slug_state(name).0)
}

/// Derive a bounded project identity from a workspace directory name (`None` when the
/// workspace has no usable name).
pub fn derive_project_id(workspace_name: Option<&str>) -> (r: Result<String, SetupError>)
    ensures
        match workspace_name {
            None => r matches Err(e) && e.message@ == "workspace has no usable directory name"@,
            Some(name) => if derived_id(name@).len() == 0 {
                r matches Err(e) && e.message@
                    == "could not derive an ASCII project identity; pass --project-id"@
            } else {
                r matches Ok(id) && id@ == derived_id(name@)
            },
        },
{
    let name = match workspace_name {
        Some(n) => n,
        None => {
            return Err(SetupError { message: "workspace has no usable directory name" });
        },
    };
    let mut id: Vec<char> = Vec::new();
    let mut previous_hyphen = false;
    for c in it: name.chars()
        invariant
            it.seq() == name@,
            (id@, previous_hyphen) == slug_state(it.seq().take(it.index() as int)),
    {
        proof {
            let p = it.seq().take(it.index() as int);
            assert(it.seq().take(it.index() + 1) =~= p.push(c));
            assert(p.push(c).drop_last() =~= p);
        }
        if ('a' <= c && c <= 'z') || ('A' <= c && c <= 'Z') || ('0' <= c && c <= '9') {
            id.push(lower(c));
            previous_hyphen = false;
        } else if !previous_hyphen && id.len() > 0 {
            id.push('-');
            previous_hyphen = true;
        }
    }
    assert(name@.take(name@.len() as int) =~= name@);
    while id.len() > 0 && id[id.len() - 1] == '-'
        invariant
            trim_hyphens(id@) == derived_id(name@),
        decreases id@.len(),
    {
        let ghost before = id@;
        id.pop();
        assert(before.drop_last() =~= id@);
    }
    if id.len() == 0 {
        return Err(SetupError { message: "could not derive an ASCII project identity; pass --project-id" });
    }
    let mut out = String::new();
    let mut i: usize = 0;
    while i < id.len()
        invariant
            i <= id@.len(),
            out@ == id@.take(i as int),
            trim_hyphens(id@) == id@,
            id@ == derived_id(name@),
        decreases id@.len() - i,
    {
        push_char(&mut out, id[i]);
        assert(id@.take(i + 1) =~= id@.take(i as int).push(id@[i as int]));
        i = i + 1;
    }
    assert(id@.take(id@.len() as int) =~= id@);
    Ok(out)
}

/// A context-source character kept in an identity: ASCII letters and digits in lowercase,
/// `-` and `_` unchanged.
pub open spec fn source_char(c: char) -> Option<char> {
    if ascii_alnum(c) {
        Some(ascii_lower(c))
    } else if c == '-' || c == '_' {
        Some(c)
    } else {
        None
    }
}

pub open spec fn source_chars(s: Seq<char>) -> Seq<char>
    decreases s.len(),
{
    if s.len() == 0 {
        s
    } else {
        match source_char(s.last()) {
            Some(d) => source_chars(s.drop_last()).push(d),
            None => source_chars(s.drop_last()),
        }
    }
}

/// The identity of the context source at `index` whose file stem is given: its kept
/// characters (at most 48, `context` when none), a hyphen, and its 1-based position.
pub open spec fn source_id(stem: Option<Seq<char>>, index: nat) -> Seq<char> {
    let raw = match stem {
        Some(s) => s,
        None => "context"@,
    };
    let kept = crate::text::prefix_at_most(source_chars(raw), 48);
    let id = if kept.len() == 0 {
        "context"@
    } else {
        kept
    };
    id + seq!['-'] + decimal(index + 1)
}

/// The identity of one configured context source.
pub fn context_source_id(stem: Option<&str>, index: usize) -> (r: String)
    requires
        index < u64::MAX,
    ensures
        r@ == source_id(
            match stem {
                Some(s) => Some(s@),
                None => None,
            },
            index as nat,
        ),
{
    let raw = match stem {
        Some(s) => s,
        None => "context",
    };
    let mut id = String::new();
    let mut count: usize = 0;
    let ghost mut all: Seq<char> = Seq::empty();
    for c in it: raw.chars()
        invariant
            it.seq() == raw@,
            all == source_chars(it.seq().take(it.index() as int)),
            id@ == crate::text::prefix_at_most(all, 48),
            count == id@.len(),
            count <= 48,
    {
        let ghost p = it.seq().take(it.index() as int);
        proof {
            assert(it.seq().take(it.index() + 1) =~= p.push(c));
            assert(p.push(c).drop_last() =~= p);
        }
        let kept: Option<char> = if ('a' <= c && c <= 'z') || ('A' <= c && c <= 'Z') || ('0' <= c
            && c <= '9') {
            Some(lower(c))
        } else if c == '-' || c == '_' {
            Some(c)
        } else {
            None
        };
        if let Some(d) = kept {
            proof {
                all = all.push(d);
            }
            if count < 48 {
                push_char(&mut id, d);
                count = count + 1;
                assert(id@ =~= crate::text::prefix_at_most(all, 48));
            } else {
                assert(all.take(48) =~= all.drop_last().take(48));
            }
        }
    }
    assert(raw@.take(raw@.len() as int) =~= raw@);
    let mut out = if count == 0 {
        copy_str("context")
    } else {
        id
    };
    push_char(&mut out, '-');
    let number = decimal_text((index as u64) + 1);
    out.append(number.as_str());
    out
}

/// The registration that Setup maintains for a workspace.
pub open spec fn registration_for(
    project_id: Seq<char>,
    name: Seq<char>,
    workspace: Seq<char>,
    context_paths: Seq<Seq<char>>,
    stems: Seq<Option<Seq<char>>>,
) -> crate::contracts::RegistrationView {
    crate::contracts::RegistrationView {
        project_id,
        name,
        execution_workspace: workspace,
        context_sources: seq!["local-markdown"@],
        grants: seq![ProjectGrant::ReadContext, ProjectGrant::WriteProgress],
        sourced_context: Seq::new(
            context_paths.len(),
            |i: int|
                crate::contracts::SourcedView {
                    workspace_id: "local-markdown"@,
                    source_id: source_id(stems[i], i as nat),
                    freshness: "configured"@,
                    content: None,
                    evidence_ref: Some(context_paths[i]),
                },
        ),
        delivery_targets: Seq::empty(),
    }
}

pub open spec fn opt_views(v: Seq<Option<String>>) -> Seq<Option<Seq<char>>> {
    v.map_values(|o: Option<String>| opt_view(o))
}

/// Build the registration Setup maintains: the requested identity or one derived from the
/// workspace name, the requested name or the workspace name (or the identity), and one
/// Markdown context reference per canonical context path with its file stem.
pub fn build_registration(
    request: &SetupRequest,
    workspace: &str,
    workspace_name: Option<&str>,
    context_paths: &Vec<String>,
    context_stems: &Vec<Option<String>>,
) -> (r: Result<ProjectRegistration, SetupError>)
    requires
        context_stems@.len() == context_paths@.len(),
    ensures
        ({
            let id_result = match request.project_id {
                Some(id) => Ok::<Seq<char>, ()>(id@),
                None => match workspace_name {
                    Some(n) => if derived_id(n@).len() == 0 {
                        Err(())
                    } else {
                        Ok(derived_id(n@))
                    },
                    None => Err(()),
                },
            };
            match id_result {
                Err(()) => r is Err,
                Ok(id) => r matches Ok(reg) && reg@ == registration_for(
                    id,
                    match request.project_name {
                        Some(n) => n@,
                        None => match workspace_name {
                            Some(w) => w@,
                            None => id,
                        },
                    },
                    workspace@,
                    string_views(context_paths@),
                    opt_views(context_stems@),
                ),
            }
        }),
{
    let project_id = match &request.project_id {
        Some(id) => id.clone(),
        None => derive_project_id(workspace_name)?,
    };
    let name = match &request.project_name {
        Some(n) => n.clone(),
        None => match workspace_name {
            Some(w) => copy_str(w),
            None => project_id.clone(),
        },
    };
    let mut sourced: Vec<SourcedContext> = Vec::new();
    let mut i: usize = 0;
    let ghost paths = string_views(context_paths@);
    let ghost stems = opt_views(context_stems@);
    while i < context_paths.len()
        invariant
            i <= context_paths@.len(),
            context_stems@.len() == context_paths@.len(),
            paths == string_views(context_paths@),
            stems == opt_views(context_stems@),
            sourced@.len() == i,
            forall|k: int|
                0 <= k < i ==> (#[trigger] sourced@[k])@ == (crate::contracts::SourcedView {
                    workspace_id: "local-markdown"@,
                    source_id: source_id(stems[k], k as nat),
                    freshness: "configured"@,
                    content: None,
                    evidence_ref: Some(paths[k]),
                }),
        decreases context_paths@.len() - i,
    {
        let stem: Option<&str> = match &context_stems[i] {
            Some(s) => Some(s.as_str()),
            None => None,
        };
        sourced.push(
            SourcedContext {
                workspace_id: copy_str("local-markdown"),
                source_id: context_source_id(stem, i),
                freshness: copy_str("configured"),
                content: None,
                evidence_ref: Some(context_paths[i].clone()),
            },
        );
        i = i + 1;
    }
    let mut context_sources: Vec<String> = Vec::new();
    context_sources.push(copy_str("local-markdown"));
    let mut grants: Vec<ProjectGrant> = Vec::new();
    grants.push(ProjectGrant::ReadContext);
    grants.push(ProjectGrant::WriteProgress);
    let r = ProjectRegistration {
        project_id,
        name,
        execution_workspace: copy_str(workspace),
        context_sources,
        grants,
        sourced_context: sourced,
        delivery_targets: Vec::new(),
    };
    proof {
        let expected = registration_for(r@.project_id, r@.name, workspace@, paths, stems);
        assert(r@.sourced_context =~= expected.sourced_context);
        assert(r@.context_sources =~= expected.context_sources);
        assert(r@.grants =~= expected.grants);
        assert(r@.delivery_targets =~= expected.delivery_targets);
    }
    Ok(r)
}

/// A report step for a layer that is ready or, when not, missing.
pub open spec fn ready_or_missing(ready: bool) -> StepStatus {
    if ready {
        StepStatus::Ready
    } else {
        StepStatus::Missing
    }
}

/// The plan that a dry run reports: Core ready or planned, every other layer planned.
pub open spec fn dry_run_view(project_id: Seq<char>, core_changed: bool) -> ReportView {
    ReportView {
        project_id: Some(project_id),
        steps: seq![
            if core_changed {
                StepView { step: StepKind::Core, status: StepStatus::Planned, message: "install Gareji Core in the local application-data directory"@ }
            } else {
                StepView { step: StepKind::Core, status: StepStatus::Ready, message: "installed Gareji Core already matches the requested binary"@ }
            },
            StepView { step: StepKind::Project, status: StepStatus::Planned, message: "create or replace the idempotent local project registration"@ },
            StepView { step: StepKind::Marketplace, status: StepStatus::Planned, message: "ensure the Gareji local Codex marketplace is configured"@ },
            StepView { step: StepKind::Plugin, status: StepStatus::Planned, message: "ensure the requested Gareji Progress Codex Plugin version is installed"@ },
        ],
        restart_codex: false,
        healthy: true,
    }
}

/// The report of a dry run.
pub fn dry_run_report(project_id: String, core_changed: bool) -> (r: SetupReport)
    ensures
        r@ == dry_run_view(project_id@, core_changed),
{
    let mut steps: Vec<StepReport> = Vec::new();
    if core_changed {
        steps.push(step(StepKind::Core, StepStatus::Planned, "install Gareji Core in the local application-data directory"));
    } else {
        steps.push(step(StepKind::Core, StepStatus::Ready, "installed Gareji Core already matches the requested binary"));
    }
    steps.push(step(StepKind::Project, StepStatus::Planned, "create or replace the idempotent local project registration"));
    steps.push(step(StepKind::Marketplace, StepStatus::Planned, "ensure the Gareji local Codex marketplace is configured"));
    steps.push(step(StepKind::Plugin, StepStatus::Planned, "ensure the requested Gareji Progress Codex Plugin version is installed"));
    let r = SetupReport { project_id: Some(project_id), steps, restart_codex: false, healthy: true };
    assert(r@.steps =~= dry_run_view(r@.project_id->0, core_changed).steps);
    r
}

/// The report of an applied setup, from what each layer needed.
pub open spec fn applied_view(
    project_id: Seq<char>,
    core_changed: bool,
    project_changed: bool,
    marketplace_changed: bool,
    plugin_changed: bool,
) -> ReportView {
    ReportView {
        project_id: Some(project_id),
        steps: seq![
            if core_changed {
                StepView { step: StepKind::Core, status: StepStatus::Changed, message: "installed Gareji Core in the local application-data directory"@ }
            } else {
                StepView { step: StepKind::Core, status: StepStatus::Ready, message: "installed Gareji Core already matches the requested binary"@ }
            },
            if project_changed {
                StepView { step: StepKind::Project, status: StepStatus::Changed, message: "registered the project with local Markdown context references"@ }
            } else {
                StepView { step: StepKind::Project, status: StepStatus::Ready, message: "the project registration already matches the requested configuration"@ }
            },
            if marketplace_changed {
                StepView { step: StepKind::Marketplace, status: StepStatus::Changed, message: "added the Gareji local Codex marketplace"@ }
            } else {
                StepView { step: StepKind::Marketplace, status: StepStatus::Ready, message: "the Gareji local Codex marketplace is already configured"@ }
            },
            if plugin_changed {
                StepView { step: StepKind::Plugin, status: StepStatus::Changed, message: "installed or updated the Gareji Progress Codex Plugin"@ }
            } else {
                StepView { step: StepKind::Plugin, status: StepStatus::Ready, message: "the Gareji Progress Codex Plugin is already installed and enabled"@ }
            },
        ],
        restart_codex: marketplace_changed || plugin_changed,
        healthy: true,
    }
}

/// The report of an applied setup; Codex must restart when its marketplace or Plugin changed.
pub fn applied_report(
    project_id: String,
    core_changed: bool,
    project_changed: bool,
    marketplace_changed: bool,
    plugin_changed: bool,
) -> (r: SetupReport)
    ensures
        r@ == applied_view(project_id@, core_changed, project_changed, marketplace_changed, plugin_changed),
{
    let mut steps: Vec<StepReport> = Vec::new();
    if core_changed {
        steps.push(step(StepKind::Core, StepStatus::Changed, "installed Gareji Core in the local application-data directory"));
    } else {
        steps.push(step(StepKind::Core, StepStatus::Ready, "installed Gareji Core already matches the requested binary"));
    }
    if project_changed {
        steps.push(step(StepKind::Project, StepStatus::Changed, "registered the project with local Markdown context references"));
    } else {
        steps.push(step(StepKind::Project, StepStatus::Ready, "the project registration already matches the requested configuration"));
    }
    if marketplace_changed {
        steps.push(step(StepKind::Marketplace, StepStatus::Changed, "added the Gareji local Codex marketplace"));
    } else {
        steps.push(step(StepKind::Marketplace, StepStatus::Ready, "the Gareji local Codex marketplace is already configured"));
    }
    if plugin_changed {
        steps.push(step(StepKind::Plugin, StepStatus::Changed, "installed or updated the Gareji Progress Codex Plugin"));
    } else {
        steps.push(step(StepKind::Plugin, StepStatus::Ready, "the Gareji Progress Codex Plugin is already installed and enabled"));
    }
    let r = SetupReport {
        project_id: Some(project_id),
        steps,
        restart_codex: marketplace_changed || plugin_changed,
        healthy: true,
    };
    assert(r@.steps =~= applied_view(r@.project_id->0, core_changed, project_changed, marketplace_changed, plugin_changed).steps);
    r
}

/// The diagnosis report: one step per layer (the project step only when a project was
/// named), healthy exactly when every diagnosed layer is ready.
pub open spec fn doctor_view(
    project_id: Option<Seq<char>>,
    core_ready: bool,
    project_ready: bool,
    marketplace_ready: bool,
    plugin_ready: bool,
) -> ReportView {
    let core = StepView {
        step: StepKind::Core,
        status: ready_or_missing(core_ready),
        message: if core_ready {
            "the installed Gareji Core binary is present"@
        } else {
            "the installed Gareji Core binary is missing"@
        },
    };
    let project = StepView {
        step: StepKind::Project,
        status: ready_or_missing(project_ready),
        message: if project_ready {
            "the requested project is registered"@
        } else {
            "the requested project is not registered"@
        },
    };
    let marketplace = StepView {
        step: StepKind::Marketplace,
        status: ready_or_missing(marketplace_ready),
        message: if marketplace_ready {
            "the Gareji local Codex marketplace is configured"@
        } else {
            "the Gareji local Codex marketplace is missing"@
        },
    };
    let plugin = StepView {
        step: StepKind::Plugin,
        status: ready_or_missing(plugin_ready),
        message: if plugin_ready {
            "the Gareji Progress Codex Plugin is installed and enabled"@
        } else {
            "the Gareji Progress Codex Plugin is missing or disabled"@
        },
    };
    let project_ok = project_id is None || project_ready;
    ReportView {
        project_id,
        steps: if project_id is Some {
            seq![core, project, marketplace, plugin]
        } else {
            seq![core, marketplace, plugin]
        },
        restart_codex: false,
        healthy: core_ready && project_ok && marketplace_ready && plugin_ready,
    }
}

/// Doctor calls an installation healthy only when every layer it diagnosed is ready: the Core
/// binary, the requested project when one is named, the marketplace and the Plugin. Its
/// report is healthy exactly when none of its steps is missing.
pub proof fn law_doctor_is_healthy_only_when_every_layer_is_ready(
    project_id: Option<Seq<char>>,
    core_ready: bool,
    project_ready: bool,
    marketplace_ready: bool,
    plugin_ready: bool,
)
    ensures
        ({
            let r = doctor_view(project_id, core_ready, project_ready, marketplace_ready, plugin_ready);
            &&& r.healthy <==> (core_ready && marketplace_ready && plugin_ready && (project_id is None
                || project_ready))
            &&& r.healthy <==> forall|i: int| 0 <= i < r.steps.len() ==> #[trigger] r.steps[i].status
                == StepStatus::Ready
            &&& !plugin_ready ==> !r.healthy
        }),
{
    let r = doctor_view(project_id, core_ready, project_ready, marketplace_ready, plugin_ready);
    let n = r.steps.len() as int;
    if !r.healthy {
        if !core_ready {
            assert(r.steps[0].status != StepStatus::Ready);
        } else if project_id is Some && !project_ready {
            assert(r.steps[1].status != StepStatus::Ready);
        } else if !marketplace_ready {
            assert(r.steps[n - 2].status != StepStatus::Ready);
        } else {
            assert(r.steps[n - 1].status != StepStatus::Ready);
        }
    }
}

fn ready_step(kind: StepKind, ready: bool, ready_message: &str, missing_message: &str) -> (r: StepReport)
    ensures
        r@ == (StepView {
            step: kind,
            status: ready_or_missing(ready),
            message: if ready {
                ready_message@
            } else {
                missing_message@
            },
        }),
{
    if ready {
        step(kind, StepStatus::Ready, ready_message)
    } else {
        step(kind, StepStatus::Missing, missing_message)
    }
}

/// The diagnosis report of Doctor.
pub fn doctor_report(
    project_id: Option<String>,
    core_ready: bool,
    project_ready: bool,
    marketplace_ready: bool,
    plugin_ready: bool,
) -> (r: SetupReport)
    ensures
        r@ == doctor_view(opt_view(project_id), core_ready, project_ready, marketplace_ready, plugin_ready),
{
    let mut steps: Vec<StepReport> = Vec::new();
    steps.push(ready_step(StepKind::Core, core_ready, "the installed Gareji Core binary is present", "the installed Gareji Core binary is missing"));
    let named = project_id.is_some();
    if named {
        steps.push(ready_step(StepKind::Project, project_ready, "the requested project is registered", "the requested project is not registered"));
    }
    steps.push(ready_step(StepKind::Marketplace, marketplace_ready, "the Gareji local Codex marketplace is configured", "the Gareji local Codex marketplace is missing"));
    steps.push(ready_step(StepKind::Plugin, plugin_ready, "the Gareji Progress Codex Plugin is installed and enabled", "the Gareji Progress Codex Plugin is missing or disabled"));
    let healthy = core_ready && (!named || project_ready) && marketplace_ready && plugin_ready;
    let r = SetupReport { project_id, steps, restart_codex: false, healthy };
    assert(r@.steps =~= doctor_view(r@.project_id, core_ready, project_ready, marketplace_ready, plugin_ready).steps);
    r
}

/// Whether two context entries have the same content.
fn same_sourced(a: &SourcedContext, b: &SourcedContext) -> (r: bool)
    ensures
        r == (a@ == b@),
{
    str_eq(a.workspace_id.as_str(), b.workspace_id.as_str()) && str_eq(a.source_id.as_str(), b.source_id.as_str())
        && str_eq(a.freshness.as_str(), b.freshness.as_str()) && crate::progress::types::same_optional(
        &a.content,
        &b.content,
    ) && crate::progress::types::same_optional(&a.evidence_ref, &b.evidence_ref)
}

fn same_sourced_list(a: &Vec<SourcedContext>, b: &Vec<SourcedContext>) -> (r: bool)
    ensures
        r == (sourced_views(a@) == sourced_views(b@)),
{
    let ghost va = sourced_views(a@);
    let ghost vb = sourced_views(b@);
    if a.len() != b.len() {
        assert(va.len() != vb.len());
        return false;
    }
    let mut i: usize = 0;
    while i < a.len()
        invariant
            a@.len() == b@.len(),
            i <= a@.len(),
            va == sourced_views(a@),
            vb == sourced_views(b@),
            forall|k: int| 0 <= k < i ==> va[k] == vb[k],
        decreases a@.len() - i,
    {
        if !same_sourced(&a[i], &b[i]) {
            assert(va[i as int] != vb[i as int]);
            return false;
        }
        i = i + 1;
    }
    assert(va =~= vb);
    true
}

fn same_grants(a: &Vec<ProjectGrant>, b: &Vec<ProjectGrant>) -> (r: bool)
    ensures
        r == (a@ == b@),
{
    if a.len() != b.len() {
        return false;
    }
    let mut i: usize = 0;
    while i < a.len()
        invariant
            a@.len() == b@.len(),
            i <= a@.len(),
            forall|k: int| 0 <= k < i ==> a@[k] == b@[k],
        decreases a@.len() - i,
    {
        if a[i] != b[i] {
            return false;
        }
        i = i + 1;
    }
    assert(a@ =~= b@);
    true
}

/// Whether two registrations have the same content.
pub fn same_registration(a: &ProjectRegistration, b: &ProjectRegistration) -> (r: bool)
    ensures
        r == (a@ == b@),
{
    str_eq(a.project_id.as_str(), b.project_id.as_str()) && str_eq(a.name.as_str(), b.name.as_str())
        && str_eq(a.execution_workspace.as_str(), b.execution_workspace.as_str())
        && crate::progress::types::same_strings(&a.context_sources, &b.context_sources)
        && same_grants(&a.grants, &b.grants) && same_sourced_list(&a.sourced_context, &b.sourced_context)
        && crate::progress::types::same_strings(&a.delivery_targets, &b.delivery_targets)
}

/// Position of the first registration with the identity, if any.
pub open spec fn first_project(ps: Seq<crate::contracts::RegistrationView>, id: Seq<char>) -> Option<int> {
    if exists|i: int| 0 <= i < ps.len() && ps[i].project_id == id {
        Some(choose|i: int| 0 <= i < ps.len() && ps[i].project_id == id && forall|j: int| 0 <= j < i ==> ps[j].project_id != id)
    } else {
        None
    }
}

/// Position of the first registration with the identity.
pub fn find_project(projects: &Vec<ProjectRegistration>, project_id: &str) -> (r: Option<usize>)
    ensures
        match r {
            Some(i) => i < projects@.len() && first_project(registration_views(projects@), project_id@) == Some(i as int),
            None => first_project(registration_views(projects@), project_id@) is None,
        },
{
    let ghost v = registration_views(projects@);
    let mut i: usize = 0;
    while i < projects.len()
        invariant
            i <= projects@.len(),
            v == registration_views(projects@),
            forall|j: int| 0 <= j < i ==> v[j].project_id != project_id@,
        decreases projects@.len() - i,
    {
        if str_eq(projects[i].project_id.as_str(), project_id) {
            proof {
                assert(v[i as int].project_id == project_id@);
                let k = choose|k: int|
                    0 <= k < v.len() && v[k].project_id == project_id@ && forall|j: int|
                        0 <= j < k ==> v[j].project_id != project_id@;
                if k < i {
                } else if k > i {
                }
                assert(k == i);
            }
            return Some(i);
        }
        i = i + 1;
    }
    None
}

/// Whether Setup must register the project: not when the same registration exists, refused
/// when a different one exists without permission to replace it.
pub fn project_decision(
    existing: Option<&ProjectRegistration>,
    expected: &ProjectRegistration,
    replace_project: bool,
) -> (r: Result<bool, SetupError>)
    ensures
        match existing {
            Some(e) => if e@ == expected@ {
                r == Ok::<bool, SetupError>(false)
            } else if !replace_project {
                r matches Err(x) && x.message@
                    == "project is already registered with different settings; review it and pass --replace-project to update"@
            } else {
                r == Ok::<bool, SetupError>(true)
            },
            None => r == Ok::<bool, SetupError>(true),
        },
{
    if let Some(e) = existing {
        if same_registration(e, expected) {
            return Ok(false);
        }
        if !replace_project {
            return Err(
                SetupError {
                    message: "project is already registered with different settings; review it and pass --replace-project to update",
                },
            );
        }
    }
    Ok(true)
}

/// Check that Core returned exactly the registration that Setup submitted.
pub fn verify_registration(existing: Option<&ProjectRegistration>, expected: &ProjectRegistration) -> (r:
    Result<(), SetupError>)
    ensures
        match existing {
            None => r matches Err(x) && x.message@ == "Core did not return the registered project"@,
            Some(e) => if e@ == expected@ {
                r is Ok
            } else {
                r matches Err(x) && x.message@
                    == "Core returned a project registration that differs from Setup input"@
            },
        },
{
    match existing {
        None => Err(SetupError { message: "Core did not return the registered project" }),
        Some(e) => if same_registration(e, expected) {
            Ok(())
        } else {
            Err(SetupError { message: "Core returned a project registration that differs from Setup input" })
        },
    }
}

/// Whether the Gareji marketplace must be added: not when it is configured at the expected
/// root, refused when its name points elsewhere. `existing` is whether the configured
/// marketplace of that name has the expected root, when there is one.
pub fn marketplace_decision(existing: Option<bool>) -> (r: Result<bool, SetupError>)
    ensures
        match existing {
            Some(true) => r == Ok::<bool, SetupError>(false),
            Some(false) => r matches Err(x) && x.message@
                == "the gareji-local marketplace name is already mapped to another location"@,
            None => r == Ok::<bool, SetupError>(true),
        },
{
    match existing {
        Some(true) => Ok(false),
        Some(false) => Err(SetupError { message: "the gareji-local marketplace name is already mapped to another location" }),
        None => Ok(true),
    }
}

/// One installed Codex Plugin as Codex lists it.
#[derive(Clone, Debug, PartialEq, Eq)]
pub struct PluginEntry {
    pub plugin_id: String,
    pub version: String,
    pub installed: bool,
    pub enabled: bool,
}

/// Position of the Gareji Progress Plugin in the installed list, if present.
pub fn find_plugin(entries: &Vec<PluginEntry>) -> (r: Option<usize>)
    ensures
        match r {
            Some(i) => i < entries@.len() && entries@[i as int].plugin_id@ == PLUGIN_ID@ && forall|j: int|
                0 <= j < i ==> entries@[j].plugin_id@ != PLUGIN_ID@,
            None => forall|j: int| 0 <= j < entries@.len() ==> entries@[j].plugin_id@ != PLUGIN_ID@,
        },
{
    let mut i: usize = 0;
    while i < entries.len()
        invariant
            i <= entries@.len(),
            forall|j: int| 0 <= j < i ==> entries@[j].plugin_id@ != PLUGIN_ID@,
        decreases entries@.len() - i,
    {
        if str_eq(entries[i].plugin_id.as_str(), PLUGIN_ID) {
            return Some(i);
        }
        i = i + 1;
    }
    None
}

/// The Plugin is installed, enabled and, when a version is expected, of that version.
pub open spec fn plugin_ready_spec(entry: Option<PluginEntry>, expected: Option<Seq<char>>) -> bool {
    match entry {
        Some(p) => p.installed && p.enabled && match expected {
            Some(v) => p.version@ == v,
            None => true,
        },
        None => false,
    }
}

/// Whether the Plugin is installed, enabled and, when a version is expected, of that version.
pub fn plugin_ready(entry: Option<&PluginEntry>, expected_version: Option<&str>) -> (r: bool)
    ensures
        r == plugin_ready_spec(
            match entry {
                Some(p) => Some(*p),
                None => None,
            },
            match expected_version {
                Some(v) => Some(v@),
                None => None,
            },
        ),
{
    match entry {
        Some(p) => p.installed && p.enabled && match expected_version {
            Some(v) => str_eq(p.version.as_str(), v),
            None => true,
        },
        None => false,
    }
}

/// What Setup does about the Plugin.
#[derive(Clone, Copy, Debug, PartialEq, Eq, Structural)]
pub enum PluginAction {
    /// The expected version is installed and enabled.
    Keep,
    /// Install it.
    Install,
    /// Remove the present copy, then install it.
    Reinstall,
}

/// What Setup does about the Plugin given the installed entry and the expected version.
pub fn plugin_action(entry: Option<&PluginEntry>, expected_version: &str) -> (r: PluginAction)
    ensures
        r == if plugin_ready_spec(
            match entry {
                Some(p) => Some(*p),
                None => None,
            },
            Some(expected_version@),
        ) {
            PluginAction::Keep
        } else if entry is Some {
            PluginAction::Reinstall
        } else {
            PluginAction::Install
        },
{
    if plugin_ready(entry, Some(expected_version)) {
        PluginAction::Keep
    } else if entry.is_some() {
        PluginAction::Reinstall
    } else {
        PluginAction::Install
    }
}

/// Check the page size of a status view.
pub fn validate_status_limit(limit: u16) -> (r: Result<(), SetupError>)
    ensures
        match r {
            Ok(()) => 1 <= limit <= 100,
            Err(e) => !(1 <= limit <= 100) && e.message@ == "status limit must be from 1 through 100"@,
        },
{
    if limit < 1 || limit > 100 {
        return Err(SetupError { message: "status limit must be from 1 through 100" });
    }
    Ok(())
}

/// Check that a marketplace root has both the catalog and the Plugin manifest.
pub fn validate_marketplace_layout(has_catalog: bool, has_plugin: bool) -> (r: Result<(), SetupError>)
    ensures
        if !has_catalog {
            r matches Err(e) && e.message@ == "marketplace root has no .agents/plugins/marketplace.json"@
        } else if !has_plugin {
            r matches Err(e) && e.message@ == "marketplace root has no Gareji Progress Plugin"@
        } else {
            r is Ok
        },
{
    if !has_catalog {
        return Err(SetupError { message: "marketplace root has no .agents/plugins/marketplace.json" });
    }
    if !has_plugin {
        return Err(SetupError { message: "marketplace root has no Gareji Progress Plugin" });
    }
    Ok(())
}

/// Pick the nearest marketplace root among a path's ancestors, nearest first: each entry says
/// whether that ancestor has the catalog and whether it has the Plugin manifest. The result is
/// the index of the first ancestor that has both.
pub fn nearest_marketplace_root(layouts: &Vec<(bool, bool)>) -> (r: Option<usize>)
    ensures
        match r {
            Some(i) => i < layouts@.len() && layouts@[i as int] == (true, true)
                && forall|j: int| 0 <= j < i ==> layouts@[j] != (true, true),
            None => forall|j: int| 0 <= j < layouts@.len() ==> layouts@[j] != (true, true),
        },
{
    let mut i: usize = 0;
    while i < layouts.len()
        invariant
            i <= layouts@.len(),
            forall|j: int| 0 <= j < i ==> layouts@[j] != (true, true),
        decreases layouts@.len() - i,
    {
        let (has_catalog, has_plugin) = layouts[i];
        if validate_marketplace_layout(has_catalog, has_plugin).is_ok() {
            return Some(i);
        }
        i += 1;
    }
    None
}

/// The SHA-256 digest of a byte string.
pub uninterp spec fn sha256_digest(bytes: Seq<u8>) -> Seq<u8>;

/// `sha2::Sha256::digest`: its contract claims only that the digest it returns is a function
/// of the bytes alone, named `sha256_digest`.
#[verifier::external_body]
fn sha256(bytes: &[u8]) -> (r: Vec<u8>)
    ensures
        r@ == sha256_digest(bytes@),
{
    sha2::Sha256::digest(bytes).to_vec()
}

/// Whether the Core binary has to be copied to its install path: when nothing is installed
/// there yet, or when the installed bytes hash differently from the source's.
pub fn binary_needs_install(destination_is_file: bool, source: &[u8], destination: &[u8]) -> (r: bool)
    ensures
        r == (!destination_is_file || sha256_digest(source@) != sha256_digest(destination@)),
{
    if !destination_is_file {
        return true;
    }
    let source_digest = sha256(source);
    let destination_digest = sha256(destination);
    !bytes_eq(&source_digest, &destination_digest)
}

/// Whether a command's captured output stays within the bound on both streams.
pub fn command_output_fits(stdout_len: usize, stderr_len: usize) -> (r: bool)
    ensures
        r == (stdout_len <= MAX_COMMAND_OUTPUT_BYTES && stderr_len <= MAX_COMMAND_OUTPUT_BYTES),
{
    stdout_len <= MAX_COMMAND_OUTPUT_BYTES && stderr_len <= MAX_COMMAND_OUTPUT_BYTES
}

/// File name of the Core binary on the platform.
pub fn core_binary_name(windows: bool) -> (r: &'static str)
    ensures
        r@ == if windows {
            "gareji-core.exe"@
        } else {
            "gareji-core"@
        },
{
    if windows {
        "gareji-core.exe"
    } else {
        "gareji-core"
    }
}

/// The extension names a file of the given kind, ignoring ASCII case.
pub open spec fn extension_is(ext: Option<Seq<char>>, lower_name: Seq<char>) -> bool {
    match ext {
        Some(e) => e.len() == lower_name.len() && forall|i: int| 0 <= i < e.len() ==> ascii_lower(#[trigger] e[i]) == lower_name[i],
        None => false,
    }
}

fn extension_matches(ext: Option<&str>, lower_name: &str) -> (r: bool)
    ensures
        r == extension_is(
            match ext {
                Some(e) => Some(e@),
                None => None,
            },
            lower_name@,
        ),
{
    let e = match ext {
        Some(e) => e,
        None => {
            return false;
        },
    };
    let n = char_len(e);
    if n != char_len(lower_name) {
        return false;
    }
    let mut i: usize = 0;
    while i < n
        invariant
            ext matches Some(x) && x@ == e@,
            n == e@.len(),
            n == lower_name@.len(),
            i <= n,
            forall|j: int| 0 <= j < i ==> ascii_lower(#[trigger] e@[j]) == lower_name@[j],
        decreases n - i,
    {
        if lower(e.get_char(i)) != lower_name.get_char(i) {
            assert(ascii_lower(e@[i as int]) != lower_name@[i as int]);
            return false;
        }
        i = i + 1;
    }
    true
}

/// Whether a context file's extension marks it as Markdown.
pub fn is_markdown_extension(ext: Option<&str>) -> (r: bool)
    ensures
        r == extension_is(
            match ext {
                Some(e) => Some(e@),
                None => None,
            },
            "md"@,
        ),
{
    extension_matches(ext, "md")
}

/// Whether a program must run through PowerShell: a `.ps1` script on Windows.
pub fn is_powershell_script(windows: bool, ext: Option<&str>) -> (r: bool)
    ensures
        r == (windows && extension_is(
            match ext {
                Some(e) => Some(e@),
                None => None,
            },
            "ps1"@,
        )),
{
    windows && extension_matches(ext, "ps1")
}

/// The verbatim prefix `\\?\` of Windows paths.
pub open spec fn verbatim_prefix() -> Seq<char> {
    seq!['\\', '\\', '?', '\\']
}

/// The verbatim UNC prefix `\\?\UNC\` of Windows paths.
pub open spec fn verbatim_unc_prefix() -> Seq<char> {
    seq!['\\', '\\', '?', '\\', 'U', 'N', 'C', '\\']
}

pub open spec fn starts_with(s: Seq<char>, p: Seq<char>) -> bool {
    p.len() <= s.len() && s.take(p.len() as int) == p
}

/// A Windows path without its verbatim prefix: `\\?\UNC\server\share` becomes
/// `\\server\share`, `\\?\C:\x` becomes `C:\x`, and other paths are unchanged.
pub open spec fn without_verbatim(s: Seq<char>) -> Seq<char> {
    if starts_with(s, verbatim_unc_prefix()) {
        seq!['\\', '\\'] + s.skip(8)
    } else if starts_with(s, verbatim_prefix()) {
        s.skip(4)
    } else {
        s
    }
}

fn has_prefix(s: &str, p: &str) -> (r: bool)
    ensures
        r == starts_with(s@, p@),
{
    let n = char_len(p);
    if n > char_len(s) {
        return false;
    }
    let mut i: usize = 0;
    while i < n
        invariant
            n == p@.len(),
            n <= s@.len(),
            i <= n,
            forall|j: int| 0 <= j < i ==> s@[j] == p@[j],
        decreases n - i,
    {
        if s.get_char(i) != p.get_char(i) {
            assert(s@.take(n as int)[i as int] != p@[i as int]);
            return false;
        }
        i = i + 1;
    }
    assert(s@.take(n as int) =~= p@);
    true
}

/// A path as a person reads it: without the verbatim Windows prefix.
pub fn human_windows_path(path: &str) -> (r: String)
    ensures
        r@ == without_verbatim(path@),
{
    let unc = "\\\\?\\UNC\\";
    let verbatim = "\\\\?\\";
    proof {
        reveal_strlit("\\\\?\\UNC\\");
        reveal_strlit("\\\\?\\");
        assert(unc@ =~= verbatim_unc_prefix());
        assert(verbatim@ =~= verbatim_prefix());
    }
    let n = char_len(path);
    if has_prefix(path, unc) {
        let mut out = String::new();
        push_char(&mut out, '\\');
        push_char(&mut out, '\\');
        let rest = path.substring_char(8, n);
        out.append(rest);
        assert(out@ =~= seq!['\\', '\\'] + path@.skip(8));
        return out;
    }
    if has_prefix(path, verbatim) {
        let rest = path.substring_char(4, n);
        let out = copy_str(rest);
        assert(out@ =~= path@.skip(4));
        return out;
    }
    copy_str(path)
}

/// The path handed to PowerShell: on Windows without its verbatim prefix, elsewhere
/// unchanged.
pub fn shell_compatible_path(path: &str, windows: bool) -> (r: String)
    ensures
        r@ == if windows {
            without_verbatim(path@)
        } else {
            path@
        },
{
    if !windows {
        return copy_str(path);
    }
    human_windows_path(path)
}

/// The text without leading Unicode whitespace.
pub open spec fn trim_start(s: Seq<char>) -> Seq<char>
    decreases s.len(),
{
    if s.len() > 0 && is_whitespace(s[0]) {
        trim_start(s.drop_first())
    } else {
        s
    }
}

/// The text without trailing Unicode whitespace.
pub open spec fn trim_end(s: Seq<char>) -> Seq<char>
    decreases s.len(),
{
    if s.len() > 0 && is_whitespace(s.last()) {
        trim_end(s.drop_last())
    } else {
        s
    }
}

pub open spec fn trimmed(s: Seq<char>) -> Seq<char> {
    trim_end(trim_start(s))
}

/// The text without surrounding Unicode whitespace.
pub fn trim_text(s: &str) -> (r: String)
    ensures
        r@ == trimmed(s@),
{
    let n = char_len(s);
    let mut i: usize = 0;
    assert(s@.skip(0) =~= s@);
    while i < n && char_is_whitespace(s.get_char(i))
        invariant
            n == s@.len(),
            i <= n,
            trim_start(s@) == trim_start(s@.skip(i as int)),
        decreases n - i,
    {
        assert(s@.skip(i as int).drop_first() =~= s@.skip(i + 1));
        i = i + 1;
    }
    let mut j: usize = n;
    assert(trim_start(s@.skip(i as int)) == s@.skip(i as int));
    assert(s@.skip(i as int) =~= s@.subrange(i as int, n as int));
    while j > i && char_is_whitespace(s.get_char(j - 1))
        invariant
            n == s@.len(),
            i <= j <= n,
            trimmed(s@) == trim_end(s@.subrange(i as int, j as int)),
        decreases j,
    {
        assert(s@.subrange(i as int, j as int).drop_last() =~= s@.subrange(i as int, j - 1));
        j = j - 1;
    }
    let out = copy_str(s.substring_char(i, j));
    out
}

/// Check the Plugin version from its manifest: trimmed, 1 to 128 bytes.
pub fn plugin_version(raw: &str) -> (r: Result<String, SetupError>)
    ensures
        ({
            let t = trimmed(raw@);
            let size = vstd::utf8::encode_utf8(t).len() as usize;
            if size == 0 || size > 128 {
                r matches Err(e) && e.message@
                    == "Gareji Progress Plugin version must contain 1 to 128 characters"@
            } else {
                r matches Ok(v) && v@ == t
            }
        }),
{
    let version = trim_text(raw);
    let size = version.as_str().len();
    if size == 0 || size > 128 {
        return Err(SetupError { message: "Gareji Progress Plugin version must contain 1 to 128 characters" });
    }
    Ok(version)
}

/// One accepted checkpoint as the status view shows it.
pub fn activity_report(
    checkpoint_id: String,
    recorded_at: String,
    outcome: String,
    summary: String,
    changed_paths: Vec<String>,
) -> (r: ActivityReport)
    ensures
        r@ == (ActivityView {
            checkpoint_id: checkpoint_id@,
            recorded_at: recorded_at@,
            outcome: outcome@,
            summary: summary@,
            changed_paths: string_views(changed_paths@),
        }),
{
    ActivityReport { checkpoint_id, recorded_at, outcome, summary, changed_paths }
}

/// The project-centered status of a registered project.
pub fn status_report(
    project: &ProjectRegistration,
    health: SetupReport,
    recent_activity: Vec<ActivityReport>,
) -> (r: StatusReport)
    ensures
        r.project_id@ == project@.project_id,
        r.project_name@ == project@.name,
        r.workspace@ == project@.execution_workspace,
        r.context_references == project@.sourced_context.len(),
        r.health@ == health@,
        activity_views(r.recent_activity@) == activity_views(recent_activity@),
{
    StatusReport {
        project_id: project.project_id.clone(),
        project_name: project.name.clone(),
        workspace: project.execution_workspace.clone(),
        context_references: project.sourced_context.len(),
        health,
        recent_activity,
    }
}

} // verus!
