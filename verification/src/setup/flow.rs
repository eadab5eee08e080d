//! The step-by-step decisions of Setup and Doctor.
//!
//! Setup and Doctor alternate between local commands (the Core project list, the Codex
//! marketplace and Plugin lists) and decisions. Each machine here takes what the last command
//! reported and answers the next command to run, or the finished report, or the failure.
//! The caller runs the commands, reads their JSON output, and feeds the results back.

use vstd::prelude::*;

use crate::contracts::{registration_views, ProjectRegistration, RegistrationView};
use crate::ordered::{copy_str, str_eq};
use crate::progress::types::opt_view;
use crate::setup::{
    applied_report, applied_view, doctor_report, doctor_view, dry_run_report, dry_run_view,
    find_plugin, find_project, first_project, marketplace_decision, plugin_action, plugin_ready,
    plugin_ready_spec, project_decision, verify_registration, PluginAction, PluginEntry,
    ReportView, SetupReport, MARKETPLACE_NAME, PLUGIN_ID,
};

verus! {

/// One entry of the Codex marketplace list: its name, and whether its root is the marketplace
/// root Setup expects (as the filesystem resolves both paths).
#[derive(Clone, Debug, PartialEq, Eq)]
pub struct MarketplaceEntry {
    pub name: String,
    pub same_root: bool,
}

/// What the last step reported.
#[derive(Debug)]
pub enum SetupEvent {
    /// The Core binary was installed.
    CoreInstalled,
    /// The registrations that `gareji-core project list` returned.
    Projects(Vec<ProjectRegistration>),
    /// `gareji-core project register` accepted the registration.
    ProjectRegistered,
    /// The marketplaces that `codex plugin marketplace list` returned.
    Marketplaces(Vec<MarketplaceEntry>),
    /// `codex plugin marketplace add` succeeded.
    MarketplaceAdded,
    /// The installed Plugins that `codex plugin list` returned.
    Plugins(Vec<PluginEntry>),
    /// `codex plugin remove` succeeded.
    PluginRemoved,
    /// `codex plugin add` succeeded.
    PluginAdded,
}

/// The next step.
#[derive(Debug)]
pub enum SetupAction {
    /// Install the Core binary in the install directory.
    InstallCore,
    /// Run `gareji-core project list`.
    ListProjects,
    /// Run `gareji-core project register` with the expected registration.
    RegisterProject,
    /// Run `codex plugin marketplace list`.
    ListMarketplaces,
    /// Run `codex plugin marketplace add` with the marketplace root.
    AddMarketplace,
    /// Run `codex plugin list`.
    ListPlugins,
    /// Run `codex plugin remove` for the Gareji Progress Plugin.
    RemovePlugin,
    /// Run `codex plugin add` for the Gareji Progress Plugin.
    AddPlugin,
    /// Done: the report.
    Finish(SetupReport),
    /// Stopped: the failure message.
    Fail(String),
}

/// Abstract value of an event.
pub enum EventView {
    CoreInstalled,
    Projects(Seq<RegistrationView>),
    ProjectRegistered,
    Marketplaces(Seq<(Seq<char>, bool)>),
    MarketplaceAdded,
    Plugins(Seq<PluginEntry>),
    PluginRemoved,
    PluginAdded,
}

pub open spec fn marketplace_views(v: Seq<MarketplaceEntry>) -> Seq<(Seq<char>, bool)> {
    v.map_values(|m: MarketplaceEntry| (m.name@, m.same_root))
}

impl View for SetupEvent {
    type V = EventView;

    open spec fn view(&self) -> EventView {
        match self {
            SetupEvent::CoreInstalled => EventView::CoreInstalled,
            SetupEvent::Projects(p) => EventView::Projects(registration_views(p@)),
            SetupEvent::ProjectRegistered => EventView::ProjectRegistered,
            SetupEvent::Marketplaces(m) => EventView::Marketplaces(marketplace_views(m@)),
            SetupEvent::MarketplaceAdded => EventView::MarketplaceAdded,
            SetupEvent::Plugins(p) => EventView::Plugins(p@),
            SetupEvent::PluginRemoved => EventView::PluginRemoved,
            SetupEvent::PluginAdded => EventView::PluginAdded,
        }
    }
}

/// Abstract value of an action.
pub enum ActionView {
    InstallCore,
    ListProjects,
    RegisterProject,
    ListMarketplaces,
    AddMarketplace,
    ListPlugins,
    RemovePlugin,
    AddPlugin,
    Finish(ReportView),
    Fail(Seq<char>),
}

impl View for SetupAction {
    type V = ActionView;

    open spec fn view(&self) -> ActionView {
        match self {
            SetupAction::InstallCore => ActionView::InstallCore,
            SetupAction::ListProjects => ActionView::ListProjects,
            SetupAction::RegisterProject => ActionView::RegisterProject,
            SetupAction::ListMarketplaces => ActionView::ListMarketplaces,
            SetupAction::AddMarketplace => ActionView::AddMarketplace,
            SetupAction::ListPlugins => ActionView::ListPlugins,
            SetupAction::RemovePlugin => ActionView::RemovePlugin,
            SetupAction::AddPlugin => ActionView::AddPlugin,
            SetupAction::Finish(r) => ActionView::Finish(r@),
            SetupAction::Fail(m) => ActionView::Fail(m@),
        }
    }
}

/// Where a setup run stands: the step whose report it waits for.
#[derive(Clone, Copy, Debug, PartialEq, Eq, Structural)]
pub enum SetupPhase {
    InstallingCore,
    ListingProjects,
    Registering,
    VerifyingProject,
    ListingMarketplaces,
    AddingMarketplace,
    VerifyingMarketplace,
    ListingPlugins,
    RemovingPlugin,
    AddingPlugin,
    VerifyingPlugin,
    Done,
}

/// One setup run: what it must reach and what it changed so far.
pub struct SetupFlow {
    expected: ProjectRegistration,
    replace_project: bool,
    plugin_version: String,
    core_changed: bool,
    project_changed: bool,
    marketplace_changed: bool,
    phase: SetupPhase,
}

/// Abstract value of a setup run.
pub struct FlowView {
    pub expected: RegistrationView,
    pub replace_project: bool,
    pub plugin_version: Seq<char>,
    pub core_changed: bool,
    pub project_changed: bool,
    pub marketplace_changed: bool,
    pub phase: SetupPhase,
}

impl View for SetupFlow {
    type V = FlowView;

    closed spec fn view(&self) -> FlowView {
        FlowView {
            expected: self.expected@,
            replace_project: self.replace_project,
            plugin_version: self.plugin_version@,
            core_changed: self.core_changed,
            project_changed: self.project_changed,
            marketplace_changed: self.marketplace_changed,
            phase: self.phase,
        }
    }
}

/// Position of the first marketplace with the Gareji name, if any.
pub open spec fn first_marketplace(ms: Seq<(Seq<char>, bool)>) -> Option<int> {
    if exists|i: int| 0 <= i < ms.len() && ms[i].0 == MARKETPLACE_NAME@ {
        Some(
            choose|i: int|
                0 <= i < ms.len() && ms[i].0 == MARKETPLACE_NAME@ && forall|j: int|
                    0 <= j < i ==> ms[j].0 != MARKETPLACE_NAME@,
        )
    } else {
        None
    }
}

/// Position of the first Plugin with the Gareji Progress identity, if any.
pub open spec fn first_plugin(ps: Seq<PluginEntry>) -> Option<int> {
    if exists|i: int| 0 <= i < ps.len() && ps[i].plugin_id@ == PLUGIN_ID@ {
        Some(
            choose|i: int|
                0 <= i < ps.len() && ps[i].plugin_id@ == PLUGIN_ID@ && forall|j: int|
                    0 <= j < i ==> ps[j].plugin_id@ != PLUGIN_ID@,
        )
    } else {
        None
    }
}

/// The Gareji Progress Plugin entry of a Plugin list, if any.
pub open spec fn gareji_plugin(ps: Seq<PluginEntry>) -> Option<PluginEntry> {
    match first_plugin(ps) {
        Some(i) => Some(ps[i]),
        None => None,
    }
}

/// The message when Codex does not report the expected Plugin version after installing it.
pub open spec fn plugin_version_failure(version: Seq<char>) -> Seq<char> {
    "Codex did not report Gareji Progress Plugin version "@ + version + " as installed and enabled"@
}

pub open spec fn with_phase(s: FlowView, phase: SetupPhase) -> FlowView {
    FlowView { phase, ..s }
}

pub open spec fn failed(s: FlowView, message: Seq<char>) -> (FlowView, ActionView) {
    (with_phase(s, SetupPhase::Done), ActionView::Fail(message))
}

/// The finished report of a setup run, given whether the Plugin changed.
pub open spec fn finished(s: FlowView, plugin_changed: bool) -> (FlowView, ActionView) {
    (
        with_phase(s, SetupPhase::Done),
        ActionView::Finish(
            applied_view(
                s.expected.project_id,
                s.core_changed,
                s.project_changed,
                s.marketplace_changed,
                plugin_changed,
            ),
        ),
    )
}

/// How a setup run starts: a dry run only plans; otherwise the Core binary is installed when
/// it differs, then the project registrations are listed.
pub open spec fn setup_start(
    expected: RegistrationView,
    replace_project: bool,
    plugin_version: Seq<char>,
    core_changed: bool,
    dry_run: bool,
) -> (FlowView, ActionView) {
    let s = FlowView {
        expected,
        replace_project,
        plugin_version,
        core_changed,
        project_changed: false,
        marketplace_changed: false,
        phase: SetupPhase::Done,
    };
    if dry_run {
        (s, ActionView::Finish(dry_run_view(expected.project_id, core_changed)))
    } else if core_changed {
        (with_phase(s, SetupPhase::InstallingCore), ActionView::InstallCore)
    } else {
        (with_phase(s, SetupPhase::ListingProjects), ActionView::ListProjects)
    }
}

/// The next state and step after an event.
pub open spec fn setup_next(s: FlowView, e: EventView) -> (FlowView, ActionView) {
    match (s.phase, e) {
        (SetupPhase::InstallingCore, EventView::CoreInstalled) => (
            with_phase(s, SetupPhase::ListingProjects),
            ActionView::ListProjects,
        ),
        (SetupPhase::ListingProjects, EventView::Projects(ps)) => {
            let register = (
                FlowView { phase: SetupPhase::Registering, project_changed: true, ..s },
                ActionView::RegisterProject,
            );
            match first_project(ps, s.expected.project_id) {
                Some(i) => if ps[i] == s.expected {
                    (with_phase(s, SetupPhase::ListingMarketplaces), ActionView::ListMarketplaces)
                } else if !s.replace_project {
                    failed(
                        s,
                        "project is already registered with different settings; review it and pass --replace-project to update"@,
                    )
                } else {
                    register
                },
                None => register,
            }
        },
        (SetupPhase::Registering, EventView::ProjectRegistered) => (
            with_phase(s, SetupPhase::VerifyingProject),
            ActionView::ListProjects,
        ),
        (SetupPhase::VerifyingProject, EventView::Projects(ps)) => match first_project(
            ps,
            s.expected.project_id,
        ) {
            None => failed(s, "Core did not return the registered project"@),
            Some(i) => if ps[i] == s.expected {
                (with_phase(s, SetupPhase::ListingMarketplaces), ActionView::ListMarketplaces)
            } else {
                failed(s, "Core returned a project registration that differs from Setup input"@)
            },
        },
        (SetupPhase::ListingMarketplaces, EventView::Marketplaces(ms)) => match first_marketplace(
            ms,
        ) {
            Some(i) => if ms[i].1 {
                (with_phase(s, SetupPhase::ListingPlugins), ActionView::ListPlugins)
            } else {
                failed(s, "the gareji-local marketplace name is already mapped to another location"@)
            },
            None => (
                FlowView { phase: SetupPhase::AddingMarketplace, marketplace_changed: true, ..s },
                ActionView::AddMarketplace,
            ),
        },
        (SetupPhase::AddingMarketplace, EventView::MarketplaceAdded) => (
            with_phase(s, SetupPhase::VerifyingMarketplace),
            ActionView::ListMarketplaces,
        ),
        (SetupPhase::VerifyingMarketplace, EventView::Marketplaces(ms)) => if exists|i: int|
            0 <= i < ms.len() && ms[i].0 == MARKETPLACE_NAME@ && ms[i].1 {
            (with_phase(s, SetupPhase::ListingPlugins), ActionView::ListPlugins)
        } else {
            failed(s, "Codex did not retain the Gareji local marketplace"@)
        },
        (SetupPhase::ListingPlugins, EventView::Plugins(ps)) => if plugin_ready_spec(
            gareji_plugin(ps),
            Some(s.plugin_version),
        ) {
            finished(s, false)
        } else if gareji_plugin(ps) is Some {
            (with_phase(s, SetupPhase::RemovingPlugin), ActionView::RemovePlugin)
        } else {
            (with_phase(s, SetupPhase::AddingPlugin), ActionView::AddPlugin)
        },
        (SetupPhase::RemovingPlugin, EventView::PluginRemoved) => (
            with_phase(s, SetupPhase::AddingPlugin),
            ActionView::AddPlugin,
        ),
        (SetupPhase::AddingPlugin, EventView::PluginAdded) => (
            with_phase(s, SetupPhase::VerifyingPlugin),
            ActionView::ListPlugins,
        ),
        (SetupPhase::VerifyingPlugin, EventView::Plugins(ps)) => if plugin_ready_spec(
            gareji_plugin(ps),
            Some(s.plugin_version),
        ) {
            finished(s, true)
        } else {
            failed(s, plugin_version_failure(s.plugin_version))
        },
        _ => failed(s, "setup received a step report out of order"@),
    }
}

/// Position of the first marketplace with the Gareji name.
fn find_marketplace(ms: &Vec<MarketplaceEntry>) -> (r: Option<usize>)
    ensures
        match r {
            Some(i) => i < ms@.len() && first_marketplace(marketplace_views(ms@)) == Some(i as int),
            None => first_marketplace(marketplace_views(ms@)) is None,
        },
{
    let ghost v = marketplace_views(ms@);
    let mut i: usize = 0;
    while i < ms.len()
        invariant
            i <= ms@.len(),
            v == marketplace_views(ms@),
            forall|j: int| 0 <= j < i ==> v[j].0 != MARKETPLACE_NAME@,
        decreases ms@.len() - i,
    {
        if str_eq(ms[i].name.as_str(), MARKETPLACE_NAME) {
            proof {
                assert(v[i as int].0 == MARKETPLACE_NAME@);
                let k = choose|k: int|
                    0 <= k < v.len() && v[k].0 == MARKETPLACE_NAME@ && forall|j: int|
                        0 <= j < k ==> v[j].0 != MARKETPLACE_NAME@;
                if k < i {
                } else if k > i {
                }
                assert(k == i);
            }
            return Some(i);
        }
        i = i + 1;
    }
    None
}

/// Whether some marketplace has the Gareji name and the expected root.
fn marketplace_retained(ms: &Vec<MarketplaceEntry>) -> (r: bool)
    ensures
        r == exists|i: int|
            0 <= i < marketplace_views(ms@).len() && marketplace_views(ms@)[i].0 == MARKETPLACE_NAME@
                && marketplace_views(ms@)[i].1,
{
    let ghost v = marketplace_views(ms@);
    let mut i: usize = 0;
    while i < ms.len()
        invariant
            i <= ms@.len(),
            v == marketplace_views(ms@),
            forall|j: int| 0 <= j < i ==> !(v[j].0 == MARKETPLACE_NAME@ && v[j].1),
        decreases ms@.len() - i,
    {
        if str_eq(ms[i].name.as_str(), MARKETPLACE_NAME) && ms[i].same_root {
            assert(v[i as int].0 == MARKETPLACE_NAME@ && v[i as int].1);
            return true;
        }
        i = i + 1;
    }
    false
}

/// The Gareji Progress Plugin entry of a Plugin list.
fn gareji_entry(ps: &Vec<PluginEntry>) -> (r: Option<&PluginEntry>)
    ensures
        match r {
            Some(p) => gareji_plugin(ps@) == Some(*p),
            None => gareji_plugin(ps@) is None,
        },
{
    match find_plugin(ps) {
        Some(i) => {
            proof {
                let s = ps@;
                let k = choose|k: int|
                    0 <= k < s.len() && s[k].plugin_id@ == PLUGIN_ID@ && forall|j: int|
                        0 <= j < k ==> s[j].plugin_id@ != PLUGIN_ID@;
                if k < i {
                } else if k > i {
                }
                assert(k == i);
            }
            Some(&ps[i])
        },
        None => None,
    }
}

/// The failure message when the expected Plugin version is not reported after installation.
fn version_failure(version: &str) -> (r: String)
    ensures
        r@ == plugin_version_failure(version@),
{
    let mut out = copy_str("Codex did not report Gareji Progress Plugin version ");
    out.append(version);
    out.append(" as installed and enabled");
    out
}

impl SetupFlow {
    /// The registration Setup maintains.
    pub fn registration(&self) -> (r: &ProjectRegistration)
        ensures
            r@ == self@.expected,
    {
        &self.expected
    }

    /// Start a setup run.
    pub fn start(
        expected: ProjectRegistration,
        replace_project: bool,
        plugin_version: String,
        core_changed: bool,
        dry_run: bool,
    ) -> (r: (SetupFlow, SetupAction))
        ensures
            (r.0@, r.1@) == setup_start(expected@, replace_project, plugin_version@, core_changed, dry_run),
    {
        let ghost start = setup_start(expected@, replace_project, plugin_version@, core_changed, dry_run);
        let mut flow = SetupFlow {
            expected,
            replace_project,
            plugin_version,
            core_changed,
            project_changed: false,
            marketplace_changed: false,
            phase: SetupPhase::Done,
        };
        let action = if dry_run {
            SetupAction::Finish(dry_run_report(flow.expected.project_id.clone(), core_changed))
        } else if core_changed {
            flow.phase = SetupPhase::InstallingCore;
            SetupAction::InstallCore
        } else {
            flow.phase = SetupPhase::ListingProjects;
            SetupAction::ListProjects
        };
        assert(flow@ == start.0);
        (flow, action)
    }

    fn fail(&mut self, message: String) -> (r: SetupAction)
        ensures
            (final(self)@, r@) == failed(old(self)@, message@),
    {
        self.phase = SetupPhase::Done;
        SetupAction::Fail(message)
    }

    fn finish(&mut self, plugin_changed: bool) -> (r: SetupAction)
        ensures
            (final(self)@, r@) == finished(old(self)@, plugin_changed),
    {
        self.phase = SetupPhase::Done;
        SetupAction::Finish(
            applied_report(
                self.expected.project_id.clone(),
                self.core_changed,
                self.project_changed,
                self.marketplace_changed,
                plugin_changed,
            ),
        )
    }

    /// Take the report of the last step and answer the next one.
    pub fn next(&mut self, event: SetupEvent) -> (r: SetupAction)
        ensures
            (final(self)@, r@) == setup_next(old(self)@, event@),
    {
        let ghost e = event@;
        match (self.phase, event) {
            (SetupPhase::InstallingCore, SetupEvent::CoreInstalled) => {
                self.phase = SetupPhase::ListingProjects;
                SetupAction::ListProjects
            },
            (SetupPhase::ListingProjects, SetupEvent::Projects(ps)) => {
                let ghost v = registration_views(ps@);
                let existing = match find_project(&ps, self.expected.project_id.as_str()) {
                    Some(i) => {
                        assert(v[i as int] == ps@[i as int]@);
                        Some(&ps[i])
                    },
                    None => None,
                };
                match project_decision(existing, &self.expected, self.replace_project) {
                    Ok(false) => {
                        self.phase = SetupPhase::ListingMarketplaces;
                        SetupAction::ListMarketplaces
                    },
                    Ok(true) => {
                        self.project_changed = true;
                        self.phase = SetupPhase::Registering;
                        SetupAction::RegisterProject
                    },
                    Err(e) => self.fail(copy_str(e.message)),
                }
            },
            (SetupPhase::Registering, SetupEvent::ProjectRegistered) => {
                self.phase = SetupPhase::VerifyingProject;
                SetupAction::ListProjects
            },
            (SetupPhase::VerifyingProject, SetupEvent::Projects(ps)) => {
                let ghost v = registration_views(ps@);
                let existing = match find_project(&ps, self.expected.project_id.as_str()) {
                    Some(i) => {
                        assert(v[i as int] == ps@[i as int]@);
                        Some(&ps[i])
                    },
                    None => None,
                };
                match verify_registration(existing, &self.expected) {
                    Ok(()) => {
                        self.phase = SetupPhase::ListingMarketplaces;
                        SetupAction::ListMarketplaces
                    },
                    Err(e) => self.fail(copy_str(e.message)),
                }
            },
            (SetupPhase::ListingMarketplaces, SetupEvent::Marketplaces(ms)) => {
                let existing = match find_marketplace(&ms) {
                    Some(i) => {
                        assert(marketplace_views(ms@)[i as int].1 == ms@[i as int].same_root);
                        Some(ms[i].same_root)
                    },
                    None => None,
                };
                match marketplace_decision(existing) {
                    Ok(false) => {
                        self.phase = SetupPhase::ListingPlugins;
                        SetupAction::ListPlugins
                    },
                    Ok(true) => {
                        self.marketplace_changed = true;
                        self.phase = SetupPhase::AddingMarketplace;
                        SetupAction::AddMarketplace
                    },
                    Err(e) => self.fail(copy_str(e.message)),
                }
            },
            (SetupPhase::AddingMarketplace, SetupEvent::MarketplaceAdded) => {
                self.phase = SetupPhase::VerifyingMarketplace;
                SetupAction::ListMarketplaces
            },
            (SetupPhase::VerifyingMarketplace, SetupEvent::Marketplaces(ms)) => {
                if marketplace_retained(&ms) {
                    self.phase = SetupPhase::ListingPlugins;
                    SetupAction::ListPlugins
                } else {
                    self.fail(copy_str("Codex did not retain the Gareji local marketplace"))
                }
            },
            (SetupPhase::ListingPlugins, SetupEvent::Plugins(ps)) => {
                match plugin_action(gareji_entry(&ps), self.plugin_version.as_str()) {
                    PluginAction::Keep => self.finish(false),
                    PluginAction::Reinstall => {
                        self.phase = SetupPhase::RemovingPlugin;
                        SetupAction::RemovePlugin
                    },
                    PluginAction::Install => {
                        self.phase = SetupPhase::AddingPlugin;
                        SetupAction::AddPlugin
                    },
                }
            },
            (SetupPhase::RemovingPlugin, SetupEvent::PluginRemoved) => {
                self.phase = SetupPhase::AddingPlugin;
                SetupAction::AddPlugin
            },
            (SetupPhase::AddingPlugin, SetupEvent::PluginAdded) => {
                self.phase = SetupPhase::VerifyingPlugin;
                SetupAction::ListPlugins
            },
            (SetupPhase::VerifyingPlugin, SetupEvent::Plugins(ps)) => {
                let entry = gareji_entry(&ps);
                if plugin_ready(entry, Some(self.plugin_version.as_str())) {
                    self.finish(true)
                } else {
                    let message = version_failure(self.plugin_version.as_str());
                    self.fail(message)
                }
            },
            _ => self.fail(copy_str("setup received a step report out of order")),
        }
    }
}

/// Where a diagnosis stands: the listing whose report it waits for.
#[derive(Clone, Copy, Debug, PartialEq, Eq, Structural)]
pub enum DoctorPhase {
    ListingProjects,
    ListingMarketplaces,
    ListingPlugins,
    Done,
}

/// One diagnosis run: the layers found ready so far.
pub struct DoctorFlow {
    project_id: Option<String>,
    core_ready: bool,
    project_ready: bool,
    marketplace_ready: bool,
    phase: DoctorPhase,
}

/// Abstract value of a diagnosis run.
pub struct DoctorView {
    pub project_id: Option<Seq<char>>,
    pub core_ready: bool,
    pub project_ready: bool,
    pub marketplace_ready: bool,
    pub phase: DoctorPhase,
}

impl View for DoctorFlow {
    type V = DoctorView;

    closed spec fn view(&self) -> DoctorView {
        DoctorView {
            project_id: opt_view(self.project_id),
            core_ready: self.core_ready,
            project_ready: self.project_ready,
            marketplace_ready: self.marketplace_ready,
            phase: self.phase,
        }
    }
}

/// How a diagnosis starts: the project registrations are listed only when a project is named
/// and the Core binary is present; then the marketplaces, then the Plugins.
pub open spec fn doctor_start(project_id: Option<Seq<char>>, core_ready: bool) -> (DoctorView, ActionView) {
    let s = DoctorView {
        project_id,
        core_ready,
        project_ready: project_id is None,
        marketplace_ready: false,
        phase: DoctorPhase::ListingMarketplaces,
    };
    if project_id is Some && core_ready {
        (DoctorView { phase: DoctorPhase::ListingProjects, ..s }, ActionView::ListProjects)
    } else {
        (s, ActionView::ListMarketplaces)
    }
}

/// The next state and step of a diagnosis after an event.
pub open spec fn doctor_next(s: DoctorView, e: EventView) -> (DoctorView, ActionView) {
    match (s.phase, e) {
        (DoctorPhase::ListingProjects, EventView::Projects(ps)) => (
            DoctorView {
                phase: DoctorPhase::ListingMarketplaces,
                project_ready: match s.project_id {
                    Some(id) => first_project(ps, id) is Some,
                    None => false,
                },
                ..s
            },
            ActionView::ListMarketplaces,
        ),
        (DoctorPhase::ListingMarketplaces, EventView::Marketplaces(ms)) => (
            DoctorView {
                phase: DoctorPhase::ListingPlugins,
                marketplace_ready: first_marketplace(ms) is Some,
                ..s
            },
            ActionView::ListPlugins,
        ),
        (DoctorPhase::ListingPlugins, EventView::Plugins(ps)) => (
            DoctorView { phase: DoctorPhase::Done, ..s },
            ActionView::Finish(
                doctor_view(
                    s.project_id,
                    s.core_ready,
                    s.project_ready,
                    s.marketplace_ready,
                    plugin_ready_spec(gareji_plugin(ps), None),
                ),
            ),
        ),
        _ => (
            DoctorView { phase: DoctorPhase::Done, ..s },
            ActionView::Fail("doctor received a step report out of order"@),
        ),
    }
}

impl DoctorFlow {
    /// Start a diagnosis, given the optional project and whether the Core binary is present.
    pub fn start(project_id: Option<String>, core_ready: bool) -> (r: (DoctorFlow, SetupAction))
        ensures
            (r.0@, r.1@) == doctor_start(opt_view(project_id), core_ready),
    {
        let named = project_id.is_some();
        let mut flow = DoctorFlow {
            project_id,
            core_ready,
            project_ready: !named,
            marketplace_ready: false,
            phase: DoctorPhase::ListingMarketplaces,
        };
        if named && core_ready {
            flow.phase = DoctorPhase::ListingProjects;
            (flow, SetupAction::ListProjects)
        } else {
            (flow, SetupAction::ListMarketplaces)
        }
    }

    /// Take the report of the last listing and answer the next step.
    pub fn next(&mut self, event: SetupEvent) -> (r: SetupAction)
        ensures
            (final(self)@, r@) == doctor_next(old(self)@, event@),
    {
        match (self.phase, event) {
            (DoctorPhase::ListingProjects, SetupEvent::Projects(ps)) => {
                let found = match &self.project_id {
                    Some(id) => find_project(&ps, id.as_str()).is_some(),
                    None => false,
                };
                self.project_ready = found;
                self.phase = DoctorPhase::ListingMarketplaces;
                SetupAction::ListMarketplaces
            },
            (DoctorPhase::ListingMarketplaces, SetupEvent::Marketplaces(ms)) => {
                self.marketplace_ready = find_marketplace(&ms).is_some();
                self.phase = DoctorPhase::ListingPlugins;
                SetupAction::ListPlugins
            },
            (DoctorPhase::ListingPlugins, SetupEvent::Plugins(ps)) => {
                let ready = plugin_ready(gareji_entry(&ps), None);
                self.phase = DoctorPhase::Done;
                let project_id = match &self.project_id {
                    Some(id) => Some(id.clone()),
                    None => None,
                };
                SetupAction::Finish(
                    doctor_report(project_id, self.core_ready, self.project_ready, self.marketplace_ready, ready),
                )
            },
            _ => {
                self.phase = DoctorPhase::Done;
                SetupAction::Fail(copy_str("doctor received a step report out of order"))
            },
        }
    }
}

/// Doctor only looks: every step it asks for is a listing, and it ends with a report or a
/// failure.
pub proof fn law_doctor_never_repairs(
    project_id: Option<Seq<char>>,
    core_ready: bool,
    s: DoctorView,
    e: EventView,
)
    ensures
        ({
            let a = doctor_start(project_id, core_ready).1;
            a is ListProjects || a is ListMarketplaces
        }),
        ({
            let a = doctor_next(s, e).1;
            a is ListMarketplaces || a is ListPlugins || a is Finish || a is Fail
        }),
{
}

/// A dry run takes no step: it answers the plan at once.
pub proof fn law_dry_run_takes_no_step(
    expected: RegistrationView,
    replace_project: bool,
    plugin_version: Seq<char>,
    core_changed: bool,
)
    ensures
        setup_start(expected, replace_project, plugin_version, core_changed, true).1 == ActionView::Finish(
            dry_run_view(expected.project_id, core_changed),
        ),
{
}

/// A registration that differs from the one Setup maintains is replaced only with
/// `--replace-project`: without it the run stops before registering.
pub proof fn law_project_replacement_needs_permission(s: FlowView, ps: Seq<RegistrationView>)
    requires
        s.phase == SetupPhase::ListingProjects,
        !s.replace_project,
        first_project(ps, s.expected.project_id) matches Some(i) && ps[i] != s.expected,
    ensures
        setup_next(s, EventView::Projects(ps)).1 == ActionView::Fail(
            "project is already registered with different settings; review it and pass --replace-project to update"@,
        ),
{
}

/// Setup is idempotent: when the Core binary, the registration, the marketplace and the Plugin
/// already match, a run only lists them and reports every layer ready, with no Codex restart.
pub proof fn law_ready_installation_is_left_unchanged(
    expected: RegistrationView,
    replace_project: bool,
    plugin_version: Seq<char>,
    ps: Seq<RegistrationView>,
    ms: Seq<(Seq<char>, bool)>,
    pl: Seq<PluginEntry>,
)
    requires
        first_project(ps, expected.project_id) matches Some(i) && ps[i] == expected,
        first_marketplace(ms) matches Some(j) && ms[j].1,
        plugin_ready_spec(gareji_plugin(pl), Some(plugin_version)),
    ensures
        ({
            let (s0, a0) = setup_start(expected, replace_project, plugin_version, false, false);
            let (s1, a1) = setup_next(s0, EventView::Projects(ps));
            let (s2, a2) = setup_next(s1, EventView::Marketplaces(ms));
            let (s3, a3) = setup_next(s2, EventView::Plugins(pl));
            &&& a0 is ListProjects
            &&& a1 is ListMarketplaces
            &&& a2 is ListPlugins
            &&& a3 == ActionView::Finish(applied_view(expected.project_id, false, false, false, false))
            &&& !applied_view(expected.project_id, false, false, false, false).restart_codex
        }),
{
}

} // verus!
