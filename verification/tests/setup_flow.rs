use std::collections::VecDeque;

use gareji::contracts::{ProjectGrant, ProjectRegistration, SourcedContext};
use gareji::setup::flow::{DoctorFlow, MarketplaceEntry, SetupAction, SetupEvent, SetupFlow};
use gareji::setup::{
    binary_needs_install, default_data_dir, nearest_marketplace_root, DataDirBase, PluginEntry,
    StepStatus, PLUGIN_ID,
};

fn registration() -> ProjectRegistration {
    ProjectRegistration {
        project_id: "sample-project".to_owned(),
        name: "Sample Project".to_owned(),
        execution_workspace: "/work/sample-project".to_owned(),
        context_sources: vec!["local-markdown".to_owned()],
        grants: vec![ProjectGrant::ReadContext, ProjectGrant::WriteProgress],
        sourced_context: vec![SourcedContext {
            workspace_id: "local-markdown".to_owned(),
            source_id: "project-1".to_owned(),
            freshness: "configured".to_owned(),
            content: None,
            evidence_ref: Some("/work/sample-project/PROJECT.md".to_owned()),
        }],
        delivery_targets: vec![],
    }
}

fn plugins(version: &str) -> SetupEvent {
    SetupEvent::Plugins(vec![PluginEntry {
        plugin_id: PLUGIN_ID.to_owned(),
        version: version.to_owned(),
        installed: true,
        enabled: true,
    }])
}

fn marketplaces(same_root: bool) -> SetupEvent {
    SetupEvent::Marketplaces(vec![MarketplaceEntry {
        name: "gareji-local".to_owned(),
        same_root,
    }])
}

fn action_name(action: &SetupAction) -> &'static str {
    match action {
        SetupAction::InstallCore => "install-core",
        SetupAction::ListProjects => "project-list",
        SetupAction::RegisterProject => "project-register",
        SetupAction::ListMarketplaces => "marketplace-list",
        SetupAction::AddMarketplace => "marketplace-add",
        SetupAction::ListPlugins => "plugin-list",
        SetupAction::RemovePlugin => "plugin-remove",
        SetupAction::AddPlugin => "plugin-add",
        SetupAction::Finish(_) => "finish",
        SetupAction::Fail(_) => "fail",
    }
}

/// Answer each step with the next scripted event; answers the steps taken and the last action.
fn drive(
    mut next: impl FnMut(SetupEvent) -> SetupAction,
    first: SetupAction,
    events: Vec<SetupEvent>,
) -> (Vec<&'static str>, SetupAction) {
    let mut events = VecDeque::from(events);
    let mut steps = Vec::new();
    let mut action = first;
    loop {
        match action {
            SetupAction::Finish(_) | SetupAction::Fail(_) => return (steps, action),
            _ => {
                steps.push(action_name(&action));
                let event = events.pop_front().expect("one scripted event per step");
                action = next(event);
            }
        }
    }
}

fn run_setup(
    replace_project: bool,
    core_changed: bool,
    events: Vec<SetupEvent>,
) -> (Vec<&'static str>, SetupAction) {
    let (mut flow, first) = SetupFlow::start(
        registration(),
        replace_project,
        "0.1.1".to_owned(),
        core_changed,
        false,
    );
    drive(|event| flow.next(event), first, events)
}

#[test]
fn setup_installs_registers_and_verifies_every_layer() {
    let (steps, last) = run_setup(
        false,
        true,
        vec![
            SetupEvent::CoreInstalled,
            SetupEvent::Projects(vec![]),
            SetupEvent::ProjectRegistered,
            SetupEvent::Projects(vec![registration()]),
            SetupEvent::Marketplaces(vec![]),
            SetupEvent::MarketplaceAdded,
            marketplaces(true),
            SetupEvent::Plugins(vec![]),
            SetupEvent::PluginAdded,
            plugins("0.1.1"),
        ],
    );
    assert_eq!(
        steps,
        vec![
            "install-core",
            "project-list",
            "project-register",
            "project-list",
            "marketplace-list",
            "marketplace-add",
            "marketplace-list",
            "plugin-list",
            "plugin-add",
            "plugin-list",
        ]
    );
    let SetupAction::Finish(report) = last else {
        panic!("expected a report");
    };
    assert!(report.healthy);
    assert!(report.restart_codex);
    assert!(report
        .steps
        .iter()
        .all(|step| step.status == StepStatus::Changed));
}

#[test]
fn setup_is_idempotent_when_everything_is_ready() {
    let (steps, last) = run_setup(
        false,
        false,
        vec![
            SetupEvent::Projects(vec![registration()]),
            marketplaces(true),
            plugins("0.1.1"),
        ],
    );
    assert_eq!(steps, vec!["project-list", "marketplace-list", "plugin-list"]);
    let SetupAction::Finish(report) = last else {
        panic!("expected a report");
    };
    assert!(!report.restart_codex);
    for index in 0..4 {
        assert_eq!(report.steps[index].status, StepStatus::Ready);
    }
}

#[test]
fn setup_reinstalls_an_outdated_plugin_from_the_local_marketplace() {
    let (steps, last) = run_setup(
        false,
        false,
        vec![
            SetupEvent::Projects(vec![registration()]),
            marketplaces(true),
            plugins("0.1.0"),
            SetupEvent::PluginRemoved,
            SetupEvent::PluginAdded,
            plugins("0.1.1"),
        ],
    );
    assert_eq!(steps[3], "plugin-remove");
    assert_eq!(steps[4], "plugin-add");
    let SetupAction::Finish(report) = last else {
        panic!("expected a report");
    };
    assert!(report.restart_codex);
    assert_eq!(report.steps[3].status, StepStatus::Changed);
}

#[test]
fn detects_marketplace_name_conflicts_without_mutating() {
    let (steps, last) = run_setup(
        false,
        false,
        vec![
            SetupEvent::Projects(vec![registration()]),
            marketplaces(false),
        ],
    );
    let SetupAction::Fail(message) = last else {
        panic!("expected a failure");
    };
    assert!(message.contains("another location"));
    assert_eq!(steps, vec!["project-list", "marketplace-list"]);
}

#[test]
fn project_conflict_requires_explicit_replacement() {
    let mut existing = registration();
    existing.name = "Manually configured".to_owned();
    let (steps, last) = run_setup(false, false, vec![SetupEvent::Projects(vec![existing])]);
    let SetupAction::Fail(message) = last else {
        panic!("expected a failure");
    };
    assert!(message.contains("--replace-project"));
    assert_eq!(steps, vec!["project-list"]);

    let mut existing = registration();
    existing.name = "Manually configured".to_owned();
    let (steps, _) = run_setup(
        true,
        false,
        vec![
            SetupEvent::Projects(vec![existing]),
            SetupEvent::ProjectRegistered,
            SetupEvent::Projects(vec![registration()]),
            marketplaces(true),
            plugins("0.1.1"),
        ],
    );
    assert_eq!(steps[1], "project-register");
}

#[test]
fn setup_fails_when_codex_does_not_keep_the_new_state() {
    let (_, last) = run_setup(
        false,
        false,
        vec![
            SetupEvent::Projects(vec![registration()]),
            SetupEvent::Marketplaces(vec![]),
            SetupEvent::MarketplaceAdded,
            marketplaces(false),
        ],
    );
    let SetupAction::Fail(message) = last else {
        panic!("expected a failure");
    };
    assert_eq!(message, "Codex did not retain the Gareji local marketplace");

    let (_, last) = run_setup(
        false,
        false,
        vec![
            SetupEvent::Projects(vec![registration()]),
            marketplaces(true),
            SetupEvent::Plugins(vec![]),
            SetupEvent::PluginAdded,
            plugins("0.1.0"),
        ],
    );
    let SetupAction::Fail(message) = last else {
        panic!("expected a failure");
    };
    assert_eq!(
        message,
        "Codex did not report Gareji Progress Plugin version 0.1.1 as installed and enabled"
    );

    let (_, last) = run_setup(
        false,
        false,
        vec![SetupEvent::Projects(vec![]), SetupEvent::ProjectRegistered, SetupEvent::Projects(vec![])],
    );
    let SetupAction::Fail(message) = last else {
        panic!("expected a failure");
    };
    assert_eq!(message, "Core did not return the registered project");
}

#[test]
fn dry_run_setup_plans_without_any_step() {
    let (_, first) = SetupFlow::start(registration(), false, "0.1.1".to_owned(), true, true);
    let SetupAction::Finish(report) = first else {
        panic!("expected a plan");
    };
    assert!(report.healthy);
    assert_eq!(report.steps[0].status, StepStatus::Planned);
    assert!(report
        .steps
        .iter()
        .all(|step| matches!(step.status, StepStatus::Planned | StepStatus::Ready)));
}

#[test]
fn steps_out_of_order_stop_the_run() {
    let (mut flow, _) = SetupFlow::start(registration(), false, "0.1.1".to_owned(), false, false);
    assert!(matches!(flow.next(SetupEvent::PluginAdded), SetupAction::Fail(_)));
}

#[test]
fn doctor_reports_every_ready_layer_without_repair_commands() {
    let (mut flow, first) = DoctorFlow::start(Some("sample-project".to_owned()), true);
    let (steps, last) = drive(
        |event| flow.next(event),
        first,
        vec![
            SetupEvent::Projects(vec![registration()]),
            marketplaces(true),
            plugins("0.1.1"),
        ],
    );
    assert_eq!(steps, vec!["project-list", "marketplace-list", "plugin-list"]);
    let SetupAction::Finish(report) = last else {
        panic!("expected a report");
    };
    assert!(report.healthy);
    assert_eq!(report.steps.len(), 4);
}

#[test]
fn doctor_without_core_skips_the_project_listing() {
    let (mut flow, first) = DoctorFlow::start(Some("sample-project".to_owned()), false);
    let (steps, last) = drive(
        |event| flow.next(event),
        first,
        vec![SetupEvent::Marketplaces(vec![]), SetupEvent::Plugins(vec![])],
    );
    assert_eq!(steps, vec!["marketplace-list", "plugin-list"]);
    let SetupAction::Finish(report) = last else {
        panic!("expected a report");
    };
    assert!(!report.healthy);
    assert!(report
        .steps
        .iter()
        .all(|step| step.status == StepStatus::Missing));
}

#[test]
fn data_directory_follows_the_platform_rules() {
    let windows = default_data_dir(true, false, true, true, true).unwrap();
    assert_eq!(windows.base, DataDirBase::LocalAppData);
    assert_eq!(windows.components, vec!["Gareji"]);
    assert!(default_data_dir(true, false, false, true, true).is_err());
    let macos = default_data_dir(false, true, false, true, false).unwrap();
    assert_eq!(macos.base, DataDirBase::HomeApplicationSupport);
    assert_eq!(macos.components, vec!["Library/Application Support", "Gareji"]);
    let xdg = default_data_dir(false, false, false, true, true).unwrap();
    assert_eq!(xdg.base, DataDirBase::XdgDataHome);
    assert_eq!(xdg.components, vec!["Gareji"]);
    let home = default_data_dir(false, false, false, true, false).unwrap();
    assert_eq!(home.base, DataDirBase::HomeLocalShare);
    assert_eq!(home.components, vec![".local/share", "Gareji"]);
    assert_eq!(
        default_data_dir(false, false, false, false, false)
            .unwrap_err()
            .message,
        "could not resolve the local application-data directory"
    );
    assert_eq!(DataDirBase::HomeLocalShare.suffix(), Some(".local/share"));
    assert_eq!(DataDirBase::LocalAppData.variable(), "LOCALAPPDATA");
}

#[test]
fn binary_install_follows_the_content_digest() {
    assert!(binary_needs_install(false, b"core", b"core"));
    assert!(!binary_needs_install(true, b"core", b"core"));
    assert!(binary_needs_install(true, b"core v2", b"core"));
    assert!(!binary_needs_install(true, b"", b""));
}

#[test]
fn nearest_marketplace_root_is_the_first_complete_ancestor() {
    let layouts = vec![(true, false), (false, true), (true, true), (true, true)];
    assert_eq!(nearest_marketplace_root(&layouts), Some(2));
    assert_eq!(nearest_marketplace_root(&vec![(true, false), (false, false)]), None);
    assert_eq!(nearest_marketplace_root(&Vec::new()), None);
}
