use gareji::contracts::{ProjectGrant, ProjectRegistration, SourcedContext};
use gareji::setup::{
    applied_report, context_source_id, core_binary_name, derive_project_id, doctor_report,
    dry_run_report, find_plugin, human_windows_path, is_markdown_extension,
    is_powershell_script, marketplace_decision, plugin_action, plugin_ready, plugin_version,
    project_decision, shell_compatible_path, trim_text, validate_marketplace_layout,
    validate_status_limit, verify_registration, PluginAction, PluginEntry, StepKind, StepStatus,
    PLUGIN_ID,
};

fn registration() -> ProjectRegistration {
    ProjectRegistration {
        project_id: "sample-project".to_owned(),
        name: "Sample Project".to_owned(),
        execution_workspace: "/work/sample-project".to_owned(),
        context_sources: vec!["local-markdown".to_owned()],
        grants: vec![ProjectGrant::ReadContext, ProjectGrant::WriteProgress],
        sourced_context: vec![SourcedContext {
            workspace_id: "local-markdown".to_owned(),
            source_id: "project-1".to_owned(),
            freshness: "configured".to_owned(),
            content: None,
            evidence_ref: Some("/work/sample-project/PROJECT.md".to_owned()),
        }],
        delivery_targets: vec![],
    }
}

fn plugin(version: &str, enabled: bool) -> PluginEntry {
    PluginEntry {
        plugin_id: PLUGIN_ID.to_owned(),
        version: version.to_owned(),
        installed: true,
        enabled,
    }
}

#[test]
fn powershell_receives_a_non_verbatim_windows_path() {
    assert_eq!(
        shell_compatible_path(r"\\?\C:\tools\codex.ps1", true),
        r"C:\tools\codex.ps1".to_owned()
    );
}

#[test]
fn verbatim_prefixes_are_removed_only_on_windows() {
    assert_eq!(
        human_windows_path(r"\\?\UNC\server\share\Project"),
        r"\\server\share\Project"
    );
    assert_eq!(human_windows_path("/work/garage-ai"), "/work/garage-ai");
    assert_eq!(
        shell_compatible_path(r"\\?\C:\tools\codex.ps1", false),
        r"\\?\C:\tools\codex.ps1"
    );
}

#[test]
fn project_identity_is_derived_from_the_workspace_name() {
    assert_eq!(derive_project_id(Some("Garage AI")).unwrap(), "garage-ai");
    assert_eq!(derive_project_id(Some("--My__Repo--")).unwrap(), "my-repo");
    assert_eq!(
        derive_project_id(Some("日本")).unwrap_err().message,
        "could not derive an ASCII project identity; pass --project-id"
    );
    assert_eq!(
        derive_project_id(None).unwrap_err().message,
        "workspace has no usable directory name"
    );
}

#[test]
fn context_source_ids_keep_safe_characters_and_number_from_one() {
    assert_eq!(context_source_id(Some("PROJECT"), 0), "project-1");
    assert_eq!(context_source_id(Some("my notes_v2"), 1), "mynotes_v2-2");
    assert_eq!(context_source_id(Some("!!!"), 2), "context-3");
    assert_eq!(context_source_id(None, 0), "context-1");
    let long = "a".repeat(60);
    assert_eq!(context_source_id(Some(&long), 0), format!("{}-1", "a".repeat(48)));
}

#[test]
fn project_decision_needs_permission_to_replace() {
    let expected = registration();
    let mut existing = registration();
    existing.name = "Manually configured".to_owned();
    let error = project_decision(Some(&existing), &expected, false).unwrap_err();
    assert!(error.message.contains("--replace-project"));
    assert_eq!(project_decision(Some(&existing), &expected, true), Ok(true));
    assert_eq!(project_decision(Some(&expected), &expected, false), Ok(false));
    assert_eq!(project_decision(None, &expected, false), Ok(true));
}

#[test]
fn marketplace_decision_refuses_another_root() {
    let error = marketplace_decision(Some(false)).unwrap_err();
    assert!(error.message.contains("another location"));
    assert_eq!(marketplace_decision(Some(true)), Ok(false));
    assert_eq!(marketplace_decision(None), Ok(true));
}

#[test]
fn registration_must_read_back_unchanged() {
    let expected = registration();
    assert_eq!(verify_registration(Some(&expected), &expected), Ok(()));
    let mut other = registration();
    other.delivery_targets.push("json".to_owned());
    assert_eq!(
        verify_registration(Some(&other), &expected)
            .unwrap_err()
            .message,
        "Core returned a project registration that differs from Setup input"
    );
    assert_eq!(
        verify_registration(None, &expected).unwrap_err().message,
        "Core did not return the registered project"
    );
}

#[test]
fn outdated_plugin_is_reinstalled_and_missing_plugin_installed() {
    let current = plugin("0.1.1", true);
    let outdated = plugin("0.1.0", true);
    let disabled = plugin("0.1.1", false);
    assert_eq!(plugin_action(Some(&current), "0.1.1"), PluginAction::Keep);
    assert_eq!(plugin_action(Some(&outdated), "0.1.1"), PluginAction::Reinstall);
    assert_eq!(plugin_action(Some(&disabled), "0.1.1"), PluginAction::Reinstall);
    assert_eq!(plugin_action(None, "0.1.1"), PluginAction::Install);
    assert!(plugin_ready(Some(&outdated), None));
    assert!(!plugin_ready(Some(&outdated), Some("0.1.1")));
    assert!(!plugin_ready(None, None));

    let entries = vec![
        PluginEntry {
            plugin_id: "other@somewhere".to_owned(),
            version: "1".to_owned(),
            installed: true,
            enabled: true,
        },
        current.clone(),
    ];
    assert_eq!(find_plugin(&entries), Some(1));
    assert_eq!(find_plugin(&entries[..1].to_vec()), None);
}

#[test]
fn marketplace_layout_requires_both_catalog_and_plugin() {
    assert_eq!(validate_marketplace_layout(true, true), Ok(()));
    assert_eq!(
        validate_marketplace_layout(false, true).unwrap_err().message,
        "marketplace root has no .agents/plugins/marketplace.json"
    );
    assert_eq!(
        validate_marketplace_layout(true, false).unwrap_err().message,
        "marketplace root has no Gareji Progress Plugin"
    );
}

#[test]
fn dry_run_plans_without_changing_anything() {
    let report = dry_run_report("sample-project".to_owned(), true);
    assert!(report.healthy);
    assert!(!report.restart_codex);
    assert!(report
        .steps
        .iter()
        .all(|step| matches!(step.status, StepStatus::Planned | StepStatus::Ready)));
    assert_eq!(report.steps.len(), 4);
    assert_eq!(
        dry_run_report("sample-project".to_owned(), false).steps[0].status,
        StepStatus::Ready
    );
}

#[test]
fn applied_setup_restarts_codex_only_for_codex_changes() {
    let ready = applied_report("sample-project".to_owned(), false, false, false, false);
    assert!(!ready.restart_codex);
    assert!(ready.steps.iter().all(|step| step.status == StepStatus::Ready));
    let plugin_changed = applied_report("sample-project".to_owned(), false, false, false, true);
    assert!(plugin_changed.restart_codex);
    assert_eq!(plugin_changed.steps[3].status, StepStatus::Changed);
    let core_changed = applied_report("sample-project".to_owned(), true, true, false, false);
    assert!(!core_changed.restart_codex);
    assert_eq!(core_changed.steps[0].step.as_str(), "core");
}

#[test]
fn doctor_report_is_healthy_only_when_every_layer_is_ready() {
    let report = doctor_report(Some("sample-project".to_owned()), true, true, true, true);
    assert!(report.healthy);
    assert_eq!(report.steps.len(), 4);
    let unnamed = doctor_report(None, true, false, true, true);
    assert!(unnamed.healthy);
    assert_eq!(unnamed.steps.len(), 3);
    let broken = doctor_report(Some("sample-project".to_owned()), true, false, true, true);
    assert!(!broken.healthy);
    assert_eq!(broken.steps[1].step, StepKind::Project);
    assert_eq!(broken.steps[1].status, StepStatus::Missing);
}

#[test]
fn small_setup_rules() {
    assert!(validate_status_limit(0).is_err());
    assert!(validate_status_limit(100).is_ok());
    assert_eq!(core_binary_name(true), "gareji-core.exe");
    assert_eq!(core_binary_name(false), "gareji-core");
    assert!(is_markdown_extension(Some("MD")));
    assert!(!is_markdown_extension(Some("txt")));
    assert!(!is_markdown_extension(None));
    assert!(is_powershell_script(true, Some("ps1")));
    assert!(!is_powershell_script(false, Some("ps1")));
    assert_eq!(trim_text("  0.1.1\n"), "0.1.1");
    assert_eq!(plugin_version(" 0.1.1 \n").unwrap(), "0.1.1");
    assert!(plugin_version("   ").is_err());
    assert_eq!(StepKind::Marketplace.as_str(), "marketplace");
}
