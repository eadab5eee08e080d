use gareji::contracts::{ProjectGrant, ProjectRegistration, SourcedContext};
use gareji::registry::{project_view, ProjectRegistry, RegistryError};

fn registration() -> ProjectRegistration {
    ProjectRegistration {
        project_id: "gareji-core".to_owned(),
        name: "Gareji Core".to_owned(),
        execution_workspace: "workspace://gareji-core".to_owned(),
        context_sources: vec!["local-markdown".to_owned()],
        grants: vec![
            ProjectGrant::ReadContext,
            ProjectGrant::SelectActiveWork,
            ProjectGrant::WriteProgress,
        ],
        sourced_context: vec![SourcedContext {
            workspace_id: "notes".to_owned(),
            source_id: "project-brief".to_owned(),
            freshness: "configured".to_owned(),
            content: Some("Build the local trust kernel.".to_owned()),
            evidence_ref: None,
        }],
        delivery_targets: vec!["local-json".to_owned(), "knowledge-projection".to_owned()],
    }
}

/// Rebuild a registry from what another one reports, as durable storage replays it.
fn reopen(registry: &ProjectRegistry) -> ProjectRegistry {
    let mut reopened = ProjectRegistry::open_in_memory().unwrap();
    for registration in registry.list().unwrap() {
        reopened.register(&registration).unwrap();
        if let Some(work_item) = registry.active_work_item(&registration.project_id).unwrap() {
            reopened
                .set_active_work_item(&registration.project_id, &work_item)
                .unwrap();
        }
    }
    reopened
}

#[test]
fn registration_and_active_work_survive_reopen() {
    let mut registry = ProjectRegistry::open_in_memory().unwrap();
    assert!(!registry.register(&registration()).unwrap());
    assert!(registry.register(&registration()).unwrap());
    let selection = registry
        .set_active_work_item("gareji-core", "CORE-1")
        .unwrap();
    assert_eq!(selection.previous_work_item_id, None);

    let reopened = reopen(&registry);
    drop(registry);
    assert_eq!(reopened.list().unwrap(), vec![registration()]);
    assert_eq!(
        reopened.active_work_item("gareji-core").unwrap(),
        Some("CORE-1".to_owned())
    );
}

#[test]
fn active_work_is_scoped_per_project_and_returns_previous_selection() {
    let mut registry = ProjectRegistry::open_in_memory().unwrap();
    registry.register(&registration()).unwrap();
    registry
        .set_active_work_item("gareji-core", "CORE-1")
        .unwrap();

    let changed = registry
        .set_active_work_item("gareji-core", "CORE-2")
        .unwrap();
    assert_eq!(changed.previous_work_item_id.as_deref(), Some("CORE-1"));
    assert_eq!(changed.current_work_item_id, "CORE-2");
}

#[test]
fn registration_requires_attributed_context_content_or_reference() {
    let mut invalid_registration = registration();
    invalid_registration.sourced_context[0].content = None;
    let mut registry = ProjectRegistry::open_in_memory().unwrap();

    assert!(matches!(
        registry.register(&invalid_registration),
        Err(RegistryError::Invalid {
            field: "sourced_context[]",
            ..
        })
    ));
}

#[test]
fn registration_accepts_reference_only_context_without_delivery_targets() {
    let mut reference_only = registration();
    reference_only.sourced_context[0].content = None;
    reference_only.sourced_context[0].evidence_ref =
        Some(r"C:\absolute\path\to\project\PROJECT.md".to_owned());
    reference_only.delivery_targets.clear();
    let mut registry = ProjectRegistry::open_in_memory().unwrap();

    assert!(!registry.register(&reference_only).unwrap());
    assert_eq!(registry.get("gareji-core").unwrap(), reference_only);
}

#[test]
fn unknown_projects_are_not_found() {
    let mut registry = ProjectRegistry::open_in_memory().unwrap();
    assert_eq!(
        registry.get("missing"),
        Err(RegistryError::ProjectNotFound {
            project_id: "missing".to_owned()
        })
    );
    assert_eq!(
        registry.set_active_work_item("missing", "CORE-1"),
        Err(RegistryError::ProjectNotFound {
            project_id: "missing".to_owned()
        })
    );
    assert_eq!(
        registry.active_work_item("missing"),
        Err(RegistryError::ProjectNotFound {
            project_id: "missing".to_owned()
        })
    );
    assert!(matches!(
        registry.get(""),
        Err(RegistryError::Invalid { field: "project_id", .. })
    ));
}

#[test]
fn list_is_sorted_by_project_identity_and_reregistration_replaces() {
    let mut registry = ProjectRegistry::open_in_memory().unwrap();
    let mut second = registration();
    second.project_id = "alpha".to_owned();
    registry.register(&registration()).unwrap();
    registry.register(&second).unwrap();
    let ids: Vec<String> = registry
        .list()
        .unwrap()
        .into_iter()
        .map(|registration| registration.project_id)
        .collect();
    assert_eq!(ids, vec!["alpha".to_owned(), "gareji-core".to_owned()]);

    let mut renamed = registration();
    renamed.name = "Renamed".to_owned();
    assert!(registry.register(&renamed).unwrap());
    assert_eq!(registry.get("gareji-core").unwrap().name, "Renamed");
    assert_eq!(registry.list().unwrap().len(), 2);
}

#[test]
fn registration_validation_rejects_bad_fields() {
    let mut registry = ProjectRegistry::open_in_memory().unwrap();

    let mut duplicate_grants = registration();
    duplicate_grants.grants.push(ProjectGrant::ReadContext);
    assert!(matches!(
        registry.register(&duplicate_grants),
        Err(RegistryError::Invalid { field: "grants", .. })
    ));

    let mut empty_name = registration();
    empty_name.name = String::new();
    assert!(matches!(
        registry.register(&empty_name),
        Err(RegistryError::Invalid { field: "name", .. })
    ));
    assert!(registry.list().unwrap().is_empty());
}

#[test]
fn project_view_shows_grant_names() {
    let view = project_view(&registration());
    assert_eq!(view.id, "gareji-core");
    assert_eq!(
        view.grants,
        vec![
            "read_context".to_owned(),
            "select_active_work".to_owned(),
            "write_progress".to_owned()
        ]
    );
    assert_eq!(ProjectGrant::WriteProgress.as_str(), "write_progress");
}
