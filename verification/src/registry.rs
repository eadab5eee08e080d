//! Project registrations and operational active-work references.
//!
//! Registrations are kept sorted by project identity; at most one active Work item reference is
//! kept per registered project. Durable storage belongs to the caller, which replays stored
//! registrations and selections through the same operations.

use vstd::prelude::*;

use crate::contracts::{
    grant_name, registration_views, sourced_views, ActiveWorkItemResult, ProjectGrant,
    ProjectRegistration, ProjectView, RegistrationView, SourcedContext, SourcedView,
};
use crate::ordered::{copy_str, copy_strings, lex_lt, str_eq, str_lt, string_views, strictly_sorted};
use crate::progress::types::{
    copy_optional, issue, opt_view, text_issue, validate_text, CheckpointValidationError, Issue,
};

verus! {

/// Most registrations returned by `list`.
pub const MAX_PROJECTS: usize = 10000;

/// Registry failure with bounded public messages.
#[derive(Debug, Clone, PartialEq, Eq)]
pub enum RegistryError {
    /// A configured value violates stable bounds.
    Invalid { field: &'static str, message: &'static str },
    /// The requested project is not registered.
    ProjectNotFound { project_id: String },
}

/// Abstract value of a registry failure.
pub enum RegistryErrorView {
    Invalid(Issue),
    NotFound(Seq<char>),
}

impl View for RegistryError {
    type V = RegistryErrorView;

    open spec fn view(&self) -> RegistryErrorView {
        match self {
            RegistryError::Invalid { field, message } => RegistryErrorView::Invalid(
                Issue { field: field@, message: message@ },
            ),
            RegistryError::ProjectNotFound { project_id } => RegistryErrorView::NotFound(
                project_id@,
            ),
        }
    }
}

/// First problem of a list of identities from position `k` on: length, then a repeat.
pub open spec fn ids_issue_from(field: &'static str, v: Seq<Seq<char>>, k: int) -> Option<Issue>
    decreases v.len() - k,
{
    if k < 0 || k >= v.len() {
        None
    } else if let Some(e) = text_issue(field, v[k], 1, 128) {
        Some(e)
    } else if v.take(k).contains(v[k]) {
        Some(issue(field, "contains duplicate items"))
    } else {
        ids_issue_from(field, v, k + 1)
    }
}

/// Problem of a bounded collection of unique identities, if any.
pub open spec fn collection_issue(field: &'static str, v: Seq<Seq<char>>) -> Option<Issue> {
    if v.len() > 100 {
        Some(issue(field, "contains too many items"))
    } else {
        ids_issue_from(field, v, 0)
    }
}

/// Problem of an optional text of 1 to `max` characters, if any.
pub open spec fn present_text_issue(field: &'static str, o: Option<Seq<char>>, max: nat) -> Option<
    Issue,
> {
    match o {
        Some(s) => text_issue(field, s, 1, max),
        None => None,
    }
}

/// The two entries name the same source in the same workspace.
pub open spec fn same_source(a: SourcedView, b: SourcedView) -> bool {
    a.workspace_id == b.workspace_id && a.source_id == b.source_id
}

/// Problem of one context entry taken alone, if any.
pub open spec fn entry_issue(s: SourcedView) -> Option<Issue> {
    if let Some(e) = text_issue("sourced_context[].workspace_id", s.workspace_id, 1, 128) {
        Some(e)
    } else if let Some(e) = text_issue("sourced_context[].source_id", s.source_id, 1, 128) {
        Some(e)
    } else if let Some(e) = text_issue("sourced_context[].freshness", s.freshness, 1, 128) {
        Some(e)
    } else if let Some(e) = present_text_issue("sourced_context[].content", s.content, 64000) {
        Some(e)
    } else if let Some(e) = present_text_issue("sourced_context[].evidence_ref", s.evidence_ref, 1024) {
        Some(e)
    } else if s.content is None && s.evidence_ref is None {
        Some(issue("sourced_context[]", "requires content or evidence_ref"))
    } else {
        None
    }
}

/// First context problem from position `k` on: the entry itself, then a repeated source.
pub open spec fn sourced_issue_from(v: Seq<SourcedView>, k: int) -> Option<Issue>
    decreases v.len() - k,
{
    if k < 0 || k >= v.len() {
        None
    } else if let Some(e) = entry_issue(v[k]) {
        Some(e)
    } else if exists|j: int| 0 <= j < k && same_source(#[trigger] v[j], v[k]) {
        Some(issue("sourced_context", "contains duplicate source IDs"))
    } else {
        sourced_issue_from(v, k + 1)
    }
}

/// Two grants of the list are equal.
pub open spec fn grants_repeat(g: Seq<ProjectGrant>) -> bool {
    exists|i: int, j: int| 0 <= i < j < g.len() && g[i] == g[j]
}

/// The first problem of a registration, if any.
pub open spec fn registration_issue(r: RegistrationView) -> Option<Issue> {
    if let Some(e) = text_issue("project_id", r.project_id, 1, 128) {
        Some(e)
    } else if let Some(e) = text_issue("name", r.name, 1, 256) {
        Some(e)
    } else if let Some(e) = text_issue("execution_workspace", r.execution_workspace, 1, 1024) {
        Some(e)
    } else if let Some(e) = collection_issue("context_sources", r.context_sources) {
        Some(e)
    } else if let Some(e) = collection_issue("delivery_targets", r.delivery_targets) {
        Some(e)
    } else if r.grants.len() > 100 {
        Some(issue("grants", "contains too many items"))
    } else if grants_repeat(r.grants) {
        Some(issue("grants", "contains duplicate items"))
    } else if r.sourced_context.len() > 100 {
        Some(issue("sourced_context", "contains too many items"))
    } else {
        sourced_issue_from(r.sourced_context, 0)
    }
}

pub open spec fn project_ids(ps: Seq<RegistrationView>) -> Seq<Seq<char>> {
    ps.map_values(|r: RegistrationView| r.project_id)
}

/// The registration with this identity, if any.
pub open spec fn find_project(ps: Seq<RegistrationView>, id: Seq<char>) -> Option<RegistrationView> {
    if exists|i: int| 0 <= i < ps.len() && (#[trigger] ps[i]).project_id == id {
        Some(ps[choose|i: int| 0 <= i < ps.len() && (#[trigger] ps[i]).project_id == id])
    } else {
        None
    }
}

/// One selected Work item reference.
#[derive(Debug, Clone, PartialEq, Eq)]
pub struct ActiveWork {
    /// Stable project identity.
    pub project_id: String,
    /// Opaque Board-owned Work item identity.
    pub work_item_id: String,
}

impl View for ActiveWork {
    type V = (Seq<char>, Seq<char>);

    open spec fn view(&self) -> (Seq<char>, Seq<char>) {
        (self.project_id@, self.work_item_id@)
    }
}

pub open spec fn active_views(v: Seq<ActiveWork>) -> Seq<(Seq<char>, Seq<char>)> {
    v.map_values(|a: ActiveWork| a@)
}

/// The Work item selected for the project, if any.
pub open spec fn find_active(a: Seq<(Seq<char>, Seq<char>)>, id: Seq<char>) -> Option<Seq<char>> {
    if exists|i: int| 0 <= i < a.len() && (#[trigger] a[i]).0 == id {
        Some(a[choose|i: int| 0 <= i < a.len() && (#[trigger] a[i]).0 == id].1)
    } else {
        None
    }
}

/// Abstract value of the registry.
pub struct RegistryView {
    /// Registrations, strictly ascending by project identity.
    pub projects: Seq<RegistrationView>,
    /// Selected Work items by project, one at most per project.
    pub active: Seq<(Seq<char>, Seq<char>)>,
}

/// Registrations sorted by identity and at most one selection per project.
pub open spec fn registry_wf(v: RegistryView) -> bool {
    &&& strictly_sorted(project_ids(v.projects))
    &&& keys_unique(v.active)
}

/// What `get` answers for an identity.
pub open spec fn get_spec(v: RegistryView, id: Seq<char>) -> Result<RegistrationView, RegistryErrorView> {
    if let Some(e) = text_issue("project_id", id, 1, 128) {
        Err(RegistryErrorView::Invalid(e))
    } else if let Some(r) = find_project(v.projects, id) {
        Ok(r)
    } else {
        Err(RegistryErrorView::NotFound(id))
    }
}


/// The registry after a successful `register`: the registration replaces the one with the
/// same identity or is added, every other registration and every selection stays.
pub open spec fn register_post(
    old: RegistryView,
    reg: RegistrationView,
    new: RegistryView,
    existed: bool,
) -> bool {
    &&& existed == find_project(old.projects, reg.project_id) is Some
    &&& new.active == old.active
    &&& new.projects.len() == old.projects.len() + if existed {
        0int
    } else {
        1int
    }
    &&& forall|p: Seq<char>|
        #[trigger] find_project(new.projects, p) == if p == reg.project_id {
            Some(reg)
        } else {
            find_project(old.projects, p)
        }
}

/// The registry after a successful selection: the project's Work item is replaced or set,
/// every other selection and every registration stays.
pub open spec fn select_post(
    old: RegistryView,
    project_id: Seq<char>,
    work_item_id: Seq<char>,
    new: RegistryView,
) -> bool {
    &&& new.projects == old.projects
    &&& forall|p: Seq<char>|
        #[trigger] find_active(new.active, p) == if p == project_id {
            Some(work_item_id)
        } else {
            find_active(old.active, p)
        }
}

/// Deep Module for registered execution workspaces and active-work references.
pub struct ProjectRegistry {
    projects: Vec<ProjectRegistration>,
    active: Vec<ActiveWork>,
}

impl View for ProjectRegistry {
    type V = RegistryView;

    closed spec fn view(&self) -> RegistryView {
        RegistryView {
            projects: registration_views(self.projects@),
            active: active_views(self.active@),
        }
    }
}

fn invalid(e: CheckpointValidationError) -> (r: RegistryError)
    ensures
        r@ == RegistryErrorView::Invalid(e@),
{
    RegistryError::Invalid { field: e.field, message: e.message }
}

fn validate_ids(field: &'static str, v: &Vec<String>) -> (r: Result<(), RegistryError>)
    ensures
        match collection_issue(field, string_views(v@)) {
            Some(i) => r matches Err(e) && e@ == RegistryErrorView::Invalid(i),
            None => r is Ok,
        },
{
    let ghost s = string_views(v@);
    if v.len() > 100 {
        return Err(RegistryError::Invalid { field, message: "contains too many items" });
    }
    let mut k: usize = 0;
    while k < v.len()
        invariant
            k <= v@.len() <= 100,
            s == string_views(v@),
            collection_issue(field, s) == ids_issue_from(field, s, k as int),
        decreases v@.len() - k,
    {
        let x = v[k].as_str();
        assert(s[k as int] == x@);
        if let Err(e) = validate_text(field, x, 1, 128) {
            return Err(invalid(e));
        }
        let mut j: usize = 0;
        while j < k
            invariant
                j <= k < v@.len(),
                s == string_views(v@),
                s[k as int] == x@,
                collection_issue(field, s) == ids_issue_from(field, s, k as int),
                text_issue(field, s[k as int], 1, 128) is None,
                forall|m: int| 0 <= m < j ==> s[m] != x@,
            decreases k - j,
        {
            if str_eq(v[j].as_str(), x) {
                assert(s.take(k as int)[j as int] == s[k as int]);
                assert(s.take(k as int).contains(s[k as int]));
                return Err(RegistryError::Invalid { field, message: "contains duplicate items" });
            }
            j = j + 1;
        }
        assert(!s.take(k as int).contains(s[k as int]));
        k = k + 1;
    }
    Ok(())
}

fn validate_present_text(field: &'static str, o: &Option<String>, max: usize) -> (r: Result<
    (),
    RegistryError,
>)
    ensures
        match present_text_issue(field, opt_view(*o), max as nat) {
            Some(i) => r matches Err(e) && e@ == RegistryErrorView::Invalid(i),
            None => r is Ok,
        },
{
    match o {
        Some(s) => match validate_text(field, s.as_str(), 1, max) {
            Ok(()) => Ok(()),
            Err(e) => Err(invalid(e)),
        },
        None => Ok(()),
    }
}

fn validate_entry(s: &SourcedContext) -> (r: Result<(), RegistryError>)
    ensures
        match entry_issue(s@) {
            Some(i) => r matches Err(e) && e@ == RegistryErrorView::Invalid(i),
            None => r is Ok,
        },
{
    if let Err(e) = validate_text("sourced_context[].workspace_id", s.workspace_id.as_str(), 1, 128) {
        return Err(invalid(e));
    }
    if let Err(e) = validate_text("sourced_context[].source_id", s.source_id.as_str(), 1, 128) {
        return Err(invalid(e));
    }
    if let Err(e) = validate_text("sourced_context[].freshness", s.freshness.as_str(), 1, 128) {
        return Err(invalid(e));
    }
    validate_present_text("sourced_context[].content", &s.content, 64000)?;
    validate_present_text("sourced_context[].evidence_ref", &s.evidence_ref, 1024)?;
    if s.content.is_none() && s.evidence_ref.is_none() {
        return Err(
            RegistryError::Invalid {
                field: "sourced_context[]",
                message: "requires content or evidence_ref",
            },
        );
    }
    Ok(())
}

fn validate_sourced(v: &Vec<SourcedContext>) -> (r: Result<(), RegistryError>)
    ensures
        match sourced_issue_from(sourced_views(v@), 0) {
            Some(i) => r matches Err(e) && e@ == RegistryErrorView::Invalid(i),
            None => r is Ok,
        },
{
    let ghost s = sourced_views(v@);
    let mut k: usize = 0;
    while k < v.len()
        invariant
            k <= v@.len(),
            s == sourced_views(v@),
            sourced_issue_from(s, 0) == sourced_issue_from(s, k as int),
        decreases v@.len() - k,
    {
        let x = &v[k];
        assert(s[k as int] == x@);
        validate_entry(x)?;
        let mut j: usize = 0;
        while j < k
            invariant
                j <= k < v@.len(),
                s == sourced_views(v@),
                s[k as int] == x@,
                sourced_issue_from(s, 0) == sourced_issue_from(s, k as int),
                entry_issue(s[k as int]) is None,
                forall|m: int| 0 <= m < j ==> !same_source(#[trigger] s[m], s[k as int]),
            decreases k - j,
        {
            let y = &v[j];
            assert(s[j as int] == y@);
            if str_eq(y.workspace_id.as_str(), x.workspace_id.as_str()) && str_eq(
                y.source_id.as_str(),
                x.source_id.as_str(),
            ) {
                assert(same_source(s[j as int], s[k as int]));
                return Err(
                    RegistryError::Invalid {
                        field: "sourced_context",
                        message: "contains duplicate source IDs",
                    },
                );
            }
            j = j + 1;
        }
        k = k + 1;
    }
    Ok(())
}

fn grants_unique(g: &Vec<ProjectGrant>) -> (b: bool)
    ensures
        b == !grants_repeat(g@),
{
    let mut j: usize = 0;
    while j < g.len()
        invariant
            j <= g@.len(),
            forall|a: int, b: int| 0 <= a < b < j ==> g@[a] != g@[b],
        decreases g@.len() - j,
    {
        let mut i: usize = 0;
        while i < j
            invariant
                i <= j < g@.len(),
                forall|a: int| 0 <= a < i ==> g@[a] != g@[j as int],
            decreases j - i,
        {
            if g[i] == g[j] {
                return false;
            }
            i = i + 1;
        }
        j = j + 1;
    }
    true
}

/// Check one registration against the stable bounds.
fn validate_registration(registration: &ProjectRegistration) -> (r: Result<(), RegistryError>)
    ensures
        match registration_issue(registration@) {
            Some(i) => r matches Err(e) && e@ == RegistryErrorView::Invalid(i),
            None => r is Ok,
        },
{
    if let Err(e) = validate_text("project_id", registration.project_id.as_str(), 1, 128) {
        return Err(invalid(e));
    }
    if let Err(e) = validate_text("name", registration.name.as_str(), 1, 256) {
        return Err(invalid(e));
    }
    if let Err(e) = validate_text(
        "execution_workspace",
        registration.execution_workspace.as_str(),
        1,
        1024,
    ) {
        return Err(invalid(e));
    }
    validate_ids("context_sources", &registration.context_sources)?;
    validate_ids("delivery_targets", &registration.delivery_targets)?;
    if registration.grants.len() > 100 {
        return Err(RegistryError::Invalid { field: "grants", message: "contains too many items" });
    }
    if !grants_unique(&registration.grants) {
        return Err(RegistryError::Invalid { field: "grants", message: "contains duplicate items" });
    }
    if registration.sourced_context.len() > 100 {
        return Err(
            RegistryError::Invalid { field: "sourced_context", message: "contains too many items" },
        );
    }
    validate_sourced(&registration.sourced_context)
}

/// An owned copy of a context entry.
fn copy_sourced(s: &SourcedContext) -> (r: SourcedContext)
    ensures
        r@ == s@,
{
    SourcedContext {
        workspace_id: s.workspace_id.clone(),
        source_id: s.source_id.clone(),
        freshness: s.freshness.clone(),
        content: copy_optional(&s.content),
        evidence_ref: copy_optional(&s.evidence_ref),
    }
}

/// An owned copy of a list of context entries.
pub fn copy_sourced_list(v: &Vec<SourcedContext>) -> (r: Vec<SourcedContext>)
    ensures
        sourced_views(r@) == sourced_views(v@),
{
    let mut r: Vec<SourcedContext> = Vec::new();
    let mut i: usize = 0;
    while i < v.len()
        invariant
            i <= v@.len(),
            r@.len() == i,
            forall|k: int| 0 <= k < i ==> (#[trigger] r@[k])@ == v@[k]@,
        decreases v@.len() - i,
    {
        r.push(copy_sourced(&v[i]));
        i = i + 1;
    }
    assert(sourced_views(r@) =~= sourced_views(v@));
    r
}

fn copy_grants(v: &Vec<ProjectGrant>) -> (r: Vec<ProjectGrant>)
    ensures
        r@ == v@,
{
    let mut r: Vec<ProjectGrant> = Vec::new();
    let mut i: usize = 0;
    while i < v.len()
        invariant
            i <= v@.len(),
            r@ == v@.take(i as int),
        decreases v@.len() - i,
    {
        r.push(v[i]);
        assert(v@.take(i + 1) =~= v@.take(i as int).push(v@[i as int]));
        i = i + 1;
    }
    assert(v@.take(v@.len() as int) =~= v@);
    r
}

impl ProjectRegistration {
    /// An owned copy of the registration with the same content.
    pub fn copy(&self) -> (r: ProjectRegistration)
        ensures
            r@ == self@,
    {
        let r = ProjectRegistration {
            project_id: self.project_id.clone(),
            name: self.name.clone(),
            execution_workspace: self.execution_workspace.clone(),
            context_sources: copy_strings(&self.context_sources),
            grants: copy_grants(&self.grants),
            sourced_context: copy_sourced_list(&self.sourced_context),
            delivery_targets: copy_strings(&self.delivery_targets),
        };
        r
    }
}

/// The stable names of the grants, in order.
pub open spec fn grant_names(g: Seq<ProjectGrant>) -> Seq<Seq<char>> {
    g.map_values(|x: ProjectGrant| grant_name(x))
}

/// Abstract value of a project summary.
pub struct SummaryView {
    pub id: Seq<char>,
    pub name: Seq<char>,
    pub execution_workspace: Seq<char>,
    pub context_sources: Seq<Seq<char>>,
    pub grants: Seq<Seq<char>>,
}

impl View for ProjectView {
    type V = SummaryView;

    open spec fn view(&self) -> SummaryView {
        SummaryView {
            id: self.id@,
            name: self.name@,
            execution_workspace: self.execution_workspace@,
            context_sources: string_views(self.context_sources@),
            grants: string_views(self.grants@),
        }
    }
}

/// The summary of a registration that transports may see.
pub open spec fn summary_of(r: RegistrationView) -> SummaryView {
    SummaryView {
        id: r.project_id,
        name: r.name,
        execution_workspace: r.execution_workspace,
        context_sources: r.context_sources,
        grants: grant_names(r.grants),
    }
}

/// Convert one complete registration into its bounded transport view.
pub fn project_view(registration: &ProjectRegistration) -> (r: ProjectView)
    ensures
        r@ == summary_of(registration@),
{
    let mut grants: Vec<String> = Vec::new();
    let mut i: usize = 0;
    while i < registration.grants.len()
        invariant
            i <= registration.grants@.len(),
            string_views(grants@) == grant_names(registration.grants@).take(i as int),
        decreases registration.grants@.len() - i,
    {
        let name = registration.grants[i].as_str();
        let ghost before = grants@;
        grants.push(copy_str(name));
        assert(string_views(grants@) =~= string_views(before).push(name@));
        assert(grant_names(registration.grants@).take(i + 1) =~= grant_names(
            registration.grants@,
        ).take(i as int).push(name@));
        i = i + 1;
    }
    assert(grant_names(registration.grants@).take(registration.grants@.len() as int) =~= grant_names(
        registration.grants@,
    ));
    ProjectView {
        id: registration.project_id.clone(),
        name: registration.name.clone(),
        execution_workspace: registration.execution_workspace.clone(),
        context_sources: copy_strings(&registration.context_sources),
        grants,
    }
}

/// What `set_active_work_item` answers: the previous selection, or the failure.
pub open spec fn select_spec(v: RegistryView, project_id: Seq<char>, work_item_id: Seq<char>) -> Result<
    Option<Seq<char>>,
    RegistryErrorView,
> {
    if let Some(e) = text_issue("project_id", project_id, 1, 128) {
        Err(RegistryErrorView::Invalid(e))
    } else if let Some(e) = text_issue("work_item_id", work_item_id, 1, 128) {
        Err(RegistryErrorView::Invalid(e))
    } else if find_project(v.projects, project_id) is None {
        Err(RegistryErrorView::NotFound(project_id))
    } else {
        Ok(find_active(v.active, project_id))
    }
}

/// What `active_work_item` answers.
pub open spec fn active_spec(v: RegistryView, project_id: Seq<char>) -> Result<
    Option<Seq<char>>,
    RegistryErrorView,
> {
    match get_spec(v, project_id) {
        Ok(_) => Ok(find_active(v.active, project_id)),
        Err(e) => Err(e),
    }
}

/// The first `MAX_PROJECTS` registrations (all of them when there are fewer).
pub open spec fn listed(ps: Seq<RegistrationView>) -> Seq<RegistrationView> {
    if ps.len() <= MAX_PROJECTS {
        ps
    } else {
        ps.take(MAX_PROJECTS as int)
    }
}

proof fn lemma_find_in_sorted(ps: Seq<RegistrationView>, i: int)
    requires
        strictly_sorted(project_ids(ps)),
        0 <= i < ps.len(),
    ensures
        find_project(ps, ps[i].project_id) == Some(ps[i]),
{
    let id = ps[i].project_id;
    assert(project_ids(ps)[i] == id);
    let k = choose|k: int| 0 <= k < ps.len() && (#[trigger] ps[k]).project_id == id;
    if k != i {
        assert(project_ids(ps)[k] == id);
        if k < i {
            assert(lex_lt(project_ids(ps)[k], project_ids(ps)[i]));
        } else {
            assert(lex_lt(project_ids(ps)[i], project_ids(ps)[k]));
        }
        crate::ordered::lemma_lex_irreflexive(id);
    }
}

fn find_registration(ps: &Vec<ProjectRegistration>, id: &str) -> (r: Option<usize>)
    requires
        strictly_sorted(project_ids(registration_views(ps@))),
    ensures
        match r {
            Some(i) => i < ps@.len() && ps@[i as int].project_id@ == id@ && find_project(
                registration_views(ps@),
                id@,
            ) == Some(ps@[i as int]@),
            None => find_project(registration_views(ps@), id@) is None,
        },
{
    let ghost v = registration_views(ps@);
    let mut i: usize = 0;
    while i < ps.len()
        invariant
            i <= ps@.len(),
            v == registration_views(ps@),
            strictly_sorted(project_ids(v)),
            forall|k: int| 0 <= k < i ==> ps@[k].project_id@ != id@,
        decreases ps@.len() - i,
    {
        if str_eq(ps[i].project_id.as_str(), id) {
            proof {
                lemma_find_in_sorted(v, i as int);
                assert(v[i as int] == ps@[i as int]@);
            }
            return Some(i);
        }
        i = i + 1;
    }
    proof {
        if exists|k: int| 0 <= k < v.len() && (#[trigger] v[k]).project_id == id@ {
            let k = choose|k: int| 0 <= k < v.len() && (#[trigger] v[k]).project_id == id@;
            assert(v[k] == ps@[k]@);
        }
    }
    None
}

fn find_selection(a: &Vec<ActiveWork>, id: &str) -> (r: Option<usize>)
    requires
        keys_unique(active_views(a@)),
    ensures
        match r {
            Some(i) => i < a@.len() && a@[i as int].project_id@ == id@ && find_active(
                active_views(a@),
                id@,
            ) == Some(a@[i as int].work_item_id@),
            None => find_active(active_views(a@), id@) is None,
        },
{
    let ghost v = active_views(a@);
    let mut i: usize = 0;
    while i < a.len()
        invariant
            i <= a@.len(),
            v == active_views(a@),
            keys_unique(v),
            forall|k: int| 0 <= k < i ==> a@[k].project_id@ != id@,
        decreases a@.len() - i,
    {
        if str_eq(a[i].project_id.as_str(), id) {
            proof {
                assert(v[i as int].0 == id@);
                lemma_find_active_at(v, i as int);
            }
            return Some(i);
        }
        i = i + 1;
    }
    proof {
        if exists|k: int| 0 <= k < v.len() && (#[trigger] v[k]).0 == id@ {
            let k = choose|k: int| 0 <= k < v.len() && (#[trigger] v[k]).0 == id@;
            assert(v[k] == a@[k]@);
        }
    }
    None
}

pub open spec fn keys_unique(a: Seq<(Seq<char>, Seq<char>)>) -> bool {
    forall|i: int, j: int| 0 <= i < j < a.len() ==> (#[trigger] a[i]).0 != (#[trigger] a[j]).0
}

proof fn lemma_find_active_at(a: Seq<(Seq<char>, Seq<char>)>, i: int)
    requires
        keys_unique(a),
        0 <= i < a.len(),
    ensures
        find_active(a, a[i].0) == Some(a[i].1),
{
    let k = choose|k: int| 0 <= k < a.len() && (#[trigger] a[k]).0 == a[i].0;
    if k != i {
        if k < i {
            assert(a[k].0 != a[i].0);
        } else {
            assert(a[i].0 != a[k].0);
        }
    }
}

proof fn lemma_select(
    a: Seq<(Seq<char>, Seq<char>)>,
    pid: Seq<char>,
    wid: Seq<char>,
    found: Option<usize>,
    b: Seq<(Seq<char>, Seq<char>)>,
)
    requires
        keys_unique(a),
        match found {
            Some(i) => i < a.len() && a[i as int].0 == pid && b == a.update(i as int, (pid, wid)),
            None => find_active(a, pid) is None && b == a.push((pid, wid)),
        },
    ensures
        keys_unique(b),
        forall|p: Seq<char>|
            #[trigger] find_active(b, p) == if p == pid {
                Some(wid)
            } else {
                find_active(a, p)
            },
{
    let n = match found {
        Some(i) => i as int,
        None => a.len() as int,
    };
    assert(b[n] == (pid, wid));
    assert forall|i: int, j: int| 0 <= i < j < b.len() implies (#[trigger] b[i]).0 != (#[trigger] b[j]).0 by {
        if i != n && j != n {
            assert(b[i] == a[i]);
            assert(b[j] == a[j]);
        } else if i == n {
            assert(b[j] == a[j]);
            if found is None {
                assert(j < a.len() || j == n);
            }
            if a[j].0 == pid {
                if found is None {
                    assert(a[j].0 == pid);
                    assert(exists|k: int| 0 <= k < a.len() && (#[trigger] a[k]).0 == pid);
                }
            }
        } else {
            assert(b[i] == a[i]);
            if a[i].0 == pid {
                if found is None {
                    assert(exists|k: int| 0 <= k < a.len() && (#[trigger] a[k]).0 == pid);
                }
            }
        }
    }
    assert forall|p: Seq<char>| #[trigger] find_active(b, p) == if p == pid {
        Some(wid)
    } else {
        find_active(a, p)
    } by {
        if p == pid {
            lemma_find_active_at(b, n);
        } else {
            if exists|k: int| 0 <= k < a.len() && (#[trigger] a[k]).0 == p {
                let k = choose|k: int| 0 <= k < a.len() && (#[trigger] a[k]).0 == p;
                lemma_find_active_at(a, k);
                assert(k != n);
                assert(b[k] == a[k]);
                lemma_find_active_at(b, k);
            } else {
                if exists|k: int| 0 <= k < b.len() && (#[trigger] b[k]).0 == p {
                    let k = choose|k: int| 0 <= k < b.len() && (#[trigger] b[k]).0 == p;
                    assert(k != n);
                    assert(b[k] == a[k]);
                }
            }
        }
    }
}

proof fn lemma_upsert(
    ps: Seq<RegistrationView>,
    r: RegistrationView,
    i: int,
    existed: bool,
    nv: Seq<RegistrationView>,
)
    requires
        strictly_sorted(project_ids(ps)),
        0 <= i <= ps.len(),
        forall|k: int| 0 <= k < i ==> lex_lt(#[trigger] project_ids(ps)[k], r.project_id),
        i < ps.len() ==> !lex_lt(project_ids(ps)[i], r.project_id),
        existed == (i < ps.len() && ps[i].project_id == r.project_id),
        existed ==> nv == ps.update(i, r),
        !existed ==> nv == ps.insert(i, r),
    ensures
        strictly_sorted(project_ids(nv)),
        existed == find_project(ps, r.project_id) is Some,
        nv.len() == ps.len() + if existed {
            0int
        } else {
            1int
        },
        forall|p: Seq<char>|
            #[trigger] find_project(nv, p) == if p == r.project_id {
                Some(r)
            } else {
                find_project(ps, p)
            },
{
    let ids = project_ids(ps);
    let nids = project_ids(nv);
    let id = r.project_id;
    crate::ordered::lemma_lex_irreflexive(id);
    // where an identity of `ps` went in `nv`
    assert forall|k: int| 0 <= k < ps.len() && ps[k].project_id != id implies {
        let m = if !existed && k >= i {
            k + 1
        } else {
            k
        };
        0 <= m < nv.len() && nv[m] == ps[k]
    } by {
        if existed {
            assert(k != i);
        }
    }
    if existed {
        assert(nids =~= ids.update(i, id));
        assert(nids =~= ids);
    } else {
        assert(nids =~= ids.insert(i, id));
        if i < ps.len() {
            crate::ordered::lemma_lex_total(ids[i], id);
            assert(lex_lt(id, ids[i]));
        }
        assert forall|a: int, b: int| 0 <= a < b < nids.len() implies lex_lt(#[trigger] nids[a], #[trigger] nids[b]) by {
            if b < i {
            } else if b == i {
            } else if a < i {
                assert(nids[b] == ids[b - 1]);
                assert(lex_lt(ids[a], id));
                if b - 1 > i {
                    assert(lex_lt(ids[i], ids[b - 1]));
                    crate::ordered::lemma_lex_transitive(id, ids[i], ids[b - 1]);
                }
                crate::ordered::lemma_lex_transitive(ids[a], id, ids[b - 1]);
            } else if a == i {
                assert(nids[b] == ids[b - 1]);
                if b - 1 > i {
                    assert(lex_lt(ids[i], ids[b - 1]));
                    crate::ordered::lemma_lex_transitive(id, ids[i], ids[b - 1]);
                }
            } else {
                assert(nids[a] == ids[a - 1]);
                assert(nids[b] == ids[b - 1]);
            }
        }
    }
    // membership of the new identity in the old list
    if existed {
        assert(ps[i].project_id == id);
    } else {
        if exists|k: int| 0 <= k < ps.len() && (#[trigger] ps[k]).project_id == id {
            let k = choose|k: int| 0 <= k < ps.len() && (#[trigger] ps[k]).project_id == id;
            assert(ids[k] == id);
            if k < i {
                assert(lex_lt(ids[k], id));
            } else if k > i {
                assert(lex_lt(ids[i], ids[k]));
            }
        }
    }
    let n = i;
    assert(nv[n] == r);
    assert forall|p: Seq<char>| #[trigger] find_project(nv, p) == if p == id {
        Some(r)
    } else {
        find_project(ps, p)
    } by {
        if p == id {
            lemma_find_in_sorted(nv, n);
        } else {
            if exists|k: int| 0 <= k < ps.len() && (#[trigger] ps[k]).project_id == p {
                let k = choose|k: int| 0 <= k < ps.len() && (#[trigger] ps[k]).project_id == p;
                lemma_find_in_sorted(ps, k);
                let m = if !existed && k >= i {
                    k + 1
                } else {
                    k
                };
                assert(nv[m] == ps[k]);
                lemma_find_in_sorted(nv, m);
            } else {
                if exists|m: int| 0 <= m < nv.len() && (#[trigger] nv[m]).project_id == p {
                    let m = choose|m: int| 0 <= m < nv.len() && (#[trigger] nv[m]).project_id == p;
                    assert(m != n);
                    if existed || m < i {
                        assert(nv[m] == ps[m]);
                    } else {
                        assert(nv[m] == ps[m - 1]);
                    }
                }
            }
        }
    }
}

impl ProjectRegistry {
    #[verifier::type_invariant]
    spec fn well_formed(&self) -> bool {
        registry_wf(self@)
    }

    /// Validate one registration without touching the registry.
    pub fn validate(registration: &ProjectRegistration) -> (r: Result<(), RegistryError>)
        ensures
            match registration_issue(registration@) {
                Some(i) => r matches Err(e) && e@ == RegistryErrorView::Invalid(i),
                None => r is Ok,
            },
    {
        validate_registration(registration)
    }

    /// An empty registry.
    pub fn open_in_memory() -> (r: Result<ProjectRegistry, RegistryError>)
        ensures
            r matches Ok(g) && g@.projects.len() == 0 && g@.active.len() == 0,
    {
        let g = ProjectRegistry { projects: Vec::new(), active: Vec::new() };
        assert(registration_views(g.projects@) =~= Seq::<RegistrationView>::empty());
        assert(active_views(g.active@) =~= Seq::<(Seq<char>, Seq<char>)>::empty());
        Ok(g)
    }

    /// Create or replace one complete operational registration; answers whether a
    /// registration with the same identity existed.
    pub fn register(&mut self, registration: &ProjectRegistration) -> (r: Result<bool, RegistryError>)
        ensures
            registry_wf(final(self)@),
            match registration_issue(registration@) {
                Some(i) => r matches Err(e) && e@ == RegistryErrorView::Invalid(i) && final(self)@
                    == old(self)@,
                None => r matches Ok(existed) && register_post(
                    old(self)@,
                    registration@,
                    final(self)@,
                    existed,
                ),
            },
    {
        proof {
            use_type_invariant(&*self);
        }
        validate_registration(registration)?;
        let ghost old_v = self@;
        let ghost ps = old_v.projects;
        let ghost id = registration@.project_id;
        let id_str = registration.project_id.as_str();
        let mut i: usize = 0;
        while i < self.projects.len()
            invariant_except_break
                forall|k: int| 0 <= k < i ==> lex_lt(#[trigger] project_ids(ps)[k], id),
            invariant
                i <= ps.len(),
                ps == registration_views(self.projects@),
                strictly_sorted(project_ids(ps)),
                id == id_str@,
            ensures
                i <= ps.len(),
                forall|k: int| 0 <= k < i ==> lex_lt(#[trigger] project_ids(ps)[k], id),
                i < ps.len() ==> !lex_lt(project_ids(ps)[i as int], id),
            decreases ps.len() - i,
        {
            if !str_lt(self.projects[i].project_id.as_str(), id_str) {
                break;
            }
            i = i + 1;
        }
        let existed = i < self.projects.len() && str_eq(self.projects[i].project_id.as_str(), id_str);
        let ghost old_active = self@.active;
        let mut projects: Vec<ProjectRegistration> = Vec::new();
        proof {
            assert(registration_views(projects@) =~= Seq::<RegistrationView>::empty());
            assert(project_ids(registration_views(projects@)) =~= Seq::<Seq<char>>::empty());
        }
        std::mem::swap(&mut projects, &mut self.projects);
        let item = registration.copy();
        let ghost rv = item@;
        if existed {
            projects.set(i, item);
            assert(registration_views(projects@) =~= ps.update(i as int, rv));
        } else {
            projects.insert(i, item);
            assert(registration_views(projects@) =~= ps.insert(i as int, rv));
        }
        proof {
            let nv = registration_views(projects@);
            let r = registration@;
            lemma_upsert(ps, r, i as int, existed, nv);
            assert(active_views(self.active@) == old_active);
        }
        self.projects = projects;
        Ok(existed)
    }

    /// List complete registrations sorted by project identity, at most `MAX_PROJECTS`.
    pub fn list(&self) -> (r: Result<Vec<ProjectRegistration>, RegistryError>)
        ensures
            r matches Ok(v) && registration_views(v@) == listed(self@.projects),
            registry_wf(self@),
    {
        proof {
            use_type_invariant(self);
        }
        let n = if self.projects.len() <= MAX_PROJECTS {
            self.projects.len()
        } else {
            MAX_PROJECTS
        };
        let mut out: Vec<ProjectRegistration> = Vec::new();
        let mut i: usize = 0;
        while i < n
            invariant
                n <= self.projects@.len(),
                n == listed(self@.projects).len(),
                i <= n,
                out@.len() == i,
                forall|k: int| 0 <= k < i ==> (#[trigger] out@[k])@ == self.projects@[k]@,
            decreases n - i,
        {
            out.push(self.projects[i].copy());
            i = i + 1;
        }
        proof {
            assert(registration_views(out@) =~= listed(self@.projects));
        }
        Ok(out)
    }

    /// Read one complete project registration.
    pub fn get(&self, project_id: &str) -> (r: Result<ProjectRegistration, RegistryError>)
        ensures
            match get_spec(self@, project_id@) {
                Ok(v) => r matches Ok(x) && x@ == v,
                Err(e) => r matches Err(x) && x@ == e,
            },
    {
        proof {
            use_type_invariant(self);
        }
        if let Err(e) = validate_text("project_id", project_id, 1, 128) {
            return Err(invalid(e));
        }
        match find_registration(&self.projects, project_id) {
            Some(i) => Ok(self.projects[i].copy()),
            None => Err(RegistryError::ProjectNotFound { project_id: project_id.to_owned() }),
        }
    }

    /// Select an opaque Board-owned Work item reference for one project, answering the
    /// previous selection.
    pub fn set_active_work_item(&mut self, project_id: &str, work_item_id: &str) -> (r: Result<
        ActiveWorkItemResult,
        RegistryError,
    >)
        ensures
            registry_wf(final(self)@),
            match select_spec(old(self)@, project_id@, work_item_id@) {
                Ok(prev) => r matches Ok(res) && {
                    &&& res.project_id@ == project_id@
                    &&& opt_view(res.previous_work_item_id) == prev
                    &&& res.current_work_item_id@ == work_item_id@
                    &&& select_post(old(self)@, project_id@, work_item_id@, final(self)@)
                },
                Err(e) => r matches Err(x) && x@ == e && final(self)@ == old(self)@,
            },
    {
        proof {
            use_type_invariant(&*self);
        }
        if let Err(e) = validate_text("project_id", project_id, 1, 128) {
            return Err(invalid(e));
        }
        if let Err(e) = validate_text("work_item_id", work_item_id, 1, 128) {
            return Err(invalid(e));
        }
        if find_registration(&self.projects, project_id).is_none() {
            return Err(RegistryError::ProjectNotFound { project_id: project_id.to_owned() });
        }
        let ghost old_a = active_views(self.active@);
        let found = find_selection(&self.active, project_id);
        let mut active: Vec<ActiveWork> = Vec::new();
        std::mem::swap(&mut active, &mut self.active);
        let previous = match found {
            Some(i) => {
                let prev = active[i].work_item_id.clone();
                let item = ActiveWork { project_id: project_id.to_owned(), work_item_id: work_item_id.to_owned() };
                active.set(i, item);
                assert(active_views(active@) =~= old_a.update(i as int, (project_id@, work_item_id@)));
                Some(prev)
            },
            None => {
                active.push(
                    ActiveWork { project_id: project_id.to_owned(), work_item_id: work_item_id.to_owned() },
                );
                assert(active_views(active@) =~= old_a.push((project_id@, work_item_id@)));
                None
            },
        };
        proof {
            lemma_select(old_a, project_id@, work_item_id@, found, active_views(active@));
        }
        self.active = active;
        Ok(
            ActiveWorkItemResult {
                project_id: project_id.to_owned(),
                previous_work_item_id: previous,
                current_work_item_id: work_item_id.to_owned(),
            },
        )
    }

    /// Read the current operational Work item reference, when selected.
    pub fn active_work_item(&self, project_id: &str) -> (r: Result<Option<String>, RegistryError>)
        ensures
            match active_spec(self@, project_id@) {
                Ok(v) => r matches Ok(x) && opt_view(x) == v,
                Err(e) => r matches Err(x) && x@ == e,
            },
    {
        proof {
            use_type_invariant(self);
        }
        if let Err(e) = validate_text("project_id", project_id, 1, 128) {
            return Err(invalid(e));
        }
        if find_registration(&self.projects, project_id).is_none() {
            return Err(RegistryError::ProjectNotFound { project_id: project_id.to_owned() });
        }
        match find_selection(&self.active, project_id) {
            Some(i) => Ok(Some(self.active[i].work_item_id.clone())),
            None => Ok(None),
        }
    }
}

/// A listing answers each registered project once, in ascending identity order.
pub proof fn law_list_is_sorted_by_identity(v: RegistryView)
    requires
        registry_wf(v),
    ensures
        strictly_sorted(project_ids(listed(v.projects))),
{
    let ps = v.projects;
    let l = listed(ps);
    assert forall|i: int, j: int| 0 <= i < j < project_ids(l).len() implies crate::ordered::lex_lt(
        #[trigger] project_ids(l)[i],
        #[trigger] project_ids(l)[j],
    ) by {
        assert(project_ids(l)[i] == project_ids(ps)[i]);
        assert(project_ids(l)[j] == project_ids(ps)[j]);
    }
}

/// After a successful registration, reading the project answers that registration.
pub proof fn law_get_after_register(
    old: RegistryView,
    reg: RegistrationView,
    new: RegistryView,
    existed: bool,
)
    requires
        registration_issue(reg) is None,
        register_post(old, reg, new, existed),
    ensures
        get_spec(new, reg.project_id) == Ok::<RegistrationView, RegistryErrorView>(reg),
{
    assert(find_project(new.projects, reg.project_id) == Some(reg));
}

/// Registering the same registration again reports that it existed and changes no
/// registration.
pub proof fn law_register_is_idempotent(
    v1: RegistryView,
    reg: RegistrationView,
    v2: RegistryView,
    e1: bool,
    v3: RegistryView,
    e2: bool,
)
    requires
        register_post(v1, reg, v2, e1),
        register_post(v2, reg, v3, e2),
    ensures
        e2,
        v3.projects.len() == v2.projects.len(),
        v3.active == v2.active,
        forall|p: Seq<char>| #[trigger] find_project(v3.projects, p) == find_project(v2.projects, p),
{
    assert(find_project(v2.projects, reg.project_id) == Some(reg));
    assert forall|p: Seq<char>| #[trigger] find_project(v3.projects, p) == find_project(v2.projects, p) by {
        if p != reg.project_id {
            assert(find_project(v3.projects, p) == find_project(v2.projects, p));
        } else {
            assert(find_project(v3.projects, p) == Some(reg));
        }
    }
}

/// After a successful selection, reading the project's active Work item answers it, and the
/// selections of other projects are unchanged.
pub proof fn law_selection_read_after_write(
    old: RegistryView,
    project_id: Seq<char>,
    work_item_id: Seq<char>,
    new: RegistryView,
    other: Seq<char>,
)
    requires
        select_spec(old, project_id, work_item_id) is Ok,
        select_post(old, project_id, work_item_id, new),
        other != project_id,
    ensures
        active_spec(new, project_id) == Ok::<Option<Seq<char>>, RegistryErrorView>(Some(work_item_id)),
        find_active(new.active, other) == find_active(old.active, other),
{
    assert(find_active(new.active, project_id) == Some(work_item_id));
    assert(find_active(new.active, other) == find_active(old.active, other));
}

} // verus!
