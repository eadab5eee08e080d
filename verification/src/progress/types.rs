//! Stable Progress Checkpoint and delivery types, and checkpoint validation.

use vstd::prelude::*;

use crate::ordered::str_eq;
use crate::text::char_len;

verus! {

/// The only Progress Checkpoint schema accepted by this implementation.
pub const PROGRESS_CHECKPOINT_SCHEMA_VERSION: &'static str = "gareji.progress-checkpoint.v0";

/// Where a checkpoint originated.
#[derive(Debug, Clone, Copy, PartialEq, Eq, Structural)]
pub enum CheckpointSource {
    Runner,
    Mcp,
    ManualCli,
    CodexStopHook,
    GitPostCommit,
}

/// Supported actor classes.
#[derive(Debug, Clone, Copy, PartialEq, Eq, Structural)]
pub enum ActorType {
    Human,
    Agent,
    System,
}

/// Actor attached to a checkpoint.
#[derive(Debug, Clone, PartialEq, Eq)]
pub struct CheckpointActor {
    /// Actor class.
    pub kind: ActorType,
    /// Stable local actor identity.
    pub id: String,
}

/// Outcome of work represented by a checkpoint.
#[derive(Debug, Clone, Copy, PartialEq, Eq, Structural)]
pub enum CheckpointOutcome {
    Progress,
    Completed,
    NeedsReview,
    Blocked,
    Failed,
    NoAction,
}

/// Bounded Git evidence.
#[derive(Debug, Clone, PartialEq, Eq)]
pub struct GitState {
    /// Current revision, when available.
    pub head: Option<String>,
    /// Current branch, when available.
    pub branch: Option<String>,
    /// Whether tracked or untracked changes remain.
    pub dirty: bool,
}

/// Verification status.
#[derive(Debug, Clone, Copy, PartialEq, Eq, Structural)]
pub enum VerificationStatus {
    Passed,
    Failed,
    NotRun,
    Unknown,
}

/// One verification result.
#[derive(Debug, Clone, PartialEq, Eq)]
pub struct VerificationRecord {
    /// Human-readable check name.
    pub name: String,
    /// Bounded status.
    pub status: VerificationStatus,
    /// Optional external evidence reference.
    pub evidence_ref: Option<String>,
}

/// Board state that a checkpoint may recommend but cannot apply.
#[derive(Debug, Clone, Copy, PartialEq, Eq, Structural)]
pub enum WorkItemState {
    Backlog,
    Todo,
    InProgress,
    InReview,
    Blocked,
    Done,
    Cancelled,
}

/// One immutable, evidence-linked progress event.
#[derive(Debug, Clone, PartialEq, Eq)]
pub struct ProgressCheckpoint {
    /// Schema discriminator.
    pub schema_version: String,
    /// Caller-assigned idempotency identity.
    pub checkpoint_id: String,
    /// RFC 3339 event timestamp.
    pub recorded_at: String,
    /// Stable Board project identity.
    pub project_id: String,
    /// Optional explicit Work item identity.
    pub work_item_id: Option<String>,
    /// Execution workspace in which the work occurred.
    pub execution_workspace_id: String,
    /// Capture source.
    pub source: CheckpointSource,
    /// Human, agent, or system actor.
    pub actor: CheckpointActor,
    /// Progress outcome, separate from Work item state.
    pub outcome: CheckpointOutcome,
    /// Compact human-readable description.
    pub summary: String,
    /// Relative paths materially changed by the work.
    pub changed_paths: Vec<String>,
    /// Optional bounded Git evidence.
    pub git: Option<GitState>,
    /// Verification performed during the work.
    pub verification: Vec<VerificationRecord>,
    /// References to evidence stored outside the checkpoint.
    pub evidence_refs: Vec<String>,
    /// State recommendation for Board to evaluate.
    pub recommended_state: Option<WorkItemState>,
}

pub open spec fn opt_view(o: Option<String>) -> Option<Seq<char>> {
    match o {
        Some(s) => Some(s@),
        None => None,
    }
}

/// Abstract value of a Git state.
pub struct GitView {
    pub head: Option<Seq<char>>,
    pub branch: Option<Seq<char>>,
    pub dirty: bool,
}

/// Abstract value of a verification record.
pub struct VerificationView {
    pub name: Seq<char>,
    pub status: VerificationStatus,
    pub evidence_ref: Option<Seq<char>>,
}

/// Abstract value of a checkpoint: its immutable content.
pub struct CheckpointView {
    pub schema_version: Seq<char>,
    pub checkpoint_id: Seq<char>,
    pub recorded_at: Seq<char>,
    pub project_id: Seq<char>,
    pub work_item_id: Option<Seq<char>>,
    pub execution_workspace_id: Seq<char>,
    pub source: CheckpointSource,
    pub actor_kind: ActorType,
    pub actor_id: Seq<char>,
    pub outcome: CheckpointOutcome,
    pub summary: Seq<char>,
    pub changed_paths: Seq<Seq<char>>,
    pub git: Option<GitView>,
    pub verification: Seq<VerificationView>,
    pub evidence_refs: Seq<Seq<char>>,
    pub recommended_state: Option<WorkItemState>,
}

impl View for GitState {
    type V = GitView;

    open spec fn view(&self) -> GitView {
        GitView { head: opt_view(self.head), branch: opt_view(self.branch), dirty: self.dirty }
    }
}

impl View for VerificationRecord {
    type V = VerificationView;

    open spec fn view(&self) -> VerificationView {
        VerificationView {
            name: self.name@,
            status: self.status,
            evidence_ref: opt_view(self.evidence_ref),
        }
    }
}

impl View for ProgressCheckpoint {
    type V = CheckpointView;

    open spec fn view(&self) -> CheckpointView {
        CheckpointView {
            schema_version: self.schema_version@,
            checkpoint_id: self.checkpoint_id@,
            recorded_at: self.recorded_at@,
            project_id: self.project_id@,
            work_item_id: opt_view(self.work_item_id),
            execution_workspace_id: self.execution_workspace_id@,
            source: self.source,
            actor_kind: self.actor.kind,
            actor_id: self.actor.id@,
            outcome: self.outcome,
            summary: self.summary@,
            changed_paths: crate::ordered::string_views(self.changed_paths@),
            git: match self.git {
                Some(g) => Some(g@),
                None => None,
            },
            verification: self.verification@.map_values(|v: VerificationRecord| v@),
            evidence_refs: crate::ordered::string_views(self.evidence_refs@),
            recommended_state: self.recommended_state,
        }
    }
}

/// Invalid checkpoint or destination input.
#[derive(Debug, Clone, PartialEq, Eq)]
pub struct CheckpointValidationError {
    /// Field or collection containing the invalid value.
    pub field: &'static str,
    /// Stable bounded explanation.
    pub message: &'static str,
}

/// Abstract value of a validation error: its field and its message.
pub struct Issue {
    pub field: Seq<char>,
    pub message: Seq<char>,
}

pub open spec fn issue(field: &'static str, message: &'static str) -> Issue {
    Issue { field: field@, message: message@ }
}

impl View for CheckpointValidationError {
    type V = Issue;

    open spec fn view(&self) -> Issue {
        Issue { field: self.field@, message: self.message@ }
    }
}

/// Problem of a text of `min..=max` characters, if any.
pub open spec fn text_issue(field: &'static str, s: Seq<char>, min: nat, max: nat) -> Option<Issue> {
    if s.len() < min {
        Some(issue(field, "is shorter than minimum length"))
    } else if s.len() > max {
        Some(issue(field, "exceeds maximum length"))
    } else {
        None
    }
}

/// Problem of an optional text of at most `max` characters, if any.
pub open spec fn optional_text_issue(field: &'static str, s: Option<Seq<char>>, max: nat) -> Option<
    Issue,
> {
    match s {
        Some(s) => if s.len() > max {
            Some(issue(field, "exceeds maximum length"))
        } else {
            None
        },
        None => None,
    }
}

/// Two elements of the sequence are equal.
pub open spec fn has_duplicates(s: Seq<Seq<char>>) -> bool {
    exists|i: int, j: int| 0 <= i < j < s.len() && s[i] == s[j]
}

pub open spec fn is_separator(c: char) -> bool {
    c == '/' || c == '\\'
}

/// A relative path: it does not start with a separator or a drive prefix such as `C:`, and
/// no segment between separators (either `/` or `\`) is `..`.
pub open spec fn safe_relative_path(s: Seq<char>) -> bool {
    &&& !(s.len() > 0 && is_separator(s[0]))
    &&& !(s.len() >= 2 && s[0] < '\u{80}' && s[1] == ':')
    &&& !exists|i: int|
        0 <= i && i + 2 <= s.len() && (i == 0 || is_separator(s[i - 1])) && #[trigger] s[i] == '.'
            && s[i + 1] == '.' && (i + 2 == s.len() || is_separator(s[i + 2]))
}

/// First changed path problem: its length, then its safety.
pub open spec fn paths_issue(paths: Seq<Seq<char>>) -> Option<Issue>
    decreases paths.len(),
{
    if paths.len() == 0 {
        None
    } else if let Some(e) = text_issue("changed_paths[]", paths[0], 1, 512) {
        Some(e)
    } else if !safe_relative_path(paths[0]) {
        Some(issue("changed_paths[]", "must be a relative path without parent traversal"))
    } else {
        paths_issue(paths.drop_first())
    }
}

/// First verification record problem.
pub open spec fn verification_issue(records: Seq<VerificationView>) -> Option<Issue>
    decreases records.len(),
{
    if records.len() == 0 {
        None
    } else if let Some(e) = text_issue("verification[].name", records[0].name, 1, 256) {
        Some(e)
    } else if let Some(e) = optional_text_issue(
        "verification[].evidence_ref",
        records[0].evidence_ref,
        1024,
    ) {
        Some(e)
    } else {
        verification_issue(records.drop_first())
    }
}

/// First evidence reference problem.
pub open spec fn refs_issue(refs: Seq<Seq<char>>) -> Option<Issue>
    decreases refs.len(),
{
    if refs.len() == 0 {
        None
    } else if let Some(e) = text_issue("evidence_refs[]", refs[0], 1, 1024) {
        Some(e)
    } else {
        refs_issue(refs.drop_first())
    }
}

/// The first problem of a checkpoint, given whether its timestamp parses as RFC 3339.
pub open spec fn checkpoint_issue(c: CheckpointView, timestamp_ok: bool) -> Option<Issue> {
    if c.schema_version != PROGRESS_CHECKPOINT_SCHEMA_VERSION@ {
        Some(issue("schema_version", "unsupported schema version"))
    } else if let Some(e) = text_issue("checkpoint_id", c.checkpoint_id, 1, 128) {
        Some(e)
    } else if let Some(e) = text_issue("project_id", c.project_id, 1, 128) {
        Some(e)
    } else if let Some(e) = optional_text_issue("work_item_id", c.work_item_id, 128) {
        Some(e)
    } else if let Some(e) = text_issue("execution_workspace_id", c.execution_workspace_id, 1, 128) {
        Some(e)
    } else if let Some(e) = text_issue("actor.id", c.actor_id, 1, 128) {
        Some(e)
    } else if !timestamp_ok {
        Some(issue("recorded_at", "must be RFC 3339 date-time"))
    } else if let Some(e) = text_issue("summary", c.summary, 1, 2000) {
        Some(e)
    } else if c.changed_paths.len() > 200 {
        Some(issue("changed_paths", "contains too many items"))
    } else if has_duplicates(c.changed_paths) {
        Some(issue("changed_paths", "contains duplicate items"))
    } else if let Some(e) = paths_issue(c.changed_paths) {
        Some(e)
    } else if let Some(e) = match c.git {
        Some(g) => if let Some(e) = optional_text_issue("git.head", g.head, 128) {
            Some(e)
        } else {
            optional_text_issue("git.branch", g.branch, 256)
        },
        None => None,
    } {
        Some(e)
    } else if c.verification.len() > 100 {
        Some(issue("verification", "contains too many items"))
    } else if let Some(e) = verification_issue(c.verification) {
        Some(e)
    } else if c.evidence_refs.len() > 100 {
        Some(issue("evidence_refs", "contains too many items"))
    } else if has_duplicates(c.evidence_refs) {
        Some(issue("evidence_refs", "contains duplicate items"))
    } else {
        refs_issue(c.evidence_refs)
    }
}

/// Whether `chrono::DateTime::parse_from_rfc3339` accepts the text.
pub uninterp spec fn rfc3339_accepts(text: Seq<char>) -> bool;

/// Calls `chrono::DateTime::parse_from_rfc3339`; the contract claims only that the answer is
/// the chrono parser's acceptance of the text, a function of the text alone.
#[verifier::external_body]
pub(crate) fn parses_as_rfc3339(text: &str) -> (b: bool)
    ensures
        b == rfc3339_accepts(text@),
{
    chrono::DateTime::parse_from_rfc3339(text).is_ok()
}

fn err(field: &'static str, message: &'static str) -> (r: Result<(), CheckpointValidationError>)
    ensures
        r matches Err(e) && e@ == issue(field, message),
{
    Err(CheckpointValidationError { field, message })
}

/// Check a text of `min..=max` characters.
pub fn validate_text(field: &'static str, s: &str, min: usize, max: usize) -> (r: Result<
    (),
    CheckpointValidationError,
>)
    ensures
        match text_issue(field, s@, min as nat, max as nat) {
            Some(i) => r matches Err(e) && e@ == i,
            None => r is Ok,
        },
{
    let n = char_len(s);
    if n < min {
        return err(field, "is shorter than minimum length");
    }
    if n > max {
        return err(field, "exceeds maximum length");
    }
    Ok(())
}

/// Check an optional text of at most `max` characters.
pub fn validate_optional_text(field: &'static str, s: &Option<String>, max: usize) -> (r: Result<
    (),
    CheckpointValidationError,
>)
    ensures
        match optional_text_issue(field, opt_view(*s), max as nat) {
            Some(i) => r matches Err(e) && e@ == i,
            None => r is Ok,
        },
{
    match s {
        Some(s) => {
            if char_len(s.as_str()) > max {
                return err(field, "exceeds maximum length");
            }
            Ok(())
        },
        None => Ok(()),
    }
}

/// Whether two elements of the list are equal texts.
pub fn strings_have_duplicates(v: &Vec<String>) -> (b: bool)
    ensures
        b == has_duplicates(crate::ordered::string_views(v@)),
{
    let ghost s = crate::ordered::string_views(v@);
    let mut j: usize = 0;
    while j < v.len()
        invariant
            j <= v.len(),
            s == crate::ordered::string_views(v@),
            forall|a: int, b: int| 0 <= a < b < j ==> s[a] != s[b],
        decreases v.len() - j,
    {
        let mut i: usize = 0;
        while i < j
            invariant
                i <= j,
                j < v.len(),
                s == crate::ordered::string_views(v@),
                forall|a: int| 0 <= a < i ==> s[a] != s[j as int],
            decreases j - i,
        {
            if str_eq(v[i].as_str(), v[j].as_str()) {
                assert(s[i as int] == s[j as int]);
                return true;
            }
            i = i + 1;
        }
        j = j + 1;
    }
    false
}

/// Whether the path is relative and free of `..` segments.
pub fn is_safe_relative_path(path: &str) -> (b: bool)
    ensures
        b == safe_relative_path(path@),
{
    let n = char_len(path);
    if n > 0 {
        let c0 = path.get_char(0);
        if c0 == '/' || c0 == '\\' {
            return false;
        }
        if n >= 2 && c0 < '\u{80}' && path.get_char(1) == ':' {
            return false;
        }
    }
    let ghost s = path@;
    let mut i: usize = 0;
    while i <= n && n - i >= 2
        invariant
            i <= n,
            n == s.len(),
            s == path@,
            !(s.len() > 0 && is_separator(s[0])),
            !(s.len() >= 2 && s[0] < '\u{80}' && s[1] == ':'),
            forall|k: int|
                0 <= k < i && k + 2 <= s.len() ==> !((k == 0 || is_separator(s[k - 1])) && #[trigger] s[k]
                    == '.' && s[k + 1] == '.' && (k + 2 == s.len() || is_separator(s[k + 2]))),
        decreases n - i,
    {
        let at_start = i == 0 || {
            let p = path.get_char(i - 1);
            p == '/' || p == '\\'
        };
        if at_start && path.get_char(i) == '.' && path.get_char(i + 1) == '.' {
            let at_end = i + 2 == n || {
                let q = path.get_char(i + 2);
                q == '/' || q == '\\'
            };
            if at_end {
                return false;
            }
        }
        i = i + 1;
    }
    true
}

impl ProgressCheckpoint {
    /// Validate the stable v0 bounds before durable storage; the timestamp is checked with
    /// chrono's RFC 3339 parser.
    pub fn validate(&self) -> (r: Result<(), CheckpointValidationError>)
        ensures
            match checkpoint_issue(self@, rfc3339_accepts(self.recorded_at@)) {
                Some(i) => r matches Err(e) && e@ == i,
                None => r is Ok,
            },
    {
        let timestamp_ok = parses_as_rfc3339(self.recorded_at.as_str());
        self.validate_with_timestamp(timestamp_ok)
    }

    /// Validate the stable v0 bounds, given whether the timestamp parses as RFC 3339.
    pub fn validate_with_timestamp(&self, timestamp_ok: bool) -> (r: Result<
        (),
        CheckpointValidationError,
    >)
        ensures
            match checkpoint_issue(self@, timestamp_ok) {
                Some(i) => r matches Err(e) && e@ == i,
                None => r is Ok,
            },
    {
        if !str_eq(self.schema_version.as_str(), PROGRESS_CHECKPOINT_SCHEMA_VERSION) {
            return err("schema_version", "unsupported schema version");
        }
        validate_text("checkpoint_id", self.checkpoint_id.as_str(), 1, 128)?;
        validate_text("project_id", self.project_id.as_str(), 1, 128)?;
        validate_optional_text("work_item_id", &self.work_item_id, 128)?;
        validate_text("execution_workspace_id", self.execution_workspace_id.as_str(), 1, 128)?;
        validate_text("actor.id", self.actor.id.as_str(), 1, 128)?;
        if !timestamp_ok {
            return err("recorded_at", "must be RFC 3339 date-time");
        }
        validate_text("summary", self.summary.as_str(), 1, 2000)?;
        if self.changed_paths.len() > 200 {
            return err("changed_paths", "contains too many items");
        }
        if strings_have_duplicates(&self.changed_paths) {
            return err("changed_paths", "contains duplicate items");
        }
        self.validate_paths()?;
        match &self.git {
            Some(git) => {
                validate_optional_text("git.head", &git.head, 128)?;
                validate_optional_text("git.branch", &git.branch, 256)?;
            },
            None => {},
        }
        if self.verification.len() > 100 {
            return err("verification", "contains too many items");
        }
        self.validate_verification()?;
        if self.evidence_refs.len() > 100 {
            return err("evidence_refs", "contains too many items");
        }
        if strings_have_duplicates(&self.evidence_refs) {
            return err("evidence_refs", "contains duplicate items");
        }
        self.validate_refs()
    }

    fn validate_paths(&self) -> (r: Result<(), CheckpointValidationError>)
        ensures
            match paths_issue(self@.changed_paths) {
                Some(i) => r matches Err(e) && e@ == i,
                None => r is Ok,
            },
    {
        let ghost s = self@.changed_paths;
        let mut i: usize = 0;
        assert(s.skip(0) =~= s);
        while i < self.changed_paths.len()
            invariant
                i <= self.changed_paths@.len(),
                s == self@.changed_paths,
                paths_issue(s) == paths_issue(s.skip(i as int)),
            decreases self.changed_paths@.len() - i,
        {
            let p = self.changed_paths[i].as_str();
            assert(s.skip(i as int)[0] == p@);
            validate_text("changed_paths[]", p, 1, 512)?;
            if !is_safe_relative_path(p) {
                return err("changed_paths[]", "must be a relative path without parent traversal");
            }
            assert(s.skip(i as int).drop_first() =~= s.skip(i + 1));
            i = i + 1;
        }
        assert(s.skip(i as int).len() == 0);
        Ok(())
    }

    fn validate_verification(&self) -> (r: Result<(), CheckpointValidationError>)
        ensures
            match verification_issue(self@.verification) {
                Some(i) => r matches Err(e) && e@ == i,
                None => r is Ok,
            },
    {
        let ghost s = self@.verification;
        let mut i: usize = 0;
        assert(s.skip(0) =~= s);
        while i < self.verification.len()
            invariant
                i <= self.verification@.len(),
                s == self@.verification,
                verification_issue(s) == verification_issue(s.skip(i as int)),
            decreases self.verification@.len() - i,
        {
            let record = &self.verification[i];
            assert(s.skip(i as int)[0] == record@);
            validate_text("verification[].name", record.name.as_str(), 1, 256)?;
            validate_optional_text("verification[].evidence_ref", &record.evidence_ref, 1024)?;
            assert(s.skip(i as int).drop_first() =~= s.skip(i + 1));
            i = i + 1;
        }
        assert(s.skip(i as int).len() == 0);
        Ok(())
    }

    fn validate_refs(&self) -> (r: Result<(), CheckpointValidationError>)
        ensures
            match refs_issue(self@.evidence_refs) {
                Some(i) => r matches Err(e) && e@ == i,
                None => r is Ok,
            },
    {
        let ghost s = self@.evidence_refs;
        let mut i: usize = 0;
        assert(s.skip(0) =~= s);
        while i < self.evidence_refs.len()
            invariant
                i <= self.evidence_refs@.len(),
                s == self@.evidence_refs,
                refs_issue(s) == refs_issue(s.skip(i as int)),
            decreases self.evidence_refs@.len() - i,
        {
            let p = self.evidence_refs[i].as_str();
            assert(s.skip(i as int)[0] == p@);
            validate_text("evidence_refs[]", p, 1, 1024)?;
            assert(s.skip(i as int).drop_first() =~= s.skip(i + 1));
            i = i + 1;
        }
        assert(s.skip(i as int).len() == 0);
        Ok(())
    }
}

/// A configured projection destination.
#[derive(Debug, Clone, PartialEq, Eq)]
pub struct DeliveryTarget {
    /// Stable destination identity resolved by Board configuration.
    pub destination_id: String,
}

impl DeliveryTarget {
    /// Validate the destination identity: 1 to 128 characters.
    pub fn validate(&self) -> (r: Result<(), CheckpointValidationError>)
        ensures
            match text_issue("destination_id", self.destination_id@, 1, 128) {
                Some(i) => r matches Err(e) && e@ == i,
                None => r is Ok,
            },
    {
        validate_text("destination_id", self.destination_id.as_str(), 1, 128)
    }
}

/// Projection state for one checkpoint and destination.
#[derive(Debug, Clone, Copy, PartialEq, Eq, Structural)]
pub enum DeliveryStatus {
    /// Durable locally and waiting for projection.
    Pending,
    /// Destination acknowledged the same checkpoint.
    Synced,
    /// The destination has the same ID with different content.
    Conflict,
    /// The latest projection attempt failed and may be retried.
    Failed,
}

impl DeliveryStatus {
    /// Stable storage and wire name of the status.
    pub fn as_db(self) -> (r: &'static str)
        ensures
            r@ == delivery_status_name(self),
    {
        match self {
            DeliveryStatus::Pending => "pending",
            DeliveryStatus::Synced => "synced",
            DeliveryStatus::Conflict => "conflict",
            DeliveryStatus::Failed => "failed",
        }
    }

    /// The status whose stable name is `value`, if any.
    pub fn from_db(value: &str) -> (r: Option<Self>)
        ensures
            match r {
                Some(s) => delivery_status_name(s) == value@,
                None => forall|s: DeliveryStatus| delivery_status_name(s) != value@,
            },
    {
        if str_eq(value, "pending") {
            Some(DeliveryStatus::Pending)
        } else if str_eq(value, "synced") {
            Some(DeliveryStatus::Synced)
        } else if str_eq(value, "conflict") {
            Some(DeliveryStatus::Conflict)
        } else if str_eq(value, "failed") {
            Some(DeliveryStatus::Failed)
        } else {
            None
        }
    }
}

pub open spec fn delivery_status_name(s: DeliveryStatus) -> Seq<char> {
    match s {
        DeliveryStatus::Pending => "pending"@,
        DeliveryStatus::Synced => "synced"@,
        DeliveryStatus::Conflict => "conflict"@,
        DeliveryStatus::Failed => "failed"@,
    }
}

/// An owned copy of an optional text.
pub fn copy_optional(o: &Option<String>) -> (r: Option<String>)
    ensures
        opt_view(r) == opt_view(*o),
{
    match o {
        Some(s) => Some(s.clone()),
        None => None,
    }
}

fn copy_verification(v: &Vec<VerificationRecord>) -> (r: Vec<VerificationRecord>)
    ensures
        r@.map_values(|x: VerificationRecord| x@) == v@.map_values(|x: VerificationRecord| x@),
{
    let mut r: Vec<VerificationRecord> = Vec::new();
    let mut i: usize = 0;
    while i < v.len()
        invariant
            i <= v.len(),
            r@.len() == i,
            forall|j: int| 0 <= j < i ==> (#[trigger] r@[j])@ == v@[j]@,
        decreases v.len() - i,
    {
        let x = &v[i];
        r.push(
            VerificationRecord {
                name: x.name.clone(),
                status: x.status,
                evidence_ref: copy_optional(&x.evidence_ref),
            },
        );
        i = i + 1;
    }
    assert(r@.map_values(|x: VerificationRecord| x@) =~= v@.map_values(
        |x: VerificationRecord| x@,
    ));
    r
}

impl ProgressCheckpoint {
    /// An owned copy of the checkpoint with the same content.
    pub fn copy(&self) -> (r: ProgressCheckpoint)
        ensures
            r@ == self@,
    {
        let r = ProgressCheckpoint {
            schema_version: self.schema_version.clone(),
            checkpoint_id: self.checkpoint_id.clone(),
            recorded_at: self.recorded_at.clone(),
            project_id: self.project_id.clone(),
            work_item_id: copy_optional(&self.work_item_id),
            execution_workspace_id: self.execution_workspace_id.clone(),
            source: self.source,
            actor: CheckpointActor { kind: self.actor.kind, id: self.actor.id.clone() },
            outcome: self.outcome,
            summary: self.summary.clone(),
            changed_paths: crate::ordered::copy_strings(&self.changed_paths),
            git: match &self.git {
                Some(g) => Some(
                    GitState {
                        head: copy_optional(&g.head),
                        branch: copy_optional(&g.branch),
                        dirty: g.dirty,
                    },
                ),
                None => None,
            },
            verification: copy_verification(&self.verification),
            evidence_refs: crate::ordered::copy_strings(&self.evidence_refs),
            recommended_state: self.recommended_state,
        };
        r
    }
}

/// Whether two lists of verification records have the same content.
fn same_verification(a: &Vec<VerificationRecord>, b: &Vec<VerificationRecord>) -> (r: bool)
    ensures
        r == (a@.map_values(|x: VerificationRecord| x@) == b@.map_values(
            |x: VerificationRecord| x@,
        )),
{
    let ghost va = a@.map_values(|x: VerificationRecord| x@);
    let ghost vb = b@.map_values(|x: VerificationRecord| x@);
    if a.len() != b.len() {
        assert(va.len() != vb.len());
        return false;
    }
    let mut i: usize = 0;
    while i < a.len()
        invariant
            a.len() == b.len(),
            i <= a.len(),
            va == a@.map_values(|x: VerificationRecord| x@),
            vb == b@.map_values(|x: VerificationRecord| x@),
            forall|j: int| 0 <= j < i ==> va[j] == vb[j],
        decreases a.len() - i,
    {
        let x = &a[i];
        let y = &b[i];
        if !(str_eq(x.name.as_str(), y.name.as_str()) && x.status == y.status && same_optional(
            &x.evidence_ref,
            &y.evidence_ref,
        )) {
            assert(va[i as int] != vb[i as int]);
            return false;
        }
        i = i + 1;
    }
    assert(va =~= vb);
    true
}

/// Whether two optional texts are equal.
pub fn same_optional(a: &Option<String>, b: &Option<String>) -> (r: bool)
    ensures
        r == (opt_view(*a) == opt_view(*b)),
{
    match (a, b) {
        (Some(x), Some(y)) => str_eq(x.as_str(), y.as_str()),
        (None, None) => true,
        _ => false,
    }
}

/// Whether two lists of texts are equal element by element.
pub fn same_strings(a: &Vec<String>, b: &Vec<String>) -> (r: bool)
    ensures
        r == (crate::ordered::string_views(a@) == crate::ordered::string_views(b@)),
{
    let ghost va = crate::ordered::string_views(a@);
    let ghost vb = crate::ordered::string_views(b@);
    if a.len() != b.len() {
        assert(va.len() != vb.len());
        return false;
    }
    let mut i: usize = 0;
    while i < a.len()
        invariant
            a.len() == b.len(),
            i <= a.len(),
            va == crate::ordered::string_views(a@),
            vb == crate::ordered::string_views(b@),
            forall|j: int| 0 <= j < i ==> va[j] == vb[j],
        decreases a.len() - i,
    {
        if !str_eq(a[i].as_str(), b[i].as_str()) {
            assert(va[i as int] != vb[i as int]);
            return false;
        }
        i = i + 1;
    }
    assert(va =~= vb);
    true
}

impl ProgressCheckpoint {
    /// Whether two checkpoints have the same immutable content, field by field.
    pub fn same_content(&self, other: &ProgressCheckpoint) -> (r: bool)
        ensures
            r == (self@ == other@),
    {
        let git_same = match (&self.git, &other.git) {
            (Some(a), Some(b)) => same_optional(&a.head, &b.head) && same_optional(
                &a.branch,
                &b.branch,
            ) && a.dirty == b.dirty,
            (None, None) => true,
            _ => false,
        };
        let r = str_eq(self.schema_version.as_str(), other.schema_version.as_str()) && str_eq(
            self.checkpoint_id.as_str(),
            other.checkpoint_id.as_str(),
        ) && str_eq(self.recorded_at.as_str(), other.recorded_at.as_str()) && str_eq(
            self.project_id.as_str(),
            other.project_id.as_str(),
        ) && same_optional(&self.work_item_id, &other.work_item_id) && str_eq(
            self.execution_workspace_id.as_str(),
            other.execution_workspace_id.as_str(),
        ) && self.source == other.source && self.actor.kind == other.actor.kind && str_eq(
            self.actor.id.as_str(),
            other.actor.id.as_str(),
        ) && self.outcome == other.outcome && str_eq(
            self.summary.as_str(),
            other.summary.as_str(),
        ) && same_strings(&self.changed_paths, &other.changed_paths) && git_same
            && same_verification(&self.verification, &other.verification) && same_strings(
            &self.evidence_refs,
            &other.evidence_refs,
        ) && self.recommended_state == other.recommended_state;
        r
    }
}

/// Current delivery information for one destination.
#[derive(Debug, Clone, PartialEq, Eq)]
pub struct DeliveryReceipt {
    /// Stable destination identity.
    pub destination_id: String,
    /// Current delivery state.
    pub status: DeliveryStatus,
    /// Number of projection attempts.
    pub attempts: u32,
    /// Bounded latest error or conflict summary.
    pub last_error: Option<String>,
}

/// Abstract value of a delivery receipt.
pub struct ReceiptView {
    pub destination_id: Seq<char>,
    pub status: DeliveryStatus,
    pub attempts: u32,
    pub last_error: Option<Seq<char>>,
}

impl View for DeliveryReceipt {
    type V = ReceiptView;

    open spec fn view(&self) -> ReceiptView {
        ReceiptView {
            destination_id: self.destination_id@,
            status: self.status,
            attempts: self.attempts,
            last_error: opt_view(self.last_error),
        }
    }
}

pub open spec fn receipt_views(v: Seq<DeliveryReceipt>) -> Seq<ReceiptView> {
    v.map_values(|d: DeliveryReceipt| d@)
}

/// Durable response from `record`.
#[derive(Debug, Clone, PartialEq, Eq)]
pub struct RecordReceipt {
    /// Stable checkpoint identity.
    pub checkpoint_id: String,
    /// True when the same immutable payload was already present.
    pub duplicate: bool,
    /// Independent delivery states, sorted by destination identity.
    pub deliveries: Vec<DeliveryReceipt>,
}

/// Checkpoint plus current per-destination delivery information.
#[derive(Debug, Clone, PartialEq, Eq)]
pub struct CheckpointStatus {
    /// Immutable stored checkpoint.
    pub checkpoint: ProgressCheckpoint,
    /// Independent delivery states, sorted by destination identity.
    pub deliveries: Vec<DeliveryReceipt>,
}

/// Abstract value of a checkpoint status.
pub struct StatusView {
    pub checkpoint: CheckpointView,
    pub deliveries: Seq<ReceiptView>,
}

impl View for CheckpointStatus {
    type V = StatusView;

    open spec fn view(&self) -> StatusView {
        StatusView { checkpoint: self.checkpoint@, deliveries: receipt_views(self.deliveries@) }
    }
}

/// Bounded newest-first query over the immutable checkpoint ledger.
#[derive(Debug, Clone, PartialEq, Eq)]
pub struct CheckpointQuery {
    /// Stable Board project identity.
    pub project_id: String,
    /// Optional explicit Work item filter.
    pub work_item_id: Option<String>,
    /// Return records older than this checkpoint identity.
    pub before_checkpoint_id: Option<String>,
    /// Maximum number of checkpoints to return, from 1 through 100.
    pub limit: u16,
}

/// Abstract value of a ledger query.
pub struct QueryView {
    pub project_id: Seq<char>,
    pub work_item_id: Option<Seq<char>>,
    pub before_checkpoint_id: Option<Seq<char>>,
    pub limit: u16,
}

impl View for CheckpointQuery {
    type V = QueryView;

    open spec fn view(&self) -> QueryView {
        QueryView {
            project_id: self.project_id@,
            work_item_id: opt_view(self.work_item_id),
            before_checkpoint_id: opt_view(self.before_checkpoint_id),
            limit: self.limit,
        }
    }
}

/// One bounded page from the immutable checkpoint ledger.
#[derive(Debug, Clone, PartialEq, Eq)]
pub struct CheckpointPage {
    /// Checkpoints in newest-first intake order.
    pub checkpoints: Vec<CheckpointStatus>,
    /// Cursor for the next older page when more records exist.
    pub next_cursor: Option<String>,
}

/// Result returned by a Knowledge projection Adapter.
#[derive(Debug, Clone, PartialEq, Eq)]
pub enum ProjectionOutcome {
    /// The destination contains the same checkpoint.
    Synced,
    /// The destination contains conflicting content for the checkpoint ID.
    Conflict { message: String },
    /// Delivery failed and may be retried.
    Failed { message: String },
}

/// Abstract value of a projection outcome.
pub enum OutcomeView {
    Synced,
    Conflict(Seq<char>),
    Failed(Seq<char>),
}

impl View for ProjectionOutcome {
    type V = OutcomeView;

    open spec fn view(&self) -> OutcomeView {
        match self {
            ProjectionOutcome::Synced => OutcomeView::Synced,
            ProjectionOutcome::Conflict { message } => OutcomeView::Conflict(message@),
            ProjectionOutcome::Failed { message } => OutcomeView::Failed(message@),
        }
    }
}

/// Counts returned from one explicit delivery pass.
#[derive(Debug, Clone, Copy, PartialEq, Eq, Structural)]
pub struct SyncSummary {
    /// Pending or failed deliveries inspected.
    pub attempted: u32,
    /// Deliveries that became synced.
    pub synced: u32,
    /// Deliveries that became conflicts.
    pub conflict: u32,
    /// Deliveries whose latest attempt failed.
    pub failed: u32,
}

impl Default for SyncSummary {
    fn default() -> (r: SyncSummary)
        ensures
            r == (SyncSummary { attempted: 0, synced: 0, conflict: 0, failed: 0 }),
    {
        SyncSummary { attempted: 0, synced: 0, conflict: 0, failed: 0 }
    }
}

} // verus!
