//! Idempotent Progress Checkpoint ledger and independent projection delivery.
//!
//! The ledger keeps every accepted checkpoint in intake order together with one delivery row
//! per configured destination. Durable storage of the ledger belongs to the caller: the
//! recorder exposes its entries and can be restored from them.

pub mod laws;
pub mod types;

use vstd::prelude::*;

use crate::ordered::{
    canonical_set, lemma_lex_transitive, lex_lt, str_lt, lemma_sorted_is_sorted_of, lemma_sorted_unique, sorted_of, str_eq,
    string_views, strictly_sorted,
};
use crate::text::{kept_chars, prefix_at_most, sanitize_message};
use self::types::{
    checkpoint_issue, copy_optional, issue, opt_view, receipt_views, rfc3339_accepts, text_issue,
    CheckpointPage, CheckpointQuery, CheckpointStatus, CheckpointValidationError, CheckpointView,
    DeliveryReceipt, DeliveryStatus, DeliveryTarget, Issue, OutcomeView, ProgressCheckpoint,
    ProjectionOutcome, QueryView, ReceiptView, RecordReceipt, StatusView, SyncSummary,
};

verus! {

/// Longest stored delivery error or conflict message, in characters.
pub const MAX_DELIVERY_MESSAGE: usize = 1000;

/// Knowledge projection seam used by `sync_pending`.
///
/// Returned messages must already be safe to persist and display. The recorder bounds their
/// length and removes unsafe control characters, but does not know how to redact
/// destination-specific secrets.
pub trait CheckpointProjector: Sized {
    /// Whether projecting the checkpoint to the destination can leave this projector as `after`
    /// and answer `outcome`. What each implementation does is its own; one that does not state
    /// it promises nothing more of its outcomes.
    closed spec fn projects(
        &self,
        destination_id: Seq<char>,
        checkpoint: CheckpointView,
        after: Self,
        outcome: OutcomeView,
    ) -> bool {
        true
    }

    /// Project one immutable checkpoint to one configured destination.
    fn project(&mut self, target: &DeliveryTarget, checkpoint: &ProgressCheckpoint) -> (r: ProjectionOutcome)
        ensures
            old(self).projects(target.destination_id@, checkpoint@, *final(self), r@),
    ;
}

/// The stored delivery state of one checkpoint for one destination.
#[derive(Debug, Clone, PartialEq, Eq)]
pub struct DeliveryRow {
    /// Stable destination identity.
    pub destination_id: String,
    /// Current delivery state.
    pub status: DeliveryStatus,
    /// Number of projection attempts so far.
    pub attempts: u64,
    /// Bounded latest error or conflict summary.
    pub last_error: Option<String>,
}

/// Abstract value of a delivery row.
pub struct RowView {
    pub destination_id: Seq<char>,
    pub status: DeliveryStatus,
    pub attempts: u64,
    pub last_error: Option<Seq<char>>,
}

impl View for DeliveryRow {
    type V = RowView;

    open spec fn view(&self) -> RowView {
        RowView {
            destination_id: self.destination_id@,
            status: self.status,
            attempts: self.attempts,
            last_error: opt_view(self.last_error),
        }
    }
}

pub open spec fn row_views(v: Seq<DeliveryRow>) -> Seq<RowView> {
    v.map_values(|r: DeliveryRow| r@)
}

/// One accepted checkpoint and its delivery rows, sorted by destination identity.
#[derive(Debug, Clone, PartialEq, Eq)]
pub struct LedgerEntry {
    /// Immutable accepted checkpoint.
    pub checkpoint: ProgressCheckpoint,
    /// Delivery rows, strictly ascending by destination identity.
    pub deliveries: Vec<DeliveryRow>,
}

/// Abstract value of a ledger entry.
pub struct EntryView {
    pub checkpoint: CheckpointView,
    pub deliveries: Seq<RowView>,
}

impl View for LedgerEntry {
    type V = EntryView;

    open spec fn view(&self) -> EntryView {
        EntryView {
            checkpoint: self.checkpoint@,
            deliveries: row_views(self.deliveries@),
        }
    }
}

pub open spec fn entry_views(v: Seq<LedgerEntry>) -> Seq<EntryView> {
    v.map_values(|e: LedgerEntry| e@)
}

/// Recorder failure.
#[derive(Debug, Clone, PartialEq, Eq)]
pub enum ProgressError {
    /// Checkpoint, destination or query validation failed.
    InvalidCheckpoint(CheckpointValidationError),
    /// The same checkpoint identity was presented with different content.
    CheckpointConflict { checkpoint_id: String },
    /// An idempotent retry changed the destinations captured by the first record.
    DeliverySetMismatch { checkpoint_id: String },
    /// The requested checkpoint does not exist.
    CheckpointNotFound { checkpoint_id: String },
    /// Stored state violated an internal invariant.
    CorruptState { message: &'static str },
}

/// Abstract value of a recorder failure.
pub enum ErrorView {
    Invalid(Issue),
    Conflict(Seq<char>),
    Mismatch(Seq<char>),
    NotFound(Seq<char>),
    Corrupt(Seq<char>),
}

impl View for ProgressError {
    type V = ErrorView;

    open spec fn view(&self) -> ErrorView {
        match self {
            ProgressError::InvalidCheckpoint(e) => ErrorView::Invalid(e@),
            ProgressError::CheckpointConflict { checkpoint_id } => ErrorView::Conflict(
                checkpoint_id@,
            ),
            ProgressError::DeliverySetMismatch { checkpoint_id } => ErrorView::Mismatch(
                checkpoint_id@,
            ),
            ProgressError::CheckpointNotFound { checkpoint_id } => ErrorView::NotFound(
                checkpoint_id@,
            ),
            ProgressError::CorruptState { message } => ErrorView::Corrupt(message@),
        }
    }
}

/// Destination identities of delivery rows, in order.
pub open spec fn row_ids(rows: Seq<RowView>) -> Seq<Seq<char>> {
    rows.map_values(|r: RowView| r.destination_id)
}

/// Checkpoint identities are unique and each entry's rows are strictly ascending by destination.
pub open spec fn ledger_wf(l: Seq<EntryView>) -> bool {
    &&& forall|i: int, j: int|
        0 <= i < j < l.len() ==> (#[trigger] l[i]).checkpoint.checkpoint_id != (
        #[trigger] l[j]).checkpoint.checkpoint_id
    &&& forall|i: int| 0 <= i < l.len() ==> strictly_sorted(row_ids(#[trigger] l[i].deliveries))
}

/// The ledger holds a checkpoint with this identity.
pub open spec fn has_checkpoint(l: Seq<EntryView>, id: Seq<char>) -> bool {
    exists|i: int| 0 <= i < l.len() && (#[trigger] l[i]).checkpoint.checkpoint_id == id
}

/// Position of the checkpoint with this identity (meaningful when it is present).
pub open spec fn entry_index(l: Seq<EntryView>, id: Seq<char>) -> int {
    choose|i: int| 0 <= i < l.len() && (#[trigger] l[i]).checkpoint.checkpoint_id == id
}

/// Every attempt counter fits the `u32` of a receipt.
pub open spec fn rows_fit(rows: Seq<RowView>) -> bool {
    forall|i: int| 0 <= i < rows.len() ==> (#[trigger] rows[i]).attempts <= u32::MAX
}

pub open spec fn receipt_of(r: RowView) -> ReceiptView {
    ReceiptView {
        destination_id: r.destination_id,
        status: r.status,
        attempts: r.attempts as u32,
        last_error: r.last_error,
    }
}

pub open spec fn receipts_of(rows: Seq<RowView>) -> Seq<ReceiptView> {
    rows.map_values(|r: RowView| receipt_of(r))
}

/// Fresh rows for the given destinations: pending, never attempted, without error.
pub open spec fn pending_rows(ids: Seq<Seq<char>>) -> Seq<RowView> {
    ids.map_values(
        |d: Seq<char>| RowView { destination_id: d, status: DeliveryStatus::Pending, attempts: 0, last_error: None },
    )
}

pub open spec fn target_ids(t: Seq<DeliveryTarget>) -> Seq<Seq<char>> {
    t.map_values(|d: DeliveryTarget| d.destination_id@)
}

/// First destination problem from position `k` on: its length, then a repeat of an earlier one.
pub open spec fn targets_issue_from(t: Seq<Seq<char>>, k: int) -> Option<Issue>
    decreases t.len() - k,
{
    if k < 0 || k >= t.len() {
        None
    } else if let Some(e) = text_issue("destination_id", t[k], 1, 128) {
        Some(e)
    } else if t.take(k).contains(t[k]) {
        Some(issue("destinations", "contains duplicate destination IDs"))
    } else {
        targets_issue_from(t, k + 1)
    }
}

pub open spec fn targets_issue(t: Seq<Seq<char>>) -> Option<Issue> {
    targets_issue_from(t, 0)
}

/// Problem of a checkpoint identity used for a lookup, if any.
pub open spec fn lookup_issue(id: Seq<char>) -> Option<Issue> {
    text_issue("checkpoint_id", id, 1, 128)
}

pub open spec fn corrupt_attempts() -> ErrorView {
    ErrorView::Corrupt("delivery attempts out of range"@)
}

/// What `status` answers for an identity.
pub open spec fn status_spec(l: Seq<EntryView>, id: Seq<char>) -> Result<StatusView, ErrorView> {
    if let Some(i) = lookup_issue(id) {
        Err(ErrorView::Invalid(i))
    } else if !has_checkpoint(l, id) {
        Err(ErrorView::NotFound(id))
    } else {
        let e = l[entry_index(l, id)];
        if !rows_fit(e.deliveries) {
            Err(corrupt_attempts())
        } else {
            Ok(StatusView { checkpoint: e.checkpoint, deliveries: receipts_of(e.deliveries) })
        }
    }
}

/// What `record` answers: whether the record is a duplicate and the rows it reports, or the
/// failure. `timestamp_ok` is whether the checkpoint's timestamp parses as RFC 3339.
pub open spec fn record_spec(
    l: Seq<EntryView>,
    c: CheckpointView,
    t: Seq<Seq<char>>,
    timestamp_ok: bool,
) -> Result<(bool, Seq<RowView>), ErrorView> {
    if let Some(i) = checkpoint_issue(c, timestamp_ok) {
        Err(ErrorView::Invalid(i))
    } else if let Some(i) = targets_issue(t) {
        Err(ErrorView::Invalid(i))
    } else if has_checkpoint(l, c.checkpoint_id) {
        let e = l[entry_index(l, c.checkpoint_id)];
        if e.checkpoint != c {
            Err(ErrorView::Conflict(c.checkpoint_id))
        } else if row_ids(e.deliveries).to_set() != t.to_set() {
            Err(ErrorView::Mismatch(c.checkpoint_id))
        } else if !rows_fit(e.deliveries) {
            Err(corrupt_attempts())
        } else {
            Ok((true, e.deliveries))
        }
    } else {
        Ok((false, pending_rows(sorted_of(t.to_set()))))
    }
}

/// The ledger after `record`: a new checkpoint is appended, anything else leaves it unchanged.
pub open spec fn ledger_after_record(
    l: Seq<EntryView>,
    c: CheckpointView,
    t: Seq<Seq<char>>,
    timestamp_ok: bool,
) -> Seq<EntryView> {
    match record_spec(l, c, t, timestamp_ok) {
        Ok((false, rows)) => l.push(EntryView { checkpoint: c, deliveries: rows }),
        _ => l,
    }
}


/// A delivery that `sync_pending` attempts: pending, or failed on its latest attempt.
pub open spec fn retryable(s: DeliveryStatus) -> bool {
    s == DeliveryStatus::Pending || s == DeliveryStatus::Failed
}

/// A projector message as stored: control characters other than line feed and tab removed,
/// then at most `MAX_DELIVERY_MESSAGE` characters kept.
pub open spec fn stored_message(m: Seq<char>) -> Seq<char> {
    prefix_at_most(kept_chars(m), MAX_DELIVERY_MESSAGE as nat)
}

/// A row after one projection attempt with the given outcome.
pub open spec fn row_after(r: RowView, o: OutcomeView) -> RowView {
    RowView {
        destination_id: r.destination_id,
        status: match o {
            OutcomeView::Synced => DeliveryStatus::Synced,
            OutcomeView::Conflict(_) => DeliveryStatus::Conflict,
            OutcomeView::Failed(_) => DeliveryStatus::Failed,
        },
        attempts: if r.attempts < u64::MAX {
            (r.attempts + 1) as u64
        } else {
            r.attempts
        },
        last_error: match o {
            OutcomeView::Synced => None,
            OutcomeView::Conflict(m) => Some(stored_message(m)),
            OutcomeView::Failed(m) => Some(stored_message(m)),
        },
    }
}

/// Rows after one pass: each retryable row takes the outcome at its position, the others stay.
pub open spec fn rows_after(rows: Seq<RowView>, os: Seq<OutcomeView>) -> Seq<RowView> {
    Seq::new(
        rows.len(),
        |j: int|
            if retryable(rows[j].status) {
                row_after(rows[j], os[j])
            } else {
                rows[j]
            },
    )
}

/// The ledger after one delivery pass in which row `j` of entry `i` got outcome `outs[i][j]`.
pub open spec fn ledger_after_sync(l: Seq<EntryView>, outs: Seq<Seq<OutcomeView>>) -> Seq<
    EntryView,
> {
    Seq::new(
        l.len(),
        |i: int| EntryView { checkpoint: l[i].checkpoint, deliveries: rows_after(l[i].deliveries, outs[i]) },
    )
}

/// Outcome classes counted by a summary: 0 any, 1 synced, 2 conflict, 3 failed.
pub open spec fn outcome_kind(o: OutcomeView, kind: int) -> bool {
    ||| kind == 0
    ||| kind == 1 && o is Synced
    ||| kind == 2 && o is Conflict
    ||| kind == 3 && o is Failed
}

/// Retryable rows among the first `n` whose outcome is of the class.
pub open spec fn count_rows(rows: Seq<RowView>, os: Seq<OutcomeView>, kind: int, n: int) -> nat
    decreases n,
{
    if n <= 0 {
        0
    } else {
        count_rows(rows, os, kind, n - 1) + if retryable(rows[n - 1].status) && outcome_kind(
            os[n - 1],
            kind,
        ) {
            1nat
        } else {
            0nat
        }
    }
}

/// Retryable rows of the first `n` entries whose outcome is of the class.
pub open spec fn count_ledger(l: Seq<EntryView>, outs: Seq<Seq<OutcomeView>>, kind: int, n: int) -> nat
    decreases n,
{
    if n <= 0 {
        0
    } else {
        count_ledger(l, outs, kind, n - 1) + count_rows(
            l[n - 1].deliveries,
            outs[n - 1],
            kind,
            l[n - 1].deliveries.len() as int,
        )
    }
}

pub open spec fn saturate(n: nat) -> u32 {
    if n > u32::MAX {
        u32::MAX
    } else {
        n as u32
    }
}

/// The counts reported by a delivery pass with the given outcomes.
pub open spec fn summary_after_sync(l: Seq<EntryView>, outs: Seq<Seq<OutcomeView>>) -> SyncSummary {
    SyncSummary {
        attempted: saturate(count_ledger(l, outs, 0, l.len() as int)),
        synced: saturate(count_ledger(l, outs, 1, l.len() as int)),
        conflict: saturate(count_ledger(l, outs, 2, l.len() as int)),
        failed: saturate(count_ledger(l, outs, 3, l.len() as int)),
    }
}

/// Outcomes shaped like the ledger: one per row.
pub open spec fn outcomes_fit(l: Seq<EntryView>, outs: Seq<Seq<OutcomeView>>) -> bool {
    &&& outs.len() == l.len()
    &&& forall|i: int| 0 <= i < l.len() ==> (#[trigger] outs[i]).len() == l[i].deliveries.len()
}

/// One call of a projector during a sync: the destination and checkpoint it was given, and
/// the outcome it answered.
pub struct ProjectionCall {
    pub destination_id: Seq<char>,
    pub checkpoint: CheckpointView,
    pub outcome: OutcomeView,
}

/// The projector calls for the first `n` deliveries of one checkpoint: one per retryable
/// delivery, in order.
pub open spec fn row_calls(rows: Seq<RowView>, os: Seq<OutcomeView>, c: CheckpointView, n: int) -> Seq<
    ProjectionCall,
>
    decreases n,
{
    if n <= 0 {
        Seq::empty()
    } else if retryable(rows[n - 1].status) {
        row_calls(rows, os, c, n - 1).push(
            ProjectionCall { destination_id: rows[n - 1].destination_id, checkpoint: c, outcome: os[n - 1] },
        )
    } else {
        row_calls(rows, os, c, n - 1)
    }
}

/// The projector calls for the first `n` ledger entries, in ledger order.
pub open spec fn ledger_calls(l: Seq<EntryView>, outs: Seq<Seq<OutcomeView>>, n: int) -> Seq<ProjectionCall>
    decreases n,
{
    if n <= 0 {
        Seq::empty()
    } else {
        ledger_calls(l, outs, n - 1) + row_calls(
            l[n - 1].deliveries,
            outs[n - 1],
            l[n - 1].checkpoint,
            l[n - 1].deliveries.len() as int,
        )
    }
}

/// The projector went through `states`, one call after another, answering each call's outcome.
pub open spec fn projections<P: CheckpointProjector>(states: Seq<P>, calls: Seq<ProjectionCall>) -> bool {
    &&& states.len() == calls.len() + 1
    &&& forall|k: int|
        0 <= k < calls.len() ==> #[trigger] states[k].projects(
            calls[k].destination_id,
            calls[k].checkpoint,
            states[k + 1],
            calls[k].outcome,
        )
}

proof fn lemma_row_calls_prefix(
    rows: Seq<RowView>,
    a: Seq<OutcomeView>,
    b: Seq<OutcomeView>,
    c: CheckpointView,
    n: int,
)
    requires
        forall|k: int| 0 <= k < n ==> a[k] == b[k],
    ensures
        row_calls(rows, a, c, n) == row_calls(rows, b, c, n),
    decreases n,
{
    if n > 0 {
        lemma_row_calls_prefix(rows, a, b, c, n - 1);
    }
}

proof fn lemma_ledger_calls_prefix(l: Seq<EntryView>, a: Seq<Seq<OutcomeView>>, b: Seq<Seq<OutcomeView>>, n: int)
    requires
        forall|k: int| 0 <= k < n ==> a[k] == b[k],
    ensures
        ledger_calls(l, a, n) == ledger_calls(l, b, n),
    decreases n,
{
    if n > 0 {
        lemma_ledger_calls_prefix(l, a, b, n - 1);
    }
}

proof fn lemma_count_rows_prefix(rows: Seq<RowView>, a: Seq<OutcomeView>, b: Seq<OutcomeView>, kind: int, n: int)
    requires
        forall|k: int| 0 <= k < n ==> a[k] == b[k],
    ensures
        count_rows(rows, a, kind, n) == count_rows(rows, b, kind, n),
    decreases n,
{
    if n > 0 {
        lemma_count_rows_prefix(rows, a, b, kind, n - 1);
    }
}

proof fn lemma_count_ledger_prefix(
    l: Seq<EntryView>,
    a: Seq<Seq<OutcomeView>>,
    b: Seq<Seq<OutcomeView>>,
    kind: int,
    n: int,
)
    requires
        forall|k: int| 0 <= k < n ==> a[k] == b[k],
    ensures
        count_ledger(l, a, kind, n) == count_ledger(l, b, kind, n),
    decreases n,
{
    if n > 0 {
        lemma_count_ledger_prefix(l, a, b, kind, n - 1);
    }
}

/// A delivery pass keeps every checkpoint and every destination set, so the ledger stays
/// well formed.
pub proof fn lemma_sync_keeps_wf(l: Seq<EntryView>, outs: Seq<Seq<OutcomeView>>)
    requires
        ledger_wf(l),
    ensures
        ledger_wf(ledger_after_sync(l, outs)),
{
    let n = ledger_after_sync(l, outs);
    assert forall|i: int| 0 <= i < n.len() implies row_ids(#[trigger] n[i].deliveries) == row_ids(
        l[i].deliveries,
    ) by {
        assert(row_ids(n[i].deliveries) =~= row_ids(l[i].deliveries));
    }
    assert forall|i: int, j: int|
        0 <= i < j < n.len() implies (#[trigger] n[i]).checkpoint.checkpoint_id != (
        #[trigger] n[j]).checkpoint.checkpoint_id by {
        assert(l[i].checkpoint.checkpoint_id != l[j].checkpoint.checkpoint_id);
    }
    assert forall|i: int| 0 <= i < n.len() implies strictly_sorted(
        row_ids(#[trigger] n[i].deliveries),
    ) by {
        assert(row_ids(n[i].deliveries) == row_ids(l[i].deliveries));
        assert(strictly_sorted(row_ids(l[i].deliveries)));
    }
}


pub open spec fn bump(n: u32) -> u32 {
    if n < u32::MAX {
        (n + 1) as u32
    } else {
        n
    }
}

proof fn lemma_saturate_step(c: nat, d: nat)
    requires
        d == 0 || d == 1,
    ensures
        saturate(c + d) == if d == 1 {
            bump(saturate(c))
        } else {
            saturate(c)
        },
{
}


proof fn lemma_row_count_step(rows: Seq<RowView>, os: Seq<OutcomeView>, o: OutcomeView, j: int)
    requires
        0 <= j < rows.len(),
        os.len() == j,
    ensures
        forall|kind: int|
            #[trigger] count_rows(rows, os.push(o), kind, j + 1) == count_rows(rows, os, kind, j)
                + if retryable(rows[j].status) && outcome_kind(o, kind) {
                1nat
            } else {
                0nat
            },
{
    assert forall|kind: int|
        #[trigger] count_rows(rows, os.push(o), kind, j + 1) == count_rows(rows, os, kind, j)
            + if retryable(rows[j].status) && outcome_kind(o, kind) {
            1nat
        } else {
            0nat
        } by {
        lemma_count_rows_prefix(rows, os, os.push(o), kind, j);
    }
}

proof fn lemma_kind_step(base: nat, rows: Seq<RowView>, os: Seq<OutcomeView>, o: OutcomeView, j: int, kind: int)
    requires
        0 <= j < rows.len(),
        os.len() == j,
        retryable(rows[j].status),
    ensures
        saturate(base + count_rows(rows, os.push(o), kind, j + 1)) == if outcome_kind(o, kind) {
            bump(saturate(base + count_rows(rows, os, kind, j)))
        } else {
            saturate(base + count_rows(rows, os, kind, j))
        },
{
    lemma_row_count_step(rows, os, o, j);
    let c = base + count_rows(rows, os, kind, j);
    if outcome_kind(o, kind) {
        lemma_saturate_step(c, 1);
    } else {
        lemma_saturate_step(c, 0);
    }
}


/// When the scan meets an entry of the page whose counters do not fit, the page it would
/// complete holds that entry.
proof fn lemma_page_prefix(l: Seq<EntryView>, q: QueryView, end: int, k: int, page: Seq<int>, all: Seq<int>)
    requires
        0 <= k < end,
        all == page + newest_matching(l, q, k + 1),
        entry_matches(l[k], q),
        page.len() < q.limit,
    ensures
        ({
            let full = page_of(all, q.limit);
            full.len() > page.len() && full[page.len() as int] == k
        }),
{
    assert(newest_matching(l, q, k + 1) == seq![k] + newest_matching(l, q, k));
    assert(all[page.len() as int] == k);
}

/// The row after one projection attempt.
fn next_row(row: &DeliveryRow, outcome: &ProjectionOutcome) -> (r: DeliveryRow)
    ensures
        r@ == row_after(row@, outcome@),
{
    let attempts = if row.attempts < u64::MAX {
        row.attempts + 1
    } else {
        row.attempts
    };
    match outcome {
        ProjectionOutcome::Synced => DeliveryRow {
            destination_id: row.destination_id.clone(),
            status: DeliveryStatus::Synced,
            attempts,
            last_error: None,
        },
        ProjectionOutcome::Conflict { message } => DeliveryRow {
            destination_id: row.destination_id.clone(),
            status: DeliveryStatus::Conflict,
            attempts,
            last_error: Some(sanitize_message(message.as_str(), MAX_DELIVERY_MESSAGE)),
        },
        ProjectionOutcome::Failed { message } => DeliveryRow {
            destination_id: row.destination_id.clone(),
            status: DeliveryStatus::Failed,
            attempts,
            last_error: Some(sanitize_message(message.as_str(), MAX_DELIVERY_MESSAGE)),
        },
    }
}

/// The counts after one more attempt with this outcome.
fn tally(s: SyncSummary, outcome: &ProjectionOutcome) -> (r: SyncSummary)
    ensures
        r.attempted == bump(s.attempted),
        r.synced == if outcome_kind(outcome@, 1) {
            bump(s.synced)
        } else {
            s.synced
        },
        r.conflict == if outcome_kind(outcome@, 2) {
            bump(s.conflict)
        } else {
            s.conflict
        },
        r.failed == if outcome_kind(outcome@, 3) {
            bump(s.failed)
        } else {
            s.failed
        },
{
    let mut r = s;
    r.attempted = s.attempted.saturating_add(1);
    match outcome {
        ProjectionOutcome::Synced => {
            r.synced = s.synced.saturating_add(1);
        },
        ProjectionOutcome::Conflict { .. } => {
            r.conflict = s.conflict.saturating_add(1);
        },
        ProjectionOutcome::Failed { .. } => {
            r.failed = s.failed.saturating_add(1);
        },
    }
    r
}


/// Problem of an optional identity of 1 to 128 characters, if any.
pub open spec fn optional_id_issue(field: &'static str, o: Option<Seq<char>>) -> Option<Issue> {
    match o {
        Some(s) => text_issue(field, s, 1, 128),
        None => None,
    }
}

/// First problem of a ledger query, if any.
pub open spec fn query_issue(q: QueryView) -> Option<Issue> {
    if let Some(e) = text_issue("project_id", q.project_id, 1, 128) {
        Some(e)
    } else if let Some(e) = optional_id_issue("work_item_id", q.work_item_id) {
        Some(e)
    } else if let Some(e) = optional_id_issue("before_checkpoint_id", q.before_checkpoint_id) {
        Some(e)
    } else if q.limit < 1 || q.limit > 100 {
        Some(issue("limit", "must be from 1 through 100"))
    } else {
        None
    }
}

/// The entry belongs to the queried project and, when one is given, the queried Work item.
pub open spec fn entry_matches(e: EntryView, q: QueryView) -> bool {
    &&& e.checkpoint.project_id == q.project_id
    &&& match q.work_item_id {
        Some(w) => e.checkpoint.work_item_id == Some(w),
        None => true,
    }
}

/// Positions below `end` of the matching entries, newest first.
pub open spec fn newest_matching(l: Seq<EntryView>, q: QueryView, end: int) -> Seq<int>
    decreases end,
{
    if end <= 0 {
        Seq::empty()
    } else if entry_matches(l[end - 1], q) {
        seq![end - 1] + newest_matching(l, q, end - 1)
    } else {
        newest_matching(l, q, end - 1)
    }
}

/// Where a query starts: before its cursor entry, or at the newest entry.
pub open spec fn list_end(l: Seq<EntryView>, q: QueryView) -> int {
    match q.before_checkpoint_id {
        Some(id) => entry_index(l, id),
        None => l.len() as int,
    }
}

/// The first `limit` positions (all of them when there are fewer).
pub open spec fn page_of(all: Seq<int>, limit: u16) -> Seq<int> {
    if all.len() <= limit {
        all
    } else {
        all.take(limit as int)
    }
}

/// An entry of the page has an attempt counter that does not fit a receipt.
pub open spec fn page_corrupt(l: Seq<EntryView>, page: Seq<int>) -> bool {
    exists|k: int| 0 <= k < page.len() && !rows_fit(l[#[trigger] page[k]].deliveries)
}

/// What `list` answers: the positions of the page, newest first, and the cursor for the next
/// page, or the failure.
pub open spec fn list_spec(l: Seq<EntryView>, q: QueryView) -> Result<(Seq<int>, Option<Seq<char>>), ErrorView> {
    if let Some(e) = query_issue(q) {
        Err(ErrorView::Invalid(e))
    } else if q.before_checkpoint_id is Some && !has_checkpoint(l, q.before_checkpoint_id->0) {
        Err(ErrorView::NotFound(q.before_checkpoint_id->0))
    } else {
        let all = newest_matching(l, q, list_end(l, q));
        let page = page_of(all, q.limit);
        if page_corrupt(l, page) {
            Err(corrupt_attempts())
        } else {
            Ok(
                (
                    page,
                    if all.len() > q.limit {
                        Some(l[page.last()].checkpoint.checkpoint_id)
                    } else {
                        None
                    },
                ),
            )
        }
    }
}

pub open spec fn status_views(v: Seq<CheckpointStatus>) -> Seq<StatusView> {
    v.map_values(|s: CheckpointStatus| s@)
}

/// The statuses of the entries at the given positions.
pub open spec fn page_views(l: Seq<EntryView>, page: Seq<int>) -> Seq<StatusView> {
    page.map_values(
        |k: int| StatusView { checkpoint: l[k].checkpoint, deliveries: receipts_of(l[k].deliveries) },
    )
}


fn optional_id_check(field: &'static str, o: &Option<String>) -> (r: Result<(), CheckpointValidationError>)
    ensures
        match optional_id_issue(field, opt_view(*o)) {
            Some(i) => r matches Err(e) && e@ == i,
            None => r is Ok,
        },
{
    match o {
        Some(s) => self::types::validate_text(field, s.as_str(), 1, 128),
        None => Ok(()),
    }
}

fn validate_query(q: &CheckpointQuery) -> (r: Result<(), CheckpointValidationError>)
    ensures
        match query_issue(q@) {
            Some(i) => r matches Err(e) && e@ == i,
            None => r is Ok,
        },
{
    self::types::validate_text("project_id", q.project_id.as_str(), 1, 128)?;
    optional_id_check("work_item_id", &q.work_item_id)?;
    optional_id_check("before_checkpoint_id", &q.before_checkpoint_id)?;
    if q.limit < 1 || q.limit > 100 {
        return Err(CheckpointValidationError { field: "limit", message: "must be from 1 through 100" });
    }
    Ok(())
}

fn matches_query(e: &LedgerEntry, q: &CheckpointQuery) -> (r: bool)
    ensures
        r == entry_matches(e@, q@),
{
    if !str_eq(e.checkpoint.project_id.as_str(), q.project_id.as_str()) {
        return false;
    }
    match &q.work_item_id {
        Some(w) => match &e.checkpoint.work_item_id {
            Some(x) => str_eq(x.as_str(), w.as_str()),
            None => false,
        },
        None => true,
    }
}


/// Whether the rows' destinations are strictly ascending.
fn rows_sorted(rows: &Vec<DeliveryRow>) -> (b: bool)
    ensures
        b == strictly_sorted(row_ids(row_views(rows@))),
{
    let ghost ids = row_ids(row_views(rows@));
    let mut j: usize = 1;
    while j < rows.len()
        invariant
            1 <= j,
            ids == row_ids(row_views(rows@)),
            ids.len() == rows@.len(),
            forall|a: int, b: int| 0 <= a < b < j && b < ids.len() ==> lex_lt(#[trigger] ids[a], #[trigger] ids[b]),
        decreases rows@.len() - j,
    {
        if !str_lt(rows[j - 1].destination_id.as_str(), rows[j].destination_id.as_str()) {
            assert(!lex_lt(ids[j - 1], ids[j as int]));
            return false;
        }
        assert forall|a: int, b: int| 0 <= a < b < j + 1 && b < ids.len() implies lex_lt(#[trigger] ids[a], #[trigger] ids[b]) by {
            if b == j && a < j - 1 {
                lemma_lex_transitive(ids[a], ids[j - 1], ids[b]);
            }
        }
        j = j + 1;
    }
    true
}

/// Whether no two entries share a checkpoint identity.
fn ids_unique(entries: &Vec<LedgerEntry>) -> (b: bool)
    ensures
        b == (forall|i: int, j: int|
            0 <= i < j < entries@.len() ==> (#[trigger] entries@[i]).checkpoint@.checkpoint_id != (
            #[trigger] entries@[j]).checkpoint@.checkpoint_id),
{
    let mut j: usize = 0;
    while j < entries.len()
        invariant
            j <= entries@.len(),
            forall|a: int, b: int|
                0 <= a < b < j ==> (#[trigger] entries@[a]).checkpoint@.checkpoint_id != (
                #[trigger] entries@[b]).checkpoint@.checkpoint_id,
        decreases entries@.len() - j,
    {
        let mut i: usize = 0;
        while i < j
            invariant
                i <= j < entries@.len(),
                forall|a: int| 0 <= a < i ==> (#[trigger] entries@[a]).checkpoint@.checkpoint_id != entries@[j as int].checkpoint@.checkpoint_id,
            decreases j - i,
        {
            if str_eq(entries[i].checkpoint.checkpoint_id.as_str(), entries[j].checkpoint.checkpoint_id.as_str()) {
                return false;
            }
            i = i + 1;
        }
        j = j + 1;
    }
    true
}

/// The idempotent checkpoint ledger with independent per-destination deliveries.
pub struct ProgressRecorder {
    entries: Vec<LedgerEntry>,
}

impl View for ProgressRecorder {
    type V = Seq<EntryView>;

    closed spec fn view(&self) -> Seq<EntryView> {
        entry_views(self.entries@)
    }
}

fn find_entry(entries: &Vec<LedgerEntry>, id: &str) -> (r: Option<usize>)
    ensures
        match r {
            Some(i) => i < entries@.len() && entries@[i as int].checkpoint@.checkpoint_id == id@,
            None => !has_checkpoint(entry_views(entries@), id@),
        },
{
    let mut i: usize = 0;
    while i < entries.len()
        invariant
            i <= entries@.len(),
            forall|k: int| 0 <= k < i ==> entries@[k].checkpoint@.checkpoint_id != id@,
        decreases entries@.len() - i,
    {
        if str_eq(entries[i].checkpoint.checkpoint_id.as_str(), id) {
            return Some(i);
        }
        i = i + 1;
    }
    proof {
        let l = entry_views(entries@);
        if has_checkpoint(l, id@) {
            let k = choose|k: int| 0 <= k < l.len() && (#[trigger] l[k]).checkpoint.checkpoint_id == id@;
            assert(entries@[k].checkpoint@.checkpoint_id == id@);
        }
    }
    None
}

/// Receipts for the rows, or the corruption failure when an attempt counter exceeds `u32`.
fn receipts(rows: &Vec<DeliveryRow>) -> (r: Result<Vec<DeliveryReceipt>, ProgressError>)
    ensures
        ({
            let v = row_views(rows@);
            match r {
                Ok(d) => rows_fit(v) && receipt_views(d@) == receipts_of(v),
                Err(e) => !rows_fit(v) && e@ == corrupt_attempts(),
            }
        }),
{
    let ghost v = row_views(rows@);
    let mut out: Vec<DeliveryReceipt> = Vec::new();
    let mut i: usize = 0;
    while i < rows.len()
        invariant
            i <= rows@.len(),
            v == row_views(rows@),
            out@.len() == i,
            forall|k: int| 0 <= k < i ==> v[k].attempts <= u32::MAX,
            forall|k: int| 0 <= k < i ==> (#[trigger] out@[k])@ == receipt_of(v[k]),
        decreases rows@.len() - i,
    {
        let row = &rows[i];
        if row.attempts > 4294967295u64 {
            assert(v[i as int].attempts > u32::MAX);
            return Err(ProgressError::CorruptState { message: "delivery attempts out of range" });
        }
        out.push(
            DeliveryReceipt {
                destination_id: row.destination_id.clone(),
                status: row.status,
                attempts: row.attempts as u32,
                last_error: copy_optional(&row.last_error),
            },
        );
        i = i + 1;
    }
    assert(receipt_views(out@) =~= receipts_of(v));
    Ok(out)
}

fn validate_targets(targets: &[DeliveryTarget]) -> (r: Result<(), CheckpointValidationError>)
    ensures
        match targets_issue(target_ids(targets@)) {
            Some(i) => r matches Err(e) && e@ == i,
            None => r is Ok,
        },
{
    let ghost t = target_ids(targets@);
    let mut k: usize = 0;
    while k < targets.len()
        invariant
            k <= targets@.len(),
            t == target_ids(targets@),
            targets_issue(t) == targets_issue_from(t, k as int),
        decreases targets@.len() - k,
    {
        let id = targets[k].destination_id.as_str();
        assert(t[k as int] == id@);
        if let Err(e) = targets[k].validate() {
            return Err(e);
        }
        let mut j: usize = 0;
        while j < k
            invariant
                j <= k,
                k < targets@.len(),
                t == target_ids(targets@),
                t[k as int] == id@,
                targets_issue(t) == targets_issue_from(t, k as int),
                text_issue("destination_id", t[k as int], 1, 128) is None,
                forall|m: int| 0 <= m < j ==> t[m] != id@,
            decreases k - j,
        {
            if str_eq(targets[j].destination_id.as_str(), id) {
                assert(t.take(k as int)[j as int] == t[k as int]);
                assert(t.take(k as int).contains(t[k as int]));
                return Err(
                    CheckpointValidationError {
                        field: "destinations",
                        message: "contains duplicate destination IDs",
                    },
                );
            }
            j = j + 1;
        }
        assert(!t.take(k as int).contains(t[k as int]));
        k = k + 1;
    }
    Ok(())
}

/// Rows for the destinations: pending, never attempted.
fn fresh_rows(ids: &Vec<String>) -> (r: Vec<DeliveryRow>)
    ensures
        row_views(r@) == pending_rows(string_views(ids@)),
{
    let mut out: Vec<DeliveryRow> = Vec::new();
    let mut i: usize = 0;
    while i < ids.len()
        invariant
            i <= ids@.len(),
            out@.len() == i,
            forall|k: int|
                0 <= k < i ==> (#[trigger] out@[k])@ == pending_rows(string_views(ids@))[k],
        decreases ids@.len() - i,
    {
        out.push(
            DeliveryRow {
                destination_id: ids[i].clone(),
                status: DeliveryStatus::Pending,
                attempts: 0,
                last_error: None,
            },
        );
        i = i + 1;
    }
    assert(row_views(out@) =~= pending_rows(string_views(ids@)));
    out
}

/// Whether the rows' destinations are exactly the texts, in order.
fn rows_match(rows: &Vec<DeliveryRow>, ids: &Vec<String>) -> (r: bool)
    ensures
        r == (row_ids(row_views(rows@)) == string_views(ids@)),
{
    let ghost a = row_ids(row_views(rows@));
    let ghost b = string_views(ids@);
    if rows.len() != ids.len() {
        assert(a.len() != b.len());
        return false;
    }
    let mut i: usize = 0;
    while i < rows.len()
        invariant
            rows@.len() == ids@.len(),
            i <= rows@.len(),
            a == row_ids(row_views(rows@)),
            b == string_views(ids@),
            forall|k: int| 0 <= k < i ==> a[k] == b[k],
        decreases rows@.len() - i,
    {
        if !str_eq(rows[i].destination_id.as_str(), ids[i].as_str()) {
            assert(a[i as int] != b[i as int]);
            return false;
        }
        i = i + 1;
    }
    assert(a =~= b);
    true
}

impl ProgressRecorder {
    #[verifier::type_invariant]
    spec fn well_formed(&self) -> bool {
        ledger_wf(entry_views(self.entries@))
    }

    /// An empty recorder.
    pub fn open_in_memory() -> (r: Result<ProgressRecorder, ProgressError>)
        ensures
            r matches Ok(p) && p@ == Seq::<EntryView>::empty(),
    {
        let p = ProgressRecorder { entries: Vec::new() };
        assert(entry_views(p.entries@) =~= Seq::<EntryView>::empty());
        Ok(p)
    }


    /// Rebuild a recorder from stored entries in intake order, refusing entries that break
    /// the ledger's invariant.
    pub fn restore(entries: Vec<LedgerEntry>) -> (r: Result<ProgressRecorder, ProgressError>)
        ensures
            match r {
                Ok(p) => ledger_wf(entry_views(entries@)) && p@ == entry_views(entries@),
                Err(e) => !ledger_wf(entry_views(entries@)) && e@ == ErrorView::Corrupt(
                    "stored ledger is inconsistent"@,
                ),
            },
    {
        let ghost l = entry_views(entries@);
        if !ids_unique(&entries) {
            proof {
                let (a, b) = choose|a: int, b: int|
                    0 <= a < b < entries@.len() && !((#[trigger] entries@[a]).checkpoint@.checkpoint_id != (
                    #[trigger] entries@[b]).checkpoint@.checkpoint_id);
                assert(l[a] == entries@[a]@);
                assert(l[b] == entries@[b]@);
            }
            return Err(ProgressError::CorruptState { message: "stored ledger is inconsistent" });
        }
        let mut i: usize = 0;
        while i < entries.len()
            invariant
                i <= entries@.len(),
                l == entry_views(entries@),
                forall|k: int| 0 <= k < i ==> strictly_sorted(row_ids(#[trigger] l[k].deliveries)),
            decreases entries@.len() - i,
        {
            assert(l[i as int] == entries@[i as int]@);
            if !rows_sorted(&entries[i].deliveries) {
                assert(!strictly_sorted(row_ids(l[i as int].deliveries)));
                assert(!ledger_wf(l));
                return Err(ProgressError::CorruptState { message: "stored ledger is inconsistent" });
            }
            i = i + 1;
        }
        proof {
            assert forall|a: int, b: int| 0 <= a < b < l.len() implies (#[trigger] l[a]).checkpoint.checkpoint_id != (
            #[trigger] l[b]).checkpoint.checkpoint_id by {
                assert(l[a] == entries@[a]@);
                assert(l[b] == entries@[b]@);
            }
        }
        Ok(ProgressRecorder { entries })
    }

    /// The stored entries in intake order, for durable storage.
    pub fn entries(&self) -> (r: &Vec<LedgerEntry>)
        ensures
            entry_views(r@) == self@,
            ledger_wf(self@),
    {
        proof {
            use_type_invariant(self);
        }
        &self.entries
    }

    /// Read one immutable checkpoint and its current independent deliveries.
    pub fn status(&self, checkpoint_id: &str) -> (r: Result<CheckpointStatus, ProgressError>)
        ensures
            match status_spec(self@, checkpoint_id@) {
                Ok(v) => r matches Ok(s) && s@ == v,
                Err(e) => r matches Err(x) && x@ == e,
            },
    {
        proof {
            use_type_invariant(self);
        }
        let n = crate::text::char_len(checkpoint_id);
        if n < 1 {
            return Err(
                ProgressError::InvalidCheckpoint(
                    CheckpointValidationError {
                        field: "checkpoint_id",
                        message: "is shorter than minimum length",
                    },
                ),
            );
        }
        if n > 128 {
            return Err(
                ProgressError::InvalidCheckpoint(
                    CheckpointValidationError {
                        field: "checkpoint_id",
                        message: "exceeds maximum length",
                    },
                ),
            );
        }
        match find_entry(&self.entries, checkpoint_id) {
            None => Err(ProgressError::CheckpointNotFound { checkpoint_id: checkpoint_id.to_owned() }),
            Some(i) => {
                let entry = &self.entries[i];
                proof {
                    let l = self@;
                    assert(l[i as int] == entry@);
                    let k = entry_index(l, checkpoint_id@);
                    assert(l[k].checkpoint.checkpoint_id == checkpoint_id@);
                    assert(k == i);
                }
                let deliveries = receipts(&entry.deliveries)?;
                Ok(CheckpointStatus { checkpoint: entry.checkpoint.copy(), deliveries })
            },
        }
    }


    /// Retry every pending or failed delivery once through the supplied projector, in intake
    /// order and then destination order. Whatever the projector answers, each attempted row
    /// takes that outcome and every other row, and every checkpoint, stays as it was.
    pub fn sync_pending<P: CheckpointProjector>(&mut self, projector: &mut P) -> (r: Result<
        SyncSummary,
        ProgressError,
    >)
        ensures
            exists|outs: Seq<Seq<OutcomeView>>, states: Seq<P>|
                {
                    &&& outcomes_fit(old(self)@, outs)
                    &&& projections(states, ledger_calls(old(self)@, outs, old(self)@.len() as int))
                    &&& states[0] == *old(projector)
                    &&& states.last() == *final(projector)
                    &&& final(self)@ == ledger_after_sync(old(self)@, outs)
                    &&& r matches Ok(s) && s == summary_after_sync(old(self)@, outs)
                },
    {
        proof {
            use_type_invariant(&*self);
        }
        let ghost l = self@;
        let ghost p0 = *projector;
        let ghost mut calls: Seq<ProjectionCall> = Seq::empty();
        let ghost mut states: Seq<P> = seq![p0];
        let mut entries: Vec<LedgerEntry> = Vec::new();
        std::mem::swap(&mut entries, &mut self.entries);
        assert(entry_views(entries@) == l);
        let mut summary = SyncSummary { attempted: 0, synced: 0, conflict: 0, failed: 0 };
        let ghost mut outs: Seq<Seq<OutcomeView>> = Seq::empty();
        let mut i: usize = 0;
        while i < entries.len()
            invariant
                entries@.len() == l.len(),
                i <= l.len(),
                outs.len() == i,
                forall|k: int| 0 <= k < i ==> (#[trigger] outs[k]).len() == l[k].deliveries.len(),
                forall|k: int|
                    0 <= k < i ==> (#[trigger] entries@[k])@ == (EntryView {
                        checkpoint: l[k].checkpoint,
                        deliveries: rows_after(l[k].deliveries, outs[k]),
                    }),
                forall|k: int| i <= k < l.len() ==> (#[trigger] entries@[k])@ == l[k],
                summary.attempted == saturate(count_ledger(l, outs, 0, i as int)),
                summary.synced == saturate(count_ledger(l, outs, 1, i as int)),
                summary.conflict == saturate(count_ledger(l, outs, 2, i as int)),
                summary.failed == saturate(count_ledger(l, outs, 3, i as int)),
                calls == ledger_calls(l, outs, i as int),
                projections(states, calls),
                states[0] == p0,
                states.last() == *projector,
            decreases l.len() - i,
        {
            let ghost mut os: Seq<OutcomeView> = Seq::empty();
            let ghost start = summary;
            let ghost rows0 = l[i as int].deliveries;
            let ghost before = entries@;
            assert(entries@[i as int]@ == l[i as int]);
            let n = entries[i].deliveries.len();
            let mut j: usize = 0;
            while j < n
                invariant
                    entries@.len() == l.len(),
                    i < l.len(),
                    rows0 == l[i as int].deliveries,
                    n == rows0.len(),
                    j <= n,
                    os.len() == j,
                    before.len() == l.len(),
                    forall|k: int| 0 <= k < l.len() && k != i ==> (#[trigger] entries@[k]) == before[k],
                    forall|k: int|
                        0 <= k < i ==> (#[trigger] before[k])@ == (EntryView {
                            checkpoint: l[k].checkpoint,
                            deliveries: rows_after(l[k].deliveries, outs[k]),
                        }),
                    forall|k: int| i < k < l.len() ==> (#[trigger] before[k])@ == l[k],
                    outs.len() == i,
                    forall|k: int| 0 <= k < i ==> (#[trigger] outs[k]).len() == l[k].deliveries.len(),
                    entries@[i as int].checkpoint@ == l[i as int].checkpoint,
                    entries@[i as int]@.deliveries.len() == n,
                    forall|m: int|
                        0 <= m < j ==> entries@[i as int]@.deliveries[m] == (if retryable(
                            rows0[m].status,
                        ) {
                            row_after(rows0[m], os[m])
                        } else {
                            rows0[m]
                        }),
                    forall|m: int| j <= m < n ==> entries@[i as int]@.deliveries[m] == rows0[m],
                    summary.attempted == saturate(
                        count_ledger(l, outs, 0, i as int) + count_rows(rows0, os, 0, j as int),
                    ),
                    summary.synced == saturate(
                        count_ledger(l, outs, 1, i as int) + count_rows(rows0, os, 1, j as int),
                    ),
                    summary.conflict == saturate(
                        count_ledger(l, outs, 2, i as int) + count_rows(rows0, os, 2, j as int),
                    ),
                    summary.failed == saturate(
                        count_ledger(l, outs, 3, i as int) + count_rows(rows0, os, 3, j as int),
                    ),
                    calls == ledger_calls(l, outs, i as int) + row_calls(
                        rows0,
                        os,
                        l[i as int].checkpoint,
                        j as int,
                    ),
                    projections(states, calls),
                    states[0] == p0,
                    states.last() == *projector,
                decreases n - j,
            {
                let status = entries[i].deliveries[j].status;
                if status == DeliveryStatus::Pending || status == DeliveryStatus::Failed {
                    let target = DeliveryTarget {
                        destination_id: entries[i].deliveries[j].destination_id.clone(),
                    };
                    let ghost pre = *projector;
                    let outcome = projector.project(&target, &entries[i].checkpoint);
                    proof {
                        let call = ProjectionCall {
                            destination_id: rows0[j as int].destination_id,
                            checkpoint: l[i as int].checkpoint,
                            outcome: outcome@,
                        };
                        let calls2 = calls.push(call);
                        let states2 = states.push(*projector);
                        assert(entries@[i as int].deliveries@[j as int]@ == rows0[j as int]);
                        assert(pre.projects(call.destination_id, call.checkpoint, *projector, call.outcome));
                        assert forall|k: int| 0 <= k < calls2.len() implies #[trigger] states2[k].projects(
                            calls2[k].destination_id,
                            calls2[k].checkpoint,
                            states2[k + 1],
                            calls2[k].outcome,
                        ) by {
                            if k < calls.len() {
                                assert(states2[k] == states[k]);
                                assert(states2[k + 1] == states[k + 1]);
                                assert(calls2[k] == calls[k]);
                                assert(states[k].projects(
                                    calls[k].destination_id,
                                    calls[k].checkpoint,
                                    states[k + 1],
                                    calls[k].outcome,
                                ));
                            } else {
                                assert(states2[k] == pre);
                            }
                        }
                        calls = calls2;
                        states = states2;
                    }
                    let row = next_row(&entries[i].deliveries[j], &outcome);
                    summary = tally(summary, &outcome);
                    let ghost rv = row@;
                    let ghost ds = entries@[i as int].deliveries@;
                    assert(ds[j as int]@ == rows0[j as int]);
                    assert(forall|m: int| 0 <= m < j ==> (#[trigger] ds[m])@ == entries@[i as int]@.deliveries[m]);
                    assert(rv == row_after(rows0[j as int], outcome@));
                    entries[i].deliveries[j] = row;
                    proof {
                        assert(entries@[i as int].deliveries@ == ds.update(j as int, entries@[i as int].deliveries@[j as int]));
                        assert(entries@[i as int].deliveries@[j as int]@ == rv);
                        assert(entries@[i as int]@.deliveries[j as int] == rv);
                        let os2 = os.push(outcome@);
                        lemma_row_count_step(rows0, os, outcome@, j as int);
                        lemma_row_calls_prefix(rows0, os, os2, l[i as int].checkpoint, j as int);
                        assert(row_calls(rows0, os2, l[i as int].checkpoint, j + 1) == row_calls(
                            rows0,
                            os,
                            l[i as int].checkpoint,
                            j as int,
                        ).push(
                            ProjectionCall {
                                destination_id: rows0[j as int].destination_id,
                                checkpoint: l[i as int].checkpoint,
                                outcome: outcome@,
                            },
                        ));
                        assert(calls =~= ledger_calls(l, outs, i as int) + row_calls(
                            rows0,
                            os2,
                            l[i as int].checkpoint,
                            j + 1,
                        ));
                        lemma_saturate_step(
                            count_ledger(l, outs, 0, i as int) + count_rows(rows0, os, 0, j as int),
                            1,
                        );
                        lemma_kind_step(count_ledger(l, outs, 1, i as int), rows0, os, outcome@, j as int, 1);
                        lemma_kind_step(count_ledger(l, outs, 2, i as int), rows0, os, outcome@, j as int, 2);
                        lemma_kind_step(count_ledger(l, outs, 3, i as int), rows0, os, outcome@, j as int, 3);
                        assert(retryable(rows0[j as int].status));
                        assert(os2[j as int] == outcome@);
                        assert forall|m: int| 0 <= m < j + 1 implies entries@[i as int]@.deliveries[m] == (
                        if retryable(rows0[m].status) {
                            row_after(rows0[m], os2[m])
                        } else {
                            rows0[m]
                        }) by {
                            if m < j {
                                assert(os2[m] == os[m]);
                                assert(entries@[i as int].deliveries@[m] == ds[m]);
                                assert(ds[m]@ == (if retryable(rows0[m].status) {
                                    row_after(rows0[m], os[m])
                                } else {
                                    rows0[m]
                                }));
                            }
                        }
                        os = os2;
                    }
                } else {
                    proof {
                        let os2 = os.push(OutcomeView::Synced);
                        lemma_row_count_step(rows0, os, OutcomeView::Synced, j as int);
                        lemma_row_calls_prefix(rows0, os, os2, l[i as int].checkpoint, j as int);
                        assert(!retryable(rows0[j as int].status));
                        assert forall|m: int| 0 <= m < j + 1 implies entries@[i as int]@.deliveries[m] == (
                        if retryable(rows0[m].status) {
                            row_after(rows0[m], os2[m])
                        } else {
                            rows0[m]
                        }) by {
                            if m < j {
                                assert(os2[m] == os[m]);
                            }
                        }
                        os = os2;
                    }
                }
                j = j + 1;
            }
            proof {
                let outs2 = outs.push(os);
                assert(entries@[i as int]@.deliveries =~= rows_after(rows0, os));
                assert(outs2[i as int] == os);
                lemma_count_ledger_prefix(l, outs, outs2, 0, i as int);
                lemma_count_ledger_prefix(l, outs, outs2, 1, i as int);
                lemma_count_ledger_prefix(l, outs, outs2, 2, i as int);
                lemma_count_ledger_prefix(l, outs, outs2, 3, i as int);
                lemma_ledger_calls_prefix(l, outs, outs2, i as int);
                assert(ledger_calls(l, outs2, i + 1) == ledger_calls(l, outs, i as int) + row_calls(
                    rows0,
                    os,
                    l[i as int].checkpoint,
                    n as int,
                ));
                outs = outs2;
            }
            i = i + 1;
        }
        proof {
            assert(entry_views(entries@) =~= ledger_after_sync(l, outs));
            lemma_sync_keeps_wf(l, outs);
        }
        self.entries = entries;
        Ok(summary)
    }


    /// Read one bounded page of accepted checkpoints in newest-first intake order for one
    /// project and, optionally, one Work item, starting before the cursor checkpoint when one
    /// is given.
    pub fn list(&self, query: &CheckpointQuery) -> (r: Result<CheckpointPage, ProgressError>)
        ensures
            match list_spec(self@, query@) {
                Ok((page, cursor)) => r matches Ok(p) && status_views(p.checkpoints@) == page_views(self@, page) && opt_view(p.next_cursor) == cursor,
                Err(e) => r matches Err(x) && x@ == e,
            },
    {
        proof {
            use_type_invariant(self);
        }
        let ghost l = self@;
        let ghost q = query@;
        if let Err(e) = validate_query(query) {
            return Err(ProgressError::InvalidCheckpoint(e));
        }
        let end: usize = match &query.before_checkpoint_id {
            Some(id) => match find_entry(&self.entries, id.as_str()) {
                Some(i) => {
                    proof {
                        let m = entry_index(l, id@);
                        assert(l[i as int].checkpoint.checkpoint_id == id@);
                        assert(l[m].checkpoint.checkpoint_id == id@);
                        assert(m == i);
                    }
                    i
                },
                None => {
                    return Err(ProgressError::CheckpointNotFound { checkpoint_id: id.clone() });
                },
            },
            None => self.entries.len(),
        };
        assert(end == list_end(l, q));
        let ghost all = newest_matching(l, q, end as int);
        let limit = query.limit as usize;
        let mut out: Vec<CheckpointStatus> = Vec::new();
        let ghost mut page: Seq<int> = Seq::empty();
        let mut last: usize = 0;
        let mut more = false;
        let mut k: usize = end;
        while k > 0
            invariant_except_break
                all == page + newest_matching(l, q, k as int),
                !more,
            invariant
                l == self@,
                q == query@,
                query_issue(q) is None,
                q.before_checkpoint_id is Some ==> has_checkpoint(l, q.before_checkpoint_id->0),
                end == list_end(l, q),
                all == newest_matching(l, q, end as int),
                k <= end <= l.len(),
                1 <= limit <= 100,
                limit == q.limit,
                page.len() <= limit,
                page.len() == out@.len(),
                status_views(out@) == page_views(l, page),
                forall|m: int| 0 <= m < page.len() ==> k <= #[trigger] page[m] < end,
                forall|m: int| 0 <= m < page.len() ==> rows_fit(l[#[trigger] page[m]].deliveries),
                page.len() > 0 ==> last == page.last(),
            ensures
                more ==> all.len() > limit && all.take(limit as int) == page,
                !more ==> all == page + newest_matching(l, q, 0),
            decreases k,
        {
            k = k - 1;
            let entry = &self.entries[k];
            assert(l[k as int] == entry@);
            if matches_query(entry, query) {
                if out.len() == limit {
                    more = true;
                    proof {
                        assert(newest_matching(l, q, k + 1) == seq![k as int] + newest_matching(l, q, k as int));
                        assert(all.take(limit as int) =~= page);
                        assert(all.len() > limit);
                    }
                    break;
                }
                let deliveries = match receipts(&entry.deliveries) {
                    Ok(d) => d,
                    Err(e) => {
                        proof {
                            lemma_page_prefix(l, q, end as int, k as int, page, all);
                            let full = page_of(all, q.limit);
                            assert(!rows_fit(l[full[page.len() as int]].deliveries));
                            assert(page_corrupt(l, full));
                        }
                        return Err(e);
                    },
                };
                let st = CheckpointStatus { checkpoint: entry.checkpoint.copy(), deliveries };
                let ghost sv = st@;
                let ghost before_out = out@;
                assert(sv == (StatusView { checkpoint: l[k as int].checkpoint, deliveries: receipts_of(l[k as int].deliveries) }));
                out.push(st);
                proof {
                    assert(status_views(out@) =~= status_views(before_out).push(sv));
                    assert(newest_matching(l, q, k + 1) == seq![k as int] + newest_matching(l, q, k as int));
                    let page2 = page.push(k as int);
                    assert(all =~= page2 + newest_matching(l, q, k as int));
                    assert(status_views(out@) =~= page_views(l, page2));
                    page = page2;
                }
                last = k;
            } else {
                assert(newest_matching(l, q, k + 1) == newest_matching(l, q, k as int));
            }
        }
        proof {
            if !more {
                assert(newest_matching(l, q, 0) =~= Seq::<int>::empty());
                assert(all =~= page);
            }
            assert(page_of(all, q.limit) == page);
            assert(!page_corrupt(l, page));
        }
        let next_cursor = if more {
            Some(self.entries[last].checkpoint.checkpoint_id.clone())
        } else {
            None
        };
        Ok(CheckpointPage { checkpoints: out, next_cursor })
    }

    /// Durably record one checkpoint and initial per-destination deliveries; the timestamp is
    /// checked with chrono's RFC 3339 parser.
    pub fn record(&mut self, checkpoint: &ProgressCheckpoint, targets: &[DeliveryTarget]) -> (r:
        Result<RecordReceipt, ProgressError>)
        ensures
            ({
                let ts = rfc3339_accepts(checkpoint.recorded_at@);
                &&& final(self)@ == ledger_after_record(
                    old(self)@,
                    checkpoint@,
                    target_ids(targets@),
                    ts,
                )
                &&& match record_spec(old(self)@, checkpoint@, target_ids(targets@), ts) {
                    Ok((dup, rows)) => r matches Ok(rc) && rc.checkpoint_id@
                        == checkpoint@.checkpoint_id && rc.duplicate == dup && receipt_views(
                        rc.deliveries@,
                    ) == receipts_of(rows),
                    Err(e) => r matches Err(x) && x@ == e,
                }
            }),
    {
        let timestamp_ok = self::types::parses_as_rfc3339(checkpoint.recorded_at.as_str());
        self.record_checked(checkpoint, targets, timestamp_ok)
    }

    /// Record one checkpoint, given whether its timestamp parses as RFC 3339.
    pub fn record_checked(
        &mut self,
        checkpoint: &ProgressCheckpoint,
        targets: &[DeliveryTarget],
        timestamp_ok: bool,
    ) -> (r: Result<RecordReceipt, ProgressError>)
        ensures
            final(self)@ == ledger_after_record(
                old(self)@,
                checkpoint@,
                target_ids(targets@),
                timestamp_ok,
            ),
            match record_spec(old(self)@, checkpoint@, target_ids(targets@), timestamp_ok) {
                Ok((dup, rows)) => r matches Ok(rc) && rc.checkpoint_id@ == checkpoint@.checkpoint_id
                    && rc.duplicate == dup && receipt_views(rc.deliveries@) == receipts_of(rows),
                Err(e) => r matches Err(x) && x@ == e,
            },
    {
        proof {
            use_type_invariant(&*self);
        }
        let ghost l = self@;
        let ghost c = checkpoint@;
        let ghost t = target_ids(targets@);
        if let Err(e) = checkpoint.validate_with_timestamp(timestamp_ok) {
            return Err(ProgressError::InvalidCheckpoint(e));
        }
        if let Err(e) = validate_targets(targets) {
            return Err(ProgressError::InvalidCheckpoint(e));
        }
        let mut ids: Vec<String> = Vec::new();
        let mut k: usize = 0;
        while k < targets.len()
            invariant
                k <= targets@.len(),
                t == target_ids(targets@),
                string_views(ids@) == t.take(k as int),
            decreases targets@.len() - k,
        {
            let ghost before = ids@;
            ids.push(targets[k].destination_id.clone());
            assert(ids@ == before.push(targets@[k as int].destination_id));
            assert(t[k as int] == targets@[k as int].destination_id@);
            assert(string_views(ids@) =~= string_views(before).push(t[k as int]));
            assert(t.take(k + 1) =~= t.take(k as int).push(t[k as int]));
            k = k + 1;
        }
        assert(t.take(targets@.len() as int) =~= t);
        let wanted = canonical_set(&ids);
        let id = checkpoint.checkpoint_id.as_str();
        match find_entry(&self.entries, id) {
            Some(i) => {
                let entry = &self.entries[i];
                let ghost e = entry@;
                proof {
                    assert(l[i as int] == e);
                    let m = entry_index(l, c.checkpoint_id);
                    assert(l[m].checkpoint.checkpoint_id == c.checkpoint_id);
                    assert(m == i);
                }
                if !entry.checkpoint.same_content(checkpoint) {
                    return Err(ProgressError::CheckpointConflict { checkpoint_id: checkpoint.checkpoint_id.clone() });
                }
                let same = rows_match(&entry.deliveries, &wanted);
                proof {
                    let rid = row_ids(e.deliveries);
                    assert(strictly_sorted(rid));
                    lemma_sorted_is_sorted_of(rid);
                    if rid.to_set() == t.to_set() {
                        lemma_sorted_unique(rid, string_views(wanted@));
                    }
                }
                if !same {
                    return Err(ProgressError::DeliverySetMismatch { checkpoint_id: checkpoint.checkpoint_id.clone() });
                }
                let deliveries = receipts(&entry.deliveries)?;
                Ok(RecordReceipt { checkpoint_id: checkpoint.checkpoint_id.clone(), duplicate: true, deliveries })
            },
            None => {
                let rows = fresh_rows(&wanted);
                let ghost rv = row_views(rows@);
                proof {
                    assert(row_ids(rv) =~= string_views(wanted@));
                }
                let deliveries = match receipts(&rows) {
                    Ok(d) => d,
                    Err(e) => {
                        assert(rows_fit(rv));
                        return Err(e);
                    },
                };
                let entry = LedgerEntry { checkpoint: checkpoint.copy(), deliveries: rows };
                let ghost ev = entry@;
                proof {
                    let nl = l.push(ev);
                    assert forall|a: int, b: int|
                        0 <= a < b < nl.len() implies (#[trigger] nl[a]).checkpoint.checkpoint_id != (
                        #[trigger] nl[b]).checkpoint.checkpoint_id by {
                        if b == l.len() {
                            assert(nl[a] == l[a]);
                            assert(!has_checkpoint(l, c.checkpoint_id));
                        }
                    }
                    assert forall|a: int| 0 <= a < nl.len() implies strictly_sorted(
                        row_ids(#[trigger] nl[a].deliveries),
                    ) by {
                        if a < l.len() {
                            assert(nl[a] == l[a]);
                        }
                    }
                }
                let mut entries: Vec<LedgerEntry> = Vec::new();
                std::mem::swap(&mut entries, &mut self.entries);
                entries.push(entry);
                proof {
                    assert(entry_views(entries@) =~= l.push(ev));
                }
                self.entries = entries;
                Ok(RecordReceipt { checkpoint_id: checkpoint.checkpoint_id.clone(), duplicate: false, deliveries })
            },
        }
    }
}

} // verus!
