//! Properties of the checkpoint ledger that span several operations.

use vstd::prelude::*;

use crate::ordered::{lemma_sorted_of_seq, sorted_of};
use super::types::{CheckpointView, OutcomeView, StatusView};
use super::{
    entry_index, entry_matches, has_checkpoint, ledger_after_record, ledger_after_sync,
    ledger_wf, list_spec, newest_matching, outcomes_fit, pending_rows, receipts_of, record_spec,
    retryable, row_after, row_ids, rows_fit, status_spec, summary_after_sync, targets_issue, EntryView,
    ErrorView, RowView,
};

verus! {

proof fn lemma_pending_rows_ids(t: Seq<Seq<char>>)
    ensures
        row_ids(pending_rows(sorted_of(t.to_set()))) == sorted_of(t.to_set()),
        row_ids(pending_rows(sorted_of(t.to_set()))).to_set() == t.to_set(),
        rows_fit(pending_rows(sorted_of(t.to_set()))),
        crate::ordered::strictly_sorted(sorted_of(t.to_set())),
{
    lemma_sorted_of_seq(t);
    assert(row_ids(pending_rows(sorted_of(t.to_set()))) =~= sorted_of(t.to_set()));
}

proof fn lemma_appended_is_found(l: Seq<EntryView>, e: EntryView)
    requires
        !has_checkpoint(l, e.checkpoint.checkpoint_id),
    ensures
        has_checkpoint(l.push(e), e.checkpoint.checkpoint_id),
        entry_index(l.push(e), e.checkpoint.checkpoint_id) == l.len(),
{
    let l2 = l.push(e);
    let id = e.checkpoint.checkpoint_id;
    assert(l2[l.len() as int].checkpoint.checkpoint_id == id);
    let i = entry_index(l2, id);
    if i < l.len() {
        assert(l[i] == l2[i]);
    }
}

/// A successful record appends at most one entry and never changes an accepted one.
pub proof fn law_accepted_checkpoints_are_immutable(
    l: Seq<EntryView>,
    c: CheckpointView,
    t: Seq<Seq<char>>,
    timestamp_ok: bool,
)
    ensures
        ({
            let l2 = ledger_after_record(l, c, t, timestamp_ok);
            &&& l2.len() == l.len() || l2.len() == l.len() + 1
            &&& forall|i: int| 0 <= i < l.len() ==> #[trigger] l2[i] == l[i]
        }),
{
}

/// Retrying a successful record with the same checkpoint and destinations is a successful
/// duplicate that reports the same deliveries and leaves the ledger unchanged.
pub proof fn law_retry_is_duplicate(
    l: Seq<EntryView>,
    c: CheckpointView,
    t: Seq<Seq<char>>,
    timestamp_ok: bool,
)
    requires
        ledger_wf(l),
        record_spec(l, c, t, timestamp_ok) is Ok,
    ensures
        ({
            let l2 = ledger_after_record(l, c, t, timestamp_ok);
            let first = record_spec(l, c, t, timestamp_ok)->Ok_0;
            &&& record_spec(l2, c, t, timestamp_ok) == Ok::<(bool, Seq<RowView>), ErrorView>(
                (true, first.1),
            )
            &&& ledger_after_record(l2, c, t, timestamp_ok) == l2
        }),
{
    if !has_checkpoint(l, c.checkpoint_id) {
        let rows = pending_rows(sorted_of(t.to_set()));
        let e = EntryView { checkpoint: c, deliveries: rows };
        lemma_pending_rows_ids(t);
        lemma_appended_is_found(l, e);
    }
}

/// Presenting an accepted checkpoint identity with different content is a conflict, and the
/// ledger stays as it was.
pub proof fn law_changed_content_conflicts(
    l: Seq<EntryView>,
    c: CheckpointView,
    changed: CheckpointView,
    t: Seq<Seq<char>>,
    timestamp_ok: bool,
)
    requires
        ledger_wf(l),
        record_spec(l, c, t, timestamp_ok) is Ok,
        changed.checkpoint_id == c.checkpoint_id,
        changed != c,
        super::types::checkpoint_issue(changed, timestamp_ok) is None,
    ensures
        ({
            let l2 = ledger_after_record(l, c, t, timestamp_ok);
            &&& record_spec(l2, changed, t, timestamp_ok) == Err::<(bool, Seq<RowView>), ErrorView>(
                ErrorView::Conflict(c.checkpoint_id),
            )
            &&& ledger_after_record(l2, changed, t, timestamp_ok) == l2
        }),
{
    if !has_checkpoint(l, c.checkpoint_id) {
        let rows = pending_rows(sorted_of(t.to_set()));
        let e = EntryView { checkpoint: c, deliveries: rows };
        lemma_appended_is_found(l, e);
    }
}

/// The first successful record fixes the destination set: presenting the same checkpoint
/// with another set of destinations is a delivery-set mismatch, and the ledger stays as it
/// was.
pub proof fn law_changed_destinations_mismatch(
    l: Seq<EntryView>,
    c: CheckpointView,
    t: Seq<Seq<char>>,
    other: Seq<Seq<char>>,
    timestamp_ok: bool,
)
    requires
        ledger_wf(l),
        record_spec(l, c, t, timestamp_ok) is Ok,
        targets_issue(other) is None,
        other.to_set() != t.to_set(),
    ensures
        ({
            let l2 = ledger_after_record(l, c, t, timestamp_ok);
            &&& record_spec(l2, c, other, timestamp_ok) == Err::<(bool, Seq<RowView>), ErrorView>(
                ErrorView::Mismatch(c.checkpoint_id),
            )
            &&& ledger_after_record(l2, c, other, timestamp_ok) == l2
        }),
{
    if !has_checkpoint(l, c.checkpoint_id) {
        let rows = pending_rows(sorted_of(t.to_set()));
        let e = EntryView { checkpoint: c, deliveries: rows };
        lemma_pending_rows_ids(t);
        lemma_appended_is_found(l, e);
    }
}

/// After a successful record, reading the checkpoint answers its content and the deliveries
/// that the record reported.
pub proof fn law_read_after_record(
    l: Seq<EntryView>,
    c: CheckpointView,
    t: Seq<Seq<char>>,
    timestamp_ok: bool,
)
    requires
        ledger_wf(l),
        record_spec(l, c, t, timestamp_ok) is Ok,
    ensures
        ({
            let l2 = ledger_after_record(l, c, t, timestamp_ok);
            let first = record_spec(l, c, t, timestamp_ok)->Ok_0;
            status_spec(l2, c.checkpoint_id) == Ok::<StatusView, ErrorView>(
                StatusView { checkpoint: c, deliveries: receipts_of(first.1) },
            )
        }),
{
    if !has_checkpoint(l, c.checkpoint_id) {
        let rows = pending_rows(sorted_of(t.to_set()));
        let e = EntryView { checkpoint: c, deliveries: rows };
        lemma_pending_rows_ids(t);
        lemma_appended_is_found(l, e);
    }
}

/// A fresh checkpoint starts with one pending, never attempted delivery per destination, in
/// ascending destination order.
pub proof fn law_fresh_deliveries_are_pending(
    l: Seq<EntryView>,
    c: CheckpointView,
    t: Seq<Seq<char>>,
    timestamp_ok: bool,
)
    requires
        record_spec(l, c, t, timestamp_ok) is Ok,
        !has_checkpoint(l, c.checkpoint_id),
    ensures
        ({
            let rows = record_spec(l, c, t, timestamp_ok)->Ok_0.1;
            &&& row_ids(rows).to_set() == t.to_set()
            &&& crate::ordered::strictly_sorted(row_ids(rows))
            &&& forall|j: int|
                0 <= j < rows.len() ==> (#[trigger] rows[j]).status
                    == super::types::DeliveryStatus::Pending && rows[j].attempts == 0
                    && rows[j].last_error is None
        }),
{
    lemma_pending_rows_ids(t);
    let rows = pending_rows(sorted_of(t.to_set()));
    assert(record_spec(l, c, t, timestamp_ok) == Ok::<(bool, Seq<RowView>), ErrorView>((false, rows)));
    assert forall|j: int| 0 <= j < rows.len() implies (#[trigger] rows[j]).status
        == super::types::DeliveryStatus::Pending && rows[j].attempts == 0 && rows[j].last_error is None by {
    }
}

/// A delivery pass never changes a checkpoint, never retries a synced or conflicting delivery,
/// and gives every attempted delivery the outcome it got, one more attempt, and a stored
/// message only for a conflict or a failure.
pub proof fn law_sync_touches_only_retryable(l: Seq<EntryView>, outs: Seq<Seq<OutcomeView>>)
    requires
        outcomes_fit(l, outs),
    ensures
        ({
            let l2 = ledger_after_sync(l, outs);
            &&& l2.len() == l.len()
            &&& forall|i: int| 0 <= i < l.len() ==> (#[trigger] l2[i]).checkpoint == l[i].checkpoint
            &&& forall|i: int, j: int|
                0 <= i < l.len() && 0 <= j < l[i].deliveries.len() ==> {
                    let before = l[i].deliveries[j];
                    let after = (#[trigger] l2[i].deliveries[j]);
                    &&& after.destination_id == before.destination_id
                    &&& !retryable(before.status) ==> after == before
                    &&& retryable(before.status) ==> after == row_after(before, outs[i][j])
                }
        }),
{
}

/// After a pass in which every attempted delivery synced, a second pass attempts nothing.
pub proof fn law_synced_are_not_retried(
    l: Seq<EntryView>,
    outs: Seq<Seq<OutcomeView>>,
    next: Seq<Seq<OutcomeView>>,
)
    requires
        outcomes_fit(l, outs),
        forall|i: int, j: int|
            0 <= i < l.len() && 0 <= j < l[i].deliveries.len() && retryable(
                #[trigger] l[i].deliveries[j].status,
            ) ==> outs[i][j] is Synced,
    ensures
        summary_after_sync(ledger_after_sync(l, outs), next).attempted == 0,
{
    let l2 = ledger_after_sync(l, outs);
    assert forall|i: int, j: int| 0 <= i < l2.len() && 0 <= j < l2[i].deliveries.len() implies !retryable(
        #[trigger] l2[i].deliveries[j].status,
    ) by {
        if retryable(l[i].deliveries[j].status) {
            assert(outs[i][j] is Synced);
        }
    }
    lemma_count_zero(l2, next, l2.len() as int);
}

proof fn lemma_count_zero(l: Seq<EntryView>, outs: Seq<Seq<OutcomeView>>, n: int)
    requires
        n <= l.len(),
        forall|i: int, j: int|
            0 <= i < l.len() && 0 <= j < l[i].deliveries.len() ==> !retryable(
                #[trigger] l[i].deliveries[j].status,
            ),
    ensures
        super::count_ledger(l, outs, 0, n) == 0,
    decreases n,
{
    if n > 0 {
        lemma_count_zero(l, outs, n - 1);
        lemma_count_rows_zero(l[n - 1].deliveries, outs[n - 1], l[n - 1].deliveries.len() as int, l, n - 1);
    }
}

proof fn lemma_count_rows_zero(rows: Seq<RowView>, os: Seq<OutcomeView>, m: int, l: Seq<EntryView>, i: int)
    requires
        0 <= i < l.len(),
        rows == l[i].deliveries,
        m <= rows.len(),
        forall|i: int, j: int|
            0 <= i < l.len() && 0 <= j < l[i].deliveries.len() ==> !retryable(
                #[trigger] l[i].deliveries[j].status,
            ),
    ensures
        super::count_rows(rows, os, 0, m) == 0,
    decreases m,
{
    if m > 0 {
        assert(!retryable(l[i].deliveries[m - 1].status));
        lemma_count_rows_zero(rows, os, m - 1, l, i);
    }
}

proof fn lemma_newest_matching_shape(l: Seq<EntryView>, q: super::types::QueryView, end: int)
    requires
        end <= l.len(),
    ensures
        forall|a: int, b: int|
            0 <= a < b < newest_matching(l, q, end).len() ==> newest_matching(l, q, end)[a]
                > newest_matching(l, q, end)[b],
        forall|a: int|
            0 <= a < newest_matching(l, q, end).len() ==> 0 <= #[trigger] newest_matching(
                l,
                q,
                end,
            )[a] < end && entry_matches(l[newest_matching(l, q, end)[a]], q),
    decreases end,
{
    let s = newest_matching(l, q, end);
    if end > 0 {
        lemma_newest_matching_shape(l, q, end - 1);
        let r = newest_matching(l, q, end - 1);
        if entry_matches(l[end - 1], q) {
            assert(s == seq![end - 1] + r);
            assert forall|a: int| 0 < a < s.len() implies s[a] == r[a - 1] && s[a] < end - 1 by {
                assert(s[a] == r[a - 1]);
                assert(0 <= r[a - 1] < end - 1);
            }
            assert forall|a: int, b: int| 0 <= a < b < s.len() implies s[a] > s[b] by {
                if a > 0 {
                    assert(r[a - 1] > r[b - 1]);
                }
            }
            assert forall|a: int| 0 <= a < s.len() implies 0 <= #[trigger] s[a] < end && entry_matches(l[s[a]], q) by {
                if a > 0 {
                    assert(s[a] == r[a - 1]);
                }
            }
        } else {
            assert(s == r);
        }
    } else {
        assert(s.len() == 0);
    }
}

/// A page lists matching checkpoints only, newest first, and no more than the limit.
pub proof fn law_list_is_newest_first(l: Seq<EntryView>, q: super::types::QueryView)
    requires
        ledger_wf(l),
        list_spec(l, q) is Ok,
    ensures
        ({
            let page = list_spec(l, q)->Ok_0.0;
            &&& page.len() <= q.limit
            &&& forall|a: int, b: int| 0 <= a < b < page.len() ==> page[a] > page[b]
            &&& forall|a: int|
                0 <= a < page.len() ==> 0 <= #[trigger] page[a] < l.len() && entry_matches(
                    l[page[a]],
                    q,
                )
        }),
{
    let end = super::list_end(l, q);
    if q.before_checkpoint_id is Some {
        let id = q.before_checkpoint_id->0;
        let k = choose|k: int| 0 <= k < l.len() && (#[trigger] l[k]).checkpoint.checkpoint_id == id;
        assert(l[k].checkpoint.checkpoint_id == id);
    }
    lemma_newest_matching_shape(l, q, end);
}


/// One projection attempt records its outcome: the delivery is synced with no stored error
/// exactly when the projector answered synced; a conflict or a failure is stored with its
/// sanitized message; the destination stays and the attempt is counted.
pub proof fn law_attempt_records_its_outcome(r: RowView, o: OutcomeView)
    ensures
        ({
            let after = row_after(r, o);
            &&& after.destination_id == r.destination_id
            &&& (after.status == super::types::DeliveryStatus::Synced) <==> o is Synced
            &&& (after.status == super::types::DeliveryStatus::Conflict) <==> o is Conflict
            &&& (after.status == super::types::DeliveryStatus::Failed) <==> o is Failed
            &&& after.last_error is None <==> o is Synced
            &&& o matches OutcomeView::Conflict(m) ==> after.last_error == Some(super::stored_message(m))
            &&& o matches OutcomeView::Failed(m) ==> after.last_error == Some(super::stored_message(m))
            &&& after.attempts == if r.attempts < u64::MAX {
                (r.attempts + 1) as u64
            } else {
                r.attempts
            }
        }),
{
}

proof fn lemma_newest_matching_complete(l: Seq<EntryView>, q: super::types::QueryView, end: int, k: int)
    requires
        0 <= k < end <= l.len(),
        entry_matches(l[k], q),
    ensures
        newest_matching(l, q, end).contains(k),
    decreases end,
{
    let s = newest_matching(l, q, end);
    if k == end - 1 {
        assert(s[0] == k);
    } else {
        lemma_newest_matching_complete(l, q, end - 1, k);
        let r = newest_matching(l, q, end - 1);
        let i = choose|i: int| 0 <= i < r.len() && r[i] == k;
        if entry_matches(l[end - 1], q) {
            assert(s == seq![end - 1] + r);
            assert(s[i + 1] == k);
        } else {
            assert(s == r);
        }
    }
}

/// A page lists the queried project's checkpoints only and, when the query names a Work item,
/// only that Work item's; every such checkpoint before the cursor is on the page unless the
/// page is already full.
pub proof fn law_list_keeps_to_the_query(l: Seq<EntryView>, q: super::types::QueryView)
    requires
        ledger_wf(l),
        list_spec(l, q) is Ok,
    ensures
        ({
            let page = list_spec(l, q)->Ok_0.0;
            &&& forall|a: int|
                0 <= a < page.len() ==> {
                    let c = l[#[trigger] page[a]].checkpoint;
                    &&& c.project_id == q.project_id
                    &&& q.work_item_id matches Some(w) ==> c.work_item_id == Some(w)
                }
            &&& forall|k: int|
                0 <= k < super::list_end(l, q) && l[k].checkpoint.project_id == q.project_id && (
                q.work_item_id matches Some(w) ==> l[k].checkpoint.work_item_id == Some(w))
                    && page.len() < q.limit ==> page.contains(k)
        }),
{
    law_list_is_newest_first(l, q);
    let end = super::list_end(l, q);
    if q.before_checkpoint_id is Some {
        let id = q.before_checkpoint_id->0;
        let k = choose|k: int| 0 <= k < l.len() && (#[trigger] l[k]).checkpoint.checkpoint_id == id;
        assert(l[k].checkpoint.checkpoint_id == id);
    }
    let all = newest_matching(l, q, end);
    let page = list_spec(l, q)->Ok_0.0;
    assert forall|k: int|
        0 <= k < end && l[k].checkpoint.project_id == q.project_id && (q.work_item_id matches Some(w)
            ==> l[k].checkpoint.work_item_id == Some(w)) && page.len() < q.limit implies page.contains(k) by {
        assert(entry_matches(l[k], q));
        lemma_newest_matching_complete(l, q, end, k);
    }
}

} // verus!
