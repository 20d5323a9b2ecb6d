//! What holds of commits as a whole.
use crate::apply::{
    any_applied, apply_in_order, apply_update, committed, low_half, refusal, schema_added, snapshot_added,
};
use crate::collections::{find_first, lemma_find_first, replace_or_push};
use crate::error::ApplyErrorView;
use crate::layout::SortOrderView;
use crate::schema::SchemaView;
use crate::snapshot::{SnapshotReference, SnapshotView};
use crate::statistics::StatisticsFileView;
use crate::table_metadata::{FormatVersion, SnapshotLog, TableMetadataView};
use crate::table_update::TableUpdateView;
use vstd::prelude::*;

verus! {

/// No two items have the same key.
pub open spec fn distinct_by<A, K>(items: Seq<A>, key: spec_fn(A) -> K) -> bool {
    forall|i: int, j: int|
        #![trigger items[i], items[j]]
        0 <= i < j < items.len() ==> key(items[i]) != key(items[j])
}

impl TableMetadataView {
    /// The current snapshot, if there is one, is present.
    pub open spec fn current_snapshot_present(self) -> bool {
        match self.current_snapshot_id {
            Some(id) => self.has_snapshot(id),
            None => true,
        }
    }

    /// Each branch and tag points to a snapshot that is present.
    pub open spec fn refs_present(self) -> bool {
        forall|name: Seq<char>| #[trigger]
            self.refs.contains_key(name) ==> self.has_snapshot(self.refs[name].snapshot_id)
    }

    /// The current snapshot is the one that `main` points to; without `main` there is none.
    pub open spec fn current_is_main(self) -> bool {
        self.current_snapshot_id == if self.refs.contains_key("main"@) {
            Some(self.refs["main"@].snapshot_id)
        } else {
            None
        }
    }

    /// No id is used twice among the schemas.
    pub open spec fn schema_ids_distinct(self) -> bool {
        distinct_by(self.schemas, |s: SchemaView| s.schema_id)
    }

    /// No id is used twice among the sort orders.
    pub open spec fn sort_order_ids_distinct(self) -> bool {
        distinct_by(self.sort_orders, |o: SortOrderView| o.order_id)
    }

    /// No snapshot has two statistics files.
    pub open spec fn statistics_distinct(self) -> bool {
        distinct_by(self.statistics, |s: StatisticsFileView| s.snapshot_id)
    }

    /// The last column id is at least every field id of every schema.
    pub open spec fn columns_covered(self) -> bool {
        forall|i: int|
            0 <= i < self.schemas.len() ==> (#[trigger] self.schemas[i]).highest_field_id()
                <= self.last_column_id
    }

    /// The last sequence number is at least that of every snapshot.
    pub open spec fn sequence_covered(self) -> bool {
        forall|i: int|
            0 <= i < self.snapshots.len() ==> (#[trigger] self.snapshots[i]).sequence_number
                <= self.last_sequence_number
    }

    /// All that every commit keeps.
    pub open spec fn consistent(self) -> bool {
        &&& self.current_snapshot_present()
        &&& self.schema_ids_distinct()
        &&& self.sort_order_ids_distinct()
        &&& self.statistics_distinct()
        &&& self.columns_covered()
        &&& self.sequence_covered()
    }
}

/// Removing items keeps keys distinct.
proof fn lemma_filter_distinct<A, K>(items: Seq<A>, key: spec_fn(A) -> K, p: spec_fn(A) -> bool)
    requires
        distinct_by(items, key),
    ensures
        distinct_by(items.filter(p), key),
    decreases items.len(),
{
    reveal(Seq::filter);
    if items.len() > 0 {
        let rest = items.drop_last();
        assert(distinct_by(rest, key)) by {
            assert(forall|i: int| 0 <= i < rest.len() ==> rest[i] == #[trigger] items[i]);
        }
        lemma_filter_distinct(rest, key, p);
        let kept = rest.filter(p);
        assert forall|i: int| 0 <= i < kept.len() implies key(#[trigger] kept[i]) != key(
            items.last(),
        ) by {
            assert(kept.contains(kept[i]));
            rest.lemma_filter_contains_rev(p, kept[i]);
            let j = choose|j: int| 0 <= j < rest.len() && rest[j] == kept[i];
            assert(items[j] == kept[i]);
            assert(items[items.len() - 1] == items.last());
        }
    }
}

/// What is left after removing items was there before, and is to be kept.
pub(crate) proof fn lemma_filter_member<A>(items: Seq<A>, p: spec_fn(A) -> bool, i: int) -> (j: int)
    requires
        0 <= i < items.filter(p).len(),
    ensures
        0 <= j < items.len(),
        items[j] == items.filter(p)[i],
        p(items[j]),
{
    let kept = items.filter(p);
    assert(kept.contains(kept[i]));
    items.lemma_filter_contains_rev(p, kept[i]);
    items.lemma_filter_pred(p, i);
    choose|j: int| 0 <= j < items.len() && items[j] == kept[i]
}

/// An item that is to be kept is still there after removing others.
pub(crate) proof fn lemma_filter_kept<A>(items: Seq<A>, p: spec_fn(A) -> bool, j: int) -> (i: int)
    requires
        0 <= j < items.len(),
        p(items[j]),
    ensures
        0 <= i < items.filter(p).len(),
        items.filter(p)[i] == items[j],
{
    items.lemma_filter_contains(p, j);
    choose|i: int| 0 <= i < items.filter(p).len() && items.filter(p)[i] == items[j]
}

/// Replacing the item with the same key, or adding one with a new key, keeps keys distinct.
proof fn lemma_put_distinct<A, K>(
    items: Seq<A>,
    key: spec_fn(A) -> K,
    p: spec_fn(A) -> bool,
    item: A,
)
    requires
        distinct_by(items, key),
        forall|a: A| #[trigger] p(a) == (key(a) == key(item)),
    ensures
        distinct_by(replace_or_push(items, p, item), key),
{
    lemma_find_first(items, p);
    let put = replace_or_push(items, p, item);
    assert forall|i: int, j: int|
        #![trigger put[i], put[j]]
        0 <= i < j < put.len() implies key(put[i]) != key(put[j]) by {
        if let Some(k) = find_first(items, p) {
            assert(p(items[k]));
            if i == k {
                assert(items[j] == put[j]);
            } else if j == k {
                assert(items[i] == put[i]);
            } else {
                assert(items[i] == put[i]);
                assert(items[j] == put[j]);
            }
        } else {
            assert(!p(items[i]));
        }
    }
}

/// Each property that every commit keeps holds of `after` if it holds of `before`.
pub open spec fn keeps_each(before: TableMetadataView, after: TableMetadataView) -> bool {
    &&& before.current_snapshot_present() ==> after.current_snapshot_present()
    &&& before.schema_ids_distinct() ==> after.schema_ids_distinct()
    &&& before.sort_order_ids_distinct() ==> after.sort_order_ids_distinct()
    &&& before.statistics_distinct() ==> after.statistics_distinct()
    &&& before.columns_covered() ==> after.columns_covered()
    &&& before.sequence_covered() ==> after.sequence_covered()
}

proof fn lemma_keeps_current_snapshot(m: TableMetadataView, update: TableUpdateView, now_ms: i64)
    requires
        m.current_snapshot_present(),
        apply_update(m, update, now_ms) is Ok,
    ensures
        apply_update(m, update, now_ms)->Ok_0.current_snapshot_present(),
{
    let after = apply_update(m, update, now_ms)->Ok_0;
    if let Some(id) = after.current_snapshot_id {
        assert(m.has_snapshot(id));
        let j = choose|j: int|
            0 <= j < m.snapshots.len() && (#[trigger] m.snapshots[j]).snapshot_id == id;
        match update {
            TableUpdateView::RemoveSnapshots { snapshot_ids } => {
                let i = lemma_filter_kept(
                    m.snapshots,
                    |s: SnapshotView| !snapshot_ids.contains(s.snapshot_id),
                    j,
                );
                assert(after.snapshots[i].snapshot_id == id);
            },
            _ => {
                assert(after.snapshots[j].snapshot_id == id);
            },
        }
    }
}

proof fn lemma_keeps_schema_ids(m: TableMetadataView, update: TableUpdateView, now_ms: i64)
    requires
        m.schema_ids_distinct(),
        apply_update(m, update, now_ms) is Ok,
    ensures
        apply_update(m, update, now_ms)->Ok_0.schema_ids_distinct(),
{
    let key = |s: SchemaView| s.schema_id;
    match update {
        TableUpdateView::AddSchema { schema } => {
            lemma_put_distinct(
                m.schemas,
                key,
                |s: SchemaView| s.schema_id == schema.schema_id,
                schema,
            );
        },
        TableUpdateView::RemoveSchemas { schema_ids } => {
            lemma_filter_distinct(
                m.schemas,
                key,
                |s: SchemaView| !schema_ids.contains(s.schema_id),
            );
        },
        _ => {},
    }
}

proof fn lemma_keeps_sort_order_ids(m: TableMetadataView, update: TableUpdateView, now_ms: i64)
    requires
        m.sort_order_ids_distinct(),
        apply_update(m, update, now_ms) is Ok,
    ensures
        apply_update(m, update, now_ms)->Ok_0.sort_order_ids_distinct(),
{
    if let TableUpdateView::AddSortOrder { sort_order } = update {
        lemma_put_distinct(
            m.sort_orders,
            |o: SortOrderView| o.order_id,
            |o: SortOrderView| o.order_id == sort_order.order_id,
            sort_order,
        );
    }
}

proof fn lemma_keeps_statistics(m: TableMetadataView, update: TableUpdateView, now_ms: i64)
    requires
        m.statistics_distinct(),
        apply_update(m, update, now_ms) is Ok,
    ensures
        apply_update(m, update, now_ms)->Ok_0.statistics_distinct(),
{
    let after = apply_update(m, update, now_ms)->Ok_0;
    let key = |s: StatisticsFileView| s.snapshot_id;
    match update {
        TableUpdateView::SetStatistics { statistics } => {
            let p = |s: StatisticsFileView| s.snapshot_id != statistics.snapshot_id;
            let kept = m.statistics.filter(p);
            lemma_filter_distinct(m.statistics, key, p);
            assert forall|i: int, j: int|
                #![trigger after.statistics[i], after.statistics[j]]
                0 <= i < j < after.statistics.len() implies key(after.statistics[i]) != key(
                after.statistics[j],
            ) by {
                assert(kept[i] == after.statistics[i]);
                if j < kept.len() {
                    assert(kept[j] == after.statistics[j]);
                } else {
                    let k = lemma_filter_member(m.statistics, p, i);
                }
            }
        },
        TableUpdateView::RemoveStatistics { snapshot_id } => {
            lemma_filter_distinct(
                m.statistics,
                key,
                |s: StatisticsFileView| s.snapshot_id != snapshot_id,
            );
        },
        _ => {},
    }
}

proof fn lemma_keeps_columns_covered(m: TableMetadataView, update: TableUpdateView, now_ms: i64)
    requires
        m.columns_covered(),
        apply_update(m, update, now_ms) is Ok,
    ensures
        apply_update(m, update, now_ms)->Ok_0.columns_covered(),
{
    let after = apply_update(m, update, now_ms)->Ok_0;
    match update {
        TableUpdateView::AddSchema { schema } => {
            lemma_find_first(m.schemas, |s: SchemaView| s.schema_id == schema.schema_id);
            assert forall|i: int| 0 <= i < after.schemas.len() implies (
            #[trigger] after.schemas[i]).highest_field_id() <= after.last_column_id by {
                if after.schemas[i] != schema {
                    assert(after.schemas[i] == m.schemas[i]);
                }
            }
        },
        TableUpdateView::RemoveSchemas { schema_ids } => {
            let p = |s: SchemaView| !schema_ids.contains(s.schema_id);
            assert forall|i: int| 0 <= i < after.schemas.len() implies (
            #[trigger] after.schemas[i]).highest_field_id() <= after.last_column_id by {
                let j = lemma_filter_member(m.schemas, p, i);
            }
        },
        _ => {},
    }
}

proof fn lemma_keeps_sequence_covered(m: TableMetadataView, update: TableUpdateView, now_ms: i64)
    requires
        m.sequence_covered(),
        apply_update(m, update, now_ms) is Ok,
    ensures
        apply_update(m, update, now_ms)->Ok_0.sequence_covered(),
{
    let after = apply_update(m, update, now_ms)->Ok_0;
    match update {
        TableUpdateView::RemoveSnapshots { snapshot_ids } => {
            let p = |s: SnapshotView| !snapshot_ids.contains(s.snapshot_id);
            assert forall|i: int| 0 <= i < after.snapshots.len() implies (
            #[trigger] after.snapshots[i]).sequence_number <= after.last_sequence_number by {
                let j = lemma_filter_member(m.snapshots, p, i);
            }
        },
        TableUpdateView::AddSnapshot { snapshot } => {
            assert forall|i: int| 0 <= i < after.snapshots.len() implies (
            #[trigger] after.snapshots[i]).sequence_number <= after.last_sequence_number by {
                if i < m.snapshots.len() {
                    assert(after.snapshots[i] == m.snapshots[i]);
                }
            }
        },
        _ => {},
    }
}

/// Every applied update keeps, each by itself: that the current snapshot is present, that ids are
/// distinct among the schemas, among the sort orders and among the statistics files, that the last
/// column id covers the schemas, and that the last sequence number covers the snapshots.
pub proof fn update_keeps_each(m: TableMetadataView, update: TableUpdateView, now_ms: i64)
    requires
        apply_update(m, update, now_ms) is Ok,
    ensures
        keeps_each(m, apply_update(m, update, now_ms)->Ok_0),
{
    if m.current_snapshot_present() {
        lemma_keeps_current_snapshot(m, update, now_ms);
    }
    if m.schema_ids_distinct() {
        lemma_keeps_schema_ids(m, update, now_ms);
    }
    if m.sort_order_ids_distinct() {
        lemma_keeps_sort_order_ids(m, update, now_ms);
    }
    if m.statistics_distinct() {
        lemma_keeps_statistics(m, update, now_ms);
    }
    if m.columns_covered() {
        lemma_keeps_columns_covered(m, update, now_ms);
    }
    if m.sequence_covered() {
        lemma_keeps_sequence_covered(m, update, now_ms);
    }
}

proof fn lemma_run_keeps_each(m: TableMetadataView, updates: Seq<TableUpdateView>, now_ms: i64)
    ensures
        keeps_each(m, apply_in_order(m, updates, now_ms).0),
    decreases updates.len(),
{
    if updates.len() > 0 {
        lemma_run_keeps_each(m, updates.drop_last(), now_ms);
        let (before, refused) = apply_in_order(m, updates.drop_last(), now_ms);
        if refused is None && apply_update(before, updates.last(), now_ms) is Ok {
            update_keeps_each(before, updates.last(), now_ms);
        }
    }
}

/// Every commit, also one that fails on the way, keeps each by itself what every applied update
/// keeps.
pub proof fn commit_keeps_each(m: TableMetadataView, updates: Seq<TableUpdateView>, now_ms: i64)
    ensures
        keeps_each(m, committed(m, updates, now_ms)),
{
    lemma_run_keeps_each(m, updates, now_ms);
    let after = apply_in_order(m, updates, now_ms).0;
    let done = committed(m, updates, now_ms);
    if after.current_snapshot_present() {
        if let Some(id) = done.current_snapshot_id {
            let j = choose|j: int|
                0 <= j < after.snapshots.len() && (#[trigger] after.snapshots[j]).snapshot_id == id;
            assert(done.snapshots[j].snapshot_id == id);
        }
    }
}

/// Every commit keeps the metadata consistent, also one that fails on the way.
pub proof fn commit_keeps_consistent(
    m: TableMetadataView,
    updates: Seq<TableUpdateView>,
    now_ms: i64,
)
    requires
        m.consistent(),
    ensures
        committed(m, updates, now_ms).consistent(),
{
    commit_keeps_each(m, updates, now_ms);
}

/// No update, applied or refused, touches the time of the last update, the last partition id or
/// the log of earlier documents; one that is refused changes nothing.
pub proof fn update_leaves_time_and_document_log(
    m: TableMetadataView,
    update: TableUpdateView,
    now_ms: i64,
)
    ensures
        apply_update(m, update, now_ms) matches Ok(after) ==> {
            &&& after.last_updated_ms == m.last_updated_ms
            &&& after.last_partition_id == m.last_partition_id
            &&& after.metadata_log == m.metadata_log
        },
        apply_update(m, update, now_ms) matches Err(error) ==> {
            &&& committed(m, seq![update], now_ms) == m
            &&& refusal(m, seq![update], now_ms) == Some(error)
        },
{
    lemma_run_single(m, update, now_ms);
}

/// What never goes back from one metadata document to a later one: the last sequence number, the
/// last column id, the row-id counter, and the log of current snapshots, which only grows.
pub open spec fn moved_forward(before: TableMetadataView, after: TableMetadataView) -> bool {
    &&& before.last_sequence_number <= after.last_sequence_number
    &&& before.last_column_id <= after.last_column_id
    &&& (before.next_row_id matches Some(n) ==> (after.next_row_id matches Some(k) && n <= k))
    &&& before.snapshot_log.is_prefix_of(after.snapshot_log)
}

/// No commit takes back what only moves forward, also one that fails on the way.
pub proof fn commit_moves_forward(
    m: TableMetadataView,
    updates: Seq<TableUpdateView>,
    now_ms: i64,
)
    ensures
        moved_forward(m, committed(m, updates, now_ms)),
{
    lemma_run_moves_forward(m, updates, now_ms);
}

proof fn lemma_run_moves_forward(
    m: TableMetadataView,
    updates: Seq<TableUpdateView>,
    now_ms: i64,
)
    ensures
        moved_forward(m, apply_in_order(m, updates, now_ms).0),
    decreases updates.len(),
{
    if updates.len() > 0 {
        lemma_run_moves_forward(m, updates.drop_last(), now_ms);
        let (before, refused) = apply_in_order(m, updates.drop_last(), now_ms);
        if refused is None && apply_update(before, updates.last(), now_ms) is Ok {
            let after = apply_update(before, updates.last(), now_ms)->Ok_0;
            assert(moved_forward(before, after));
            assert(m.snapshot_log.is_prefix_of(after.snapshot_log));
        }
    }
}

/// Whether `n` is the sequence number of a snapshot that some update adds.
pub open spec fn adds_sequence_number(updates: Seq<TableUpdateView>, n: i64) -> bool {
    exists|i: int|
        0 <= i < updates.len() && (#[trigger] updates[i] matches TableUpdateView::AddSnapshot {
            snapshot,
        } && snapshot.sequence_number == n)
}

/// Whether `id` is the highest field id of a schema that some update adds.
pub open spec fn adds_column_id(updates: Seq<TableUpdateView>, id: i32) -> bool {
    exists|i: int|
        0 <= i < updates.len() && (#[trigger] updates[i] matches TableUpdateView::AddSchema {
            schema,
        } && schema.highest_field_id() == id)
}

/// The log entries of the moves of `main`, in order.
pub open spec fn main_moves(updates: Seq<TableUpdateView>, now_ms: i64) -> Seq<SnapshotLog>
    decreases updates.len(),
{
    if updates.len() == 0 {
        Seq::empty()
    } else {
        let earlier = main_moves(updates.drop_last(), now_ms);
        match updates.last() {
            TableUpdateView::SetSnapshotRef { ref_name, reference } => if ref_name == "main"@ {
                earlier.push(
                    SnapshotLog { timestamp_ms: now_ms, snapshot_id: reference.snapshot_id },
                )
            } else {
                earlier
            },
            _ => earlier,
        }
    }
}

/// The format version after some updates.
pub open spec fn version_after(version: FormatVersion, updates: Seq<TableUpdateView>) -> FormatVersion
    decreases updates.len(),
{
    if updates.len() == 0 {
        version
    } else {
        match updates.last() {
            TableUpdateView::UpgradeFormatVersion { format_version } => format_version,
            _ => version_after(version, updates.drop_last()),
        }
    }
}

/// How many rows some updates add while the table counts rows, and `None` where no update says a
/// number of rows then. A table counts rows while its format version is 3.
pub open spec fn rows_counted(version: FormatVersion, updates: Seq<TableUpdateView>) -> Option<nat>
    decreases updates.len(),
{
    if updates.len() == 0 {
        None
    } else {
        let earlier = rows_counted(version, updates.drop_last());
        match updates.last() {
            TableUpdateView::AddSnapshot { snapshot } => match snapshot.added_rows {
                Some(rows) => if version_after(version, updates.drop_last()) == FormatVersion::V3 {
                    match earlier {
                        Some(n) => Some(n + rows as nat),
                        None => Some(rows as nat),
                    }
                } else {
                    earlier
                },
                None => earlier,
            },
            _ => earlier,
        }
    }
}

/// The row-id counter after `rows` more rows, where any are counted. It starts at zero and stays
/// at its greatest value once it has reached it.
pub open spec fn row_id_after(next: Option<u64>, rows: Option<nat>) -> Option<u64> {
    match rows {
        Some(n) => {
            let start: nat = match next {
                Some(k) => k as nat,
                None => 0,
            };
            Some(
                if start + n > u64::MAX {
                    u64::MAX
                } else {
                    (start + n) as u64
                },
            )
        },
        None => next,
    }
}

/// How the counters and the log of current snapshots end after `updates`: the last sequence number
/// and the last column id at the greatest of their old values and those added, the row-id counter
/// ahead by the rows counted, and the log longer by one entry for each move of `main`, in order.
pub open spec fn counted_exactly(
    before: TableMetadataView,
    after: TableMetadataView,
    updates: Seq<TableUpdateView>,
    now_ms: i64,
) -> bool {
    &&& before.last_sequence_number <= after.last_sequence_number
    &&& forall|n: i64| #[trigger]
        adds_sequence_number(updates, n) ==> n <= after.last_sequence_number
    &&& after.last_sequence_number == before.last_sequence_number || adds_sequence_number(
        updates,
        after.last_sequence_number,
    )
    &&& before.last_column_id <= after.last_column_id
    &&& forall|id: i32| #[trigger] adds_column_id(updates, id) ==> id <= after.last_column_id
    &&& after.last_column_id == before.last_column_id || adds_column_id(
        updates,
        after.last_column_id,
    )
    &&& after.format_version == version_after(before.format_version, updates)
    &&& after.next_row_id == row_id_after(
        before.next_row_id,
        rows_counted(before.format_version, updates),
    )
    &&& after.snapshot_log == before.snapshot_log + main_moves(updates, now_ms)
}

/// A successful commit moves the counters and the log exactly by what its updates add.
pub proof fn successful_commit_counts_exactly(
    m: TableMetadataView,
    updates: Seq<TableUpdateView>,
    now_ms: i64,
)
    requires
        refusal(m, updates, now_ms) is None,
    ensures
        counted_exactly(m, committed(m, updates, now_ms), updates, now_ms),
{
    lemma_run_counts_exactly(m, updates, now_ms);
}

/// A failed commit moves the counters and the log exactly by what the updates before the first
/// refused one add.
pub proof fn failed_commit_counts_exactly(
    m: TableMetadataView,
    updates: Seq<TableUpdateView>,
    now_ms: i64,
)
    requires
        refusal(m, updates, now_ms) is Some,
    ensures
        exists|k: int|
            0 <= k < updates.len() && #[trigger] refused_at(m, updates, now_ms, k)
                && counted_exactly(m, committed(m, updates, now_ms), updates.take(k), now_ms),
{
    failed_commit_stops_at_first_refusal(m, updates, now_ms);
    let k = choose|k: int|
        0 <= k < updates.len() && #[trigger] refused_at(m, updates, now_ms, k) && committed(
            m,
            updates,
            now_ms,
        ) == committed(m, updates.take(k), now_ms);
    successful_commit_counts_exactly(m, updates.take(k), now_ms);
}

/// One more update adds its own sequence number and column id, and what the earlier ones add.
proof fn lemma_adds_step(updates: Seq<TableUpdateView>)
    requires
        updates.len() > 0,
    ensures
        forall|n: i64| #[trigger]
            adds_sequence_number(updates, n) <==> adds_sequence_number(updates.drop_last(), n) || (
            updates.last() matches TableUpdateView::AddSnapshot { snapshot }
                && snapshot.sequence_number == n),
        forall|id: i32| #[trigger]
            adds_column_id(updates, id) <==> adds_column_id(updates.drop_last(), id) || (
            updates.last() matches TableUpdateView::AddSchema { schema }
                && schema.highest_field_id() == id),
{
    let rest = updates.drop_last();
    assert(forall|i: int| 0 <= i < rest.len() ==> rest[i] == #[trigger] updates[i]);
    assert(updates[updates.len() - 1] == updates.last());
    assert forall|n: i64| adds_sequence_number(rest, n) implies #[trigger] adds_sequence_number(
        updates,
        n,
    ) by {
        let i = choose|i: int|
            0 <= i < rest.len() && (#[trigger] rest[i] matches TableUpdateView::AddSnapshot {
                snapshot,
            } && snapshot.sequence_number == n);
        assert(updates[i] == rest[i]);
    }
    assert forall|n: i64| #[trigger]
        adds_sequence_number(updates, n) implies adds_sequence_number(rest, n) || (
    updates.last() matches TableUpdateView::AddSnapshot { snapshot } && snapshot.sequence_number
        == n) by {
        let i = choose|i: int|
            0 <= i < updates.len() && (#[trigger] updates[i] matches TableUpdateView::AddSnapshot {
                snapshot,
            } && snapshot.sequence_number == n);
        if i < rest.len() {
            assert(rest[i] == updates[i]);
        }
    }
    assert forall|id: i32| adds_column_id(rest, id) implies #[trigger] adds_column_id(
        updates,
        id,
    ) by {
        let i = choose|i: int|
            0 <= i < rest.len() && (#[trigger] rest[i] matches TableUpdateView::AddSchema { schema }
                && schema.highest_field_id() == id);
        assert(updates[i] == rest[i]);
    }
    assert forall|id: i32| #[trigger] adds_column_id(updates, id) implies adds_column_id(rest, id)
        || (updates.last() matches TableUpdateView::AddSchema { schema }
        && schema.highest_field_id() == id) by {
        let i = choose|i: int|
            0 <= i < updates.len() && (#[trigger] updates[i] matches TableUpdateView::AddSchema {
                schema,
            } && schema.highest_field_id() == id);
        if i < rest.len() {
            assert(rest[i] == updates[i]);
        }
    }
}

proof fn lemma_run_counts_exactly(m: TableMetadataView, updates: Seq<TableUpdateView>, now_ms: i64)
    requires
        refusal(m, updates, now_ms) is None,
    ensures
        counted_exactly(m, apply_in_order(m, updates, now_ms).0, updates, now_ms),
    decreases updates.len(),
{
    if updates.len() == 0 {
        assert(m.snapshot_log + main_moves(updates, now_ms) =~= m.snapshot_log);
    } else {
        let rest = updates.drop_last();
        let before = apply_in_order(m, rest, now_ms).0;
        let after = apply_in_order(m, updates, now_ms).0;
        lemma_run_counts_exactly(m, rest, now_ms);
        lemma_adds_step(updates);
        assert(after.snapshot_log =~= m.snapshot_log + main_moves(updates, now_ms));
        match updates.last() {
            TableUpdateView::AddSnapshot { snapshot } => {
                assert(adds_sequence_number(updates, snapshot.sequence_number));
            },
            TableUpdateView::AddSchema { schema } => {
                assert(adds_column_id(updates, schema.highest_field_id()));
            },
            _ => {},
        }
        assert(after.last_sequence_number == m.last_sequence_number || adds_sequence_number(
            updates,
            after.last_sequence_number,
        ));
        assert(after.last_column_id == m.last_column_id || adds_column_id(
            updates,
            after.last_column_id,
        ));
    }
}

/// A commit without updates changes nothing and succeeds.
pub proof fn commit_of_nothing(m: TableMetadataView, now_ms: i64)
    ensures
        committed(m, Seq::empty(), now_ms) == m,
        refusal(m, Seq::empty(), now_ms) is None,
{
}

/// The time of the last update is that of the commit if any update is applied, also where a later
/// one is refused, and stays as it was otherwise.
pub proof fn commit_time(m: TableMetadataView, updates: Seq<TableUpdateView>, now_ms: i64)
    ensures
        committed(m, updates, now_ms).last_updated_ms == if any_applied(m, updates, now_ms) {
            now_ms
        } else {
            m.last_updated_ms
        },
        updates.len() > 0 && refusal(m, updates, now_ms) is None ==> any_applied(
            m,
            updates,
            now_ms,
        ),
        !any_applied(m, updates, now_ms) ==> committed(m, updates, now_ms) == m,
{
    lemma_run_keeps_time(m, updates, now_ms);
    lemma_first_refused(m, updates, now_ms);
}

/// Where the first update is refused, the run ends there.
proof fn lemma_first_refused(m: TableMetadataView, updates: Seq<TableUpdateView>, now_ms: i64)
    ensures
        updates.len() > 0 ==> (apply_update(m, updates[0], now_ms) matches Err(error)
            ==> apply_in_order(m, updates, now_ms) == (m, Some(error))),
    decreases updates.len(),
{
    if updates.len() > 1 {
        lemma_first_refused(m, updates.drop_last(), now_ms);
        assert(updates.drop_last()[0] == updates[0]);
    } else if updates.len() == 1 {
        assert(apply_in_order(m, updates.drop_last(), now_ms) == (m, None::<ApplyErrorView>));
    }
}

proof fn lemma_run_keeps_time(m: TableMetadataView, updates: Seq<TableUpdateView>, now_ms: i64)
    ensures
        apply_in_order(m, updates, now_ms).0.last_updated_ms == m.last_updated_ms,
    decreases updates.len(),
{
    if updates.len() > 0 {
        lemma_run_keeps_time(m, updates.drop_last(), now_ms);
    }
}

/// A commit that fails does what a commit of the updates before the first refused one does, and
/// fails with the error of that one.
pub proof fn failed_commit_stops_at_first_refusal(
    m: TableMetadataView,
    updates: Seq<TableUpdateView>,
    now_ms: i64,
)
    requires
        refusal(m, updates, now_ms) is Some,
    ensures
        exists|k: int|
            0 <= k < updates.len() && #[trigger] refused_at(m, updates, now_ms, k)
                && committed(m, updates, now_ms) == committed(m, updates.take(k), now_ms),
    decreases updates.len(),
{
    let rest = updates.drop_last();
    if refusal(m, rest, now_ms) is Some {
        failed_commit_stops_at_first_refusal(m, rest, now_ms);
        let k = choose|k: int|
            0 <= k < rest.len() && #[trigger] refused_at(m, rest, now_ms, k) && committed(
                m,
                rest,
                now_ms,
            ) == committed(m, rest.take(k), now_ms);
        assert(rest.take(k) =~= updates.take(k));
        assert(rest[0] == updates[0]);
        assert(refused_at(m, updates, now_ms, k));
    } else {
        let k = updates.len() - 1;
        assert(updates.take(k) =~= rest);
        assert(refused_at(m, updates, now_ms, k));
        if k > 0 {
            assert(rest[0] == updates[0]);
        }
    }
}

/// The `k`-th update is the first that is refused, and the commit fails with its error.
pub open spec fn refused_at(
    m: TableMetadataView,
    updates: Seq<TableUpdateView>,
    now_ms: i64,
    k: int,
) -> bool {
    &&& refusal(m, updates.take(k), now_ms) is None
    &&& apply_update(apply_in_order(m, updates.take(k), now_ms).0, updates[k], now_ms) == Err::<
        TableMetadataView,
        ApplyErrorView,
    >(refusal(m, updates, now_ms)->0)
}

/// Applying one list of updates after another is applying both as one list.
proof fn lemma_run_concat(
    m: TableMetadataView,
    first: Seq<TableUpdateView>,
    second: Seq<TableUpdateView>,
    now_ms: i64,
)
    requires
        refusal(m, first, now_ms) is None,
    ensures
        apply_in_order(m, first + second, now_ms) == apply_in_order(
            apply_in_order(m, first, now_ms).0,
            second,
            now_ms,
        ),
    decreases second.len(),
{
    if second.len() == 0 {
        assert(first + second =~= first);
    } else {
        lemma_run_concat(m, first, second.drop_last(), now_ms);
        assert((first + second).drop_last() =~= first + second.drop_last());
        assert((first + second).last() == second.last());
    }
}

/// What an update does does not depend on the time of the last update.
proof fn lemma_update_ignores_time(
    m: TableMetadataView,
    update: TableUpdateView,
    now_ms: i64,
    time: i64,
)
    ensures
        apply_update(TableMetadataView { last_updated_ms: time, ..m }, update, now_ms)
            == match apply_update(m, update, now_ms) {
            Ok(after) => Ok(TableMetadataView { last_updated_ms: time, ..after }),
            Err(error) => Err(error),
        },
{
    let t = TableMetadataView { last_updated_ms: time, ..m };
    assert forall|id: i32| t.has_schema(id) == m.has_schema(id) by {
        if m.has_schema(id) {
            let i = choose|i: int|
                0 <= i < m.schemas.len() && (#[trigger] m.schemas[i]).schema_id == id;
            assert(t.schemas[i].schema_id == id);
        }
    }
    assert forall|id: i64| t.has_snapshot(id) == m.has_snapshot(id) by {
        if m.has_snapshot(id) {
            let i = choose|i: int|
                0 <= i < m.snapshots.len() && (#[trigger] m.snapshots[i]).snapshot_id == id;
            assert(t.snapshots[i].snapshot_id == id);
        }
    }
}

proof fn lemma_run_ignores_time(
    m: TableMetadataView,
    updates: Seq<TableUpdateView>,
    now_ms: i64,
    time: i64,
)
    ensures
        ({
            let (after, refused) = apply_in_order(m, updates, now_ms);
            apply_in_order(TableMetadataView { last_updated_ms: time, ..m }, updates, now_ms) == (
                TableMetadataView { last_updated_ms: time, ..after },
                refused,
            )
        }),
    decreases updates.len(),
{
    if updates.len() > 0 {
        lemma_run_ignores_time(m, updates.drop_last(), now_ms, time);
        let (before, refused) = apply_in_order(m, updates.drop_last(), now_ms);
        lemma_update_ignores_time(before, updates.last(), now_ms, time);
    }
}

/// Two commits at the same time, of which the first succeeds, do what one commit of the updates
/// of both does, and the second fails where and as the one commit fails.
pub proof fn commits_combine(
    m: TableMetadataView,
    first: Seq<TableUpdateView>,
    second: Seq<TableUpdateView>,
    now_ms: i64,
)
    requires
        refusal(m, first, now_ms) is None,
    ensures
        refusal(committed(m, first, now_ms), second, now_ms) == refusal(m, first + second, now_ms),
        committed(committed(m, first, now_ms), second, now_ms) == committed(
            m,
            first + second,
            now_ms,
        ),
{
    if first.len() == 0 {
        assert(first + second =~= second);
    } else {
        let after = apply_in_order(m, first, now_ms).0;
        lemma_run_concat(m, first, second, now_ms);
        lemma_first_refused(m, first, now_ms);
        lemma_run_ignores_time(after, second, now_ms, now_ms);
        assert((first + second)[0] == first[0]);
        assert(any_applied(m, first + second, now_ms));
    }
}

/// Once a list of updates is refused, further updates behind it change nothing.
pub proof fn nothing_applies_after_refusal(
    m: TableMetadataView,
    first: Seq<TableUpdateView>,
    second: Seq<TableUpdateView>,
    now_ms: i64,
)
    requires
        refusal(m, first, now_ms) is Some,
    ensures
        refusal(m, first + second, now_ms) == refusal(m, first, now_ms),
        committed(m, first + second, now_ms) == committed(m, first, now_ms),
    decreases second.len(),
{
    if second.len() == 0 {
        assert(first + second =~= first);
    } else {
        nothing_applies_after_refusal(m, first, second.drop_last(), now_ms);
        assert((first + second).drop_last() =~= first + second.drop_last());
        assert((first + second)[0] == first[0]);
        assert((first + second.drop_last())[0] == first[0]);
    }
}


/// Adding a snapshot alone is never refused. It changes the snapshots, the last sequence number,
/// the row-id counter and the time of the last update; it moves neither the current snapshot nor
/// any branch or tag, and logs nothing.
pub proof fn add_snapshot_moves_no_ref(m: TableMetadataView, snapshot: SnapshotView, now_ms: i64)
    ensures
        ({
            let updates = seq![TableUpdateView::AddSnapshot { snapshot }];
            let after = committed(m, updates, now_ms);
            &&& refusal(m, updates, now_ms) is None
            &&& after == TableMetadataView {
                last_updated_ms: now_ms,
                ..snapshot_added(m, snapshot)
            }
            &&& after.snapshots == m.snapshots.push(snapshot)
            &&& after.current_snapshot_id == m.current_snapshot_id
            &&& after.refs == m.refs
            &&& after.snapshot_log == m.snapshot_log
        }),
{
    let updates = seq![TableUpdateView::AddSnapshot { snapshot }];
    lemma_run_single(m, updates[0], now_ms);
}

/// A list of one update does what the update does.
pub(crate) proof fn lemma_run_single(m: TableMetadataView, update: TableUpdateView, now_ms: i64)
    ensures
        apply_in_order(m, seq![update], now_ms) == match apply_update(m, update, now_ms) {
            Ok(after) => (after, None::<ApplyErrorView>),
            Err(error) => (m, Some(error)),
        },
{
    assert(seq![update].drop_last() =~= Seq::<TableUpdateView>::empty());
    assert(apply_in_order(m, seq![update].drop_last(), now_ms) == (m, None::<ApplyErrorView>));
}

/// An append, which adds a snapshot and moves `main` to it in one commit, is never refused. It
/// keeps all earlier snapshots, makes the new one current, and logs it with the time of the
/// commit.
pub proof fn append_moves_main(
    m: TableMetadataView,
    snapshot: SnapshotView,
    reference: SnapshotReference,
    now_ms: i64,
)
    requires
        reference.snapshot_id == snapshot.snapshot_id,
    ensures
        ({
            let updates = seq![
                TableUpdateView::AddSnapshot { snapshot },
                TableUpdateView::SetSnapshotRef { ref_name: "main"@, reference },
            ];
            let after = committed(m, updates, now_ms);
            &&& refusal(m, updates, now_ms) is None
            &&& after == TableMetadataView {
                refs: m.refs.insert("main"@, reference),
                current_snapshot_id: Some(snapshot.snapshot_id),
                snapshot_log: m.snapshot_log.push(
                    SnapshotLog { timestamp_ms: now_ms, snapshot_id: snapshot.snapshot_id },
                ),
                last_updated_ms: now_ms,
                ..snapshot_added(m, snapshot)
            }
        }),
{
    let first = seq![TableUpdateView::AddSnapshot { snapshot }];
    let second = seq![TableUpdateView::SetSnapshotRef { ref_name: "main"@, reference }];
    let both = seq![first[0], second[0]];
    let added = snapshot_added(m, snapshot);
    assert(added.snapshots[added.snapshots.len() - 1].snapshot_id == snapshot.snapshot_id);
    assert(added.has_snapshot(reference.snapshot_id));
    lemma_run_single(m, first[0], now_ms);
    lemma_run_single(added, second[0], now_ms);
    lemma_run_concat(m, first, second, now_ms);
    assert(both =~= first + second);
}

/// A branch or tag can be set exactly to the snapshots that are present.
pub proof fn ref_needs_present_snapshot(
    m: TableMetadataView,
    ref_name: Seq<char>,
    reference: SnapshotReference,
    now_ms: i64,
)
    ensures
        apply_update(m, TableUpdateView::SetSnapshotRef { ref_name, reference }, now_ms) is Ok
            <==> m.has_snapshot(reference.snapshot_id),
{
}

/// Every update but the removal of a snapshot that a branch or tag points to keeps the branches
/// and tags on snapshots that are present.
pub proof fn update_keeps_refs_present(m: TableMetadataView, update: TableUpdateView, now_ms: i64)
    requires
        m.refs_present(),
        apply_update(m, update, now_ms) is Ok,
        update matches TableUpdateView::RemoveSnapshots { snapshot_ids } ==> forall|
            name: Seq<char>,
        | #[trigger]
            m.refs.contains_key(name) ==> !snapshot_ids.contains(m.refs[name].snapshot_id),
    ensures
        apply_update(m, update, now_ms)->Ok_0.refs_present(),
{
    let after = apply_update(m, update, now_ms)->Ok_0;
    assert forall|name: Seq<char>| #[trigger]
        after.refs.contains_key(name) implies after.has_snapshot(
        after.refs[name].snapshot_id,
    ) by {
        let id = after.refs[name].snapshot_id;
        assert(m.has_snapshot(id));
        let j = choose|j: int|
            0 <= j < m.snapshots.len() && (#[trigger] m.snapshots[j]).snapshot_id == id;
        match update {
            TableUpdateView::RemoveSnapshots { snapshot_ids } => {
                let i = lemma_filter_kept(
                    m.snapshots,
                    |s: SnapshotView| !snapshot_ids.contains(s.snapshot_id),
                    j,
                );
                assert(after.snapshots[i].snapshot_id == id);
            },
            _ => {
                assert(after.snapshots[j].snapshot_id == id);
            },
        }
    }
}

/// Every update but the removal of the current snapshot keeps the current snapshot the one that
/// `main` points to.
pub proof fn update_keeps_current_on_main(
    m: TableMetadataView,
    update: TableUpdateView,
    now_ms: i64,
)
    requires
        m.current_is_main(),
        apply_update(m, update, now_ms) is Ok,
        update matches TableUpdateView::RemoveSnapshots { snapshot_ids } ==> (
        m.current_snapshot_id matches Some(id) ==> !snapshot_ids.contains(id)),
    ensures
        apply_update(m, update, now_ms)->Ok_0.current_is_main(),
{
}

/// Every update but the removal of the current schema keeps the current schema present.
pub proof fn update_keeps_current_schema(
    m: TableMetadataView,
    update: TableUpdateView,
    now_ms: i64,
)
    requires
        m.has_schema(m.current_schema_id),
        apply_update(m, update, now_ms) is Ok,
        update matches TableUpdateView::RemoveSchemas { schema_ids } ==> !schema_ids.contains(
            m.current_schema_id,
        ),
    ensures
        apply_update(m, update, now_ms)->Ok_0.has_schema(
            apply_update(m, update, now_ms)->Ok_0.current_schema_id,
        ),
{
    let after = apply_update(m, update, now_ms)->Ok_0;
    let id = after.current_schema_id;
    let j = choose|j: int| 0 <= j < m.schemas.len() && (#[trigger] m.schemas[j]).schema_id == id;
    match update {
        TableUpdateView::AddSchema { schema } => {
            let p = |s: SchemaView| s.schema_id == schema.schema_id;
            lemma_find_first(m.schemas, p);
            assert(after.schemas[j].schema_id == id) by {
                if let Some(k) = find_first(m.schemas, p) {
                    assert(p(m.schemas[k]));
                }
            }
        },
        TableUpdateView::RemoveSchemas { schema_ids } => {
            let i = lemma_filter_kept(
                m.schemas,
                |s: SchemaView| !schema_ids.contains(s.schema_id),
                j,
            );
            assert(after.schemas[i].schema_id == id);
        },
        _ => {
            assert(after.schemas[j].schema_id == id);
        },
    }
}

/// An update is refused as not implemented exactly if it adds a partition spec.
pub proof fn only_add_spec_is_not_implemented(
    m: TableMetadataView,
    update: TableUpdateView,
    now_ms: i64,
)
    ensures
        (apply_update(m, update, now_ms) matches Err(error) && error is NotImplemented)
            <==> update is AddSpec,
{
}

/// Only adding a partition spec, choosing a current schema, choosing a default partition spec or
/// sort order, and setting a branch or tag can be refused.
pub proof fn other_updates_are_never_refused(
    m: TableMetadataView,
    update: TableUpdateView,
    now_ms: i64,
)
    requires
        !(update is AddSpec),
        !(update is SetCurrentSchema),
        !(update is SetDefaultSpec),
        !(update is SetDefaultSortOrder),
        !(update is SetSnapshotRef),
    ensures
        apply_update(m, update, now_ms) is Ok,
{
}

/// Setting properties and then removing the same names are both always applied and change nothing
/// but properties. After the first each updated one has its new value and the others keep theirs;
/// after the second exactly the others are left. Where no updated name was held before, the second
/// gives back the metadata from before the first.
pub proof fn properties_read_back(
    m: TableMetadataView,
    updates: Map<Seq<char>, Seq<char>>,
    removals: Seq<Seq<char>>,
    now_ms: i64,
)
    requires
        forall|name: Seq<char>| #[trigger] updates.contains_key(name) <==> removals.contains(name),
    ensures
        ({
            let set = TableMetadataView {
                properties: m.properties.union_prefer_right(updates),
                ..m
            };
            let removed = TableMetadataView {
                properties: m.properties.remove_keys(updates.dom()),
                ..m
            };
            &&& apply_update(m, TableUpdateView::SetProperties { updates }, now_ms) == Ok::<
                TableMetadataView,
                ApplyErrorView,
            >(set)
            &&& apply_update(set, TableUpdateView::RemoveProperties { removals }, now_ms) == Ok::<
                TableMetadataView,
                ApplyErrorView,
            >(removed)
            &&& forall|name: Seq<char>| #[trigger]
                updates.contains_key(name) ==> set.properties.contains_key(name)
                    && set.properties[name] == updates[name]
            &&& forall|name: Seq<char>| #[trigger]
                m.properties.contains_key(name) && !updates.contains_key(name)
                    ==> set.properties.contains_key(name) && set.properties[name]
                    == m.properties[name]
            &&& (forall|name: Seq<char>| #[trigger]
                updates.contains_key(name) ==> !m.properties.contains_key(name)) ==> removed == m
        }),
{
    let union = m.properties.union_prefer_right(updates);
    assert(removals.to_set() =~= updates.dom());
    assert(union.remove_keys(updates.dom()) =~= m.properties.remove_keys(updates.dom()));
    if forall|name: Seq<char>| #[trigger]
        updates.contains_key(name) ==> !m.properties.contains_key(name) {
        assert forall|name: Seq<char>| m.properties.dom().contains(name) implies !(
        #[trigger] updates.dom().contains(name)) by {
            if updates.contains_key(name) {
                assert(!m.properties.contains_key(name));
            }
        }
        assert(m.properties.remove_keys(updates.dom()) =~= m.properties);
    }
}

/// Removing a property that is not held is applied and changes nothing.
pub proof fn absent_properties_are_no_error(
    m: TableMetadataView,
    removals: Seq<Seq<char>>,
    now_ms: i64,
)
    requires
        forall|name: Seq<char>| #[trigger]
            removals.contains(name) ==> !m.properties.contains_key(name),
    ensures
        apply_update(m, TableUpdateView::RemoveProperties { removals }, now_ms) == Ok::<
            TableMetadataView,
            ApplyErrorView,
        >(m),
{
    assert(m.properties.remove_keys(removals.to_set()) =~= m.properties);
}

/// After adding a schema it is the first one with its id, every schema with another id is where
/// it was, and it can be made current.
pub proof fn added_schema_can_be_current(m: TableMetadataView, schema: SchemaView, now_ms: i64)
    requires
        schema.schema_id != -1,
    ensures
        ({
            let added = schema_added(m, schema);
            let p = |s: SchemaView| s.schema_id == schema.schema_id;
            &&& find_first(added.schemas, p) matches Some(i) && added.schemas[i] == schema
            &&& forall|i: int|
                0 <= i < m.schemas.len() && m.schemas[i].schema_id != schema.schema_id
                    ==> #[trigger] added.schemas[i] == m.schemas[i]
            &&& apply_update(
                added,
                TableUpdateView::SetCurrentSchema { schema_id: schema.schema_id },
                now_ms,
            ) == Ok::<TableMetadataView, ApplyErrorView>(
                TableMetadataView { current_schema_id: schema.schema_id, ..added },
            )
        }),
{
    let added = schema_added(m, schema);
    let p = |s: SchemaView| s.schema_id == schema.schema_id;
    lemma_find_first(m.schemas, p);
    lemma_find_first(added.schemas, p);
    let k = match find_first(m.schemas, p) {
        Some(i) => i,
        None => m.schemas.len() as int,
    };
    assert(added.schemas[k] == schema);
    assert(p(added.schemas[k]));
    assert(forall|j: int| 0 <= j < k ==> #[trigger] added.schemas[j] == m.schemas[j]);
    assert(added.has_schema(schema.schema_id));
}

/// A schema with a new id, once added, is the one that -1 stands for.
pub proof fn last_added_schema_is_minus_one(m: TableMetadataView, schema: SchemaView, now_ms: i64)
    requires
        !m.has_schema(schema.schema_id),
    ensures
        apply_update(
            schema_added(m, schema),
            TableUpdateView::SetCurrentSchema { schema_id: -1i32 },
            now_ms,
        ) == Ok::<TableMetadataView, ApplyErrorView>(
            TableMetadataView { current_schema_id: schema.schema_id, ..schema_added(m, schema) },
        ),
{
    let added = schema_added(m, schema);
    lemma_find_first(m.schemas, |s: SchemaView| s.schema_id == schema.schema_id);
    assert(added.schemas.last() == schema);
    assert(added.schemas[added.schemas.len() - 1].schema_id == schema.schema_id);
    assert(added.has_schema(schema.schema_id));
}

/// Adding the same schema again changes nothing.
pub proof fn adding_schema_twice(m: TableMetadataView, schema: SchemaView)
    ensures
        schema_added(schema_added(m, schema), schema) == schema_added(m, schema),
{
    let added = schema_added(m, schema);
    let p = |s: SchemaView| s.schema_id == schema.schema_id;
    lemma_find_first(m.schemas, p);
    lemma_find_first(added.schemas, p);
    let k = match find_first(m.schemas, p) {
        Some(i) => i,
        None => m.schemas.len() as int,
    };
    assert(added.schemas[k] == schema);
    assert(p(added.schemas[k]));
    assert(forall|j: int| 0 <= j < k ==> #[trigger] added.schemas[j] == m.schemas[j]);
    let i = find_first(added.schemas, p)->0;
    assert(i == k);
    assert(added.schemas.update(k, schema) =~= added.schemas);
}

/// After removing snapshots none of them is left, and every other one still is.
pub proof fn removed_snapshots_are_gone(
    m: TableMetadataView,
    snapshot_ids: Seq<i64>,
    id: i64,
    now_ms: i64,
)
    ensures
        apply_update(
            m,
            TableUpdateView::RemoveSnapshots { snapshot_ids },
            now_ms,
        )->Ok_0.has_snapshot(id) <==> m.has_snapshot(id) && !snapshot_ids.contains(id),
{
    let p = |s: SnapshotView| !snapshot_ids.contains(s.snapshot_id);
    let after = apply_update(
        m,
        TableUpdateView::RemoveSnapshots { snapshot_ids },
        now_ms,
    )->Ok_0;
    if after.has_snapshot(id) {
        let i = choose|i: int|
            0 <= i < after.snapshots.len() && (#[trigger] after.snapshots[i]).snapshot_id == id;
        let j = lemma_filter_member(m.snapshots, p, i);
        assert(m.snapshots[j].snapshot_id == id);
    }
    if m.has_snapshot(id) && !snapshot_ids.contains(id) {
        let j = choose|j: int|
            0 <= j < m.snapshots.len() && (#[trigger] m.snapshots[j]).snapshot_id == id;
        let i = lemma_filter_kept(m.snapshots, p, j);
        assert(after.snapshots[i].snapshot_id == id);
    }
}

/// Setting the statistics of a snapshot is always applied and changes nothing but statistics: they
/// are the last, and no others of that snapshot are left. Setting them again changes nothing, and
/// removing them afterwards leaves the statistics of the other snapshots alone.
pub proof fn statistics_are_replaced(
    m: TableMetadataView,
    statistics: StatisticsFileView,
    now_ms: i64,
)
    ensures
        ({
            let p = |s: StatisticsFileView| s.snapshot_id != statistics.snapshot_id;
            let others = m.statistics.filter(p);
            let set = TableMetadataView { statistics: others.push(statistics), ..m };
            let update = TableUpdateView::SetStatistics { statistics };
            let removal = TableUpdateView::RemoveStatistics {
                snapshot_id: statistics.snapshot_id,
            };
            &&& apply_update(m, update, now_ms) == Ok::<TableMetadataView, ApplyErrorView>(set)
            &&& apply_update(set, update, now_ms) == Ok::<TableMetadataView, ApplyErrorView>(set)
            &&& apply_update(set, removal, now_ms) == Ok::<TableMetadataView, ApplyErrorView>(
                TableMetadataView { statistics: others, ..m },
            )
            &&& forall|i: int|
                0 <= i < others.len() ==> (#[trigger] others[i]).snapshot_id
                    != statistics.snapshot_id
        }),
{
    let p = |s: StatisticsFileView| s.snapshot_id != statistics.snapshot_id;
    let others = m.statistics.filter(p);
    let listed = others.push(statistics);
    assert forall|i: int| 0 <= i < others.len() implies p(#[trigger] others[i]) by {
        let j = lemma_filter_member(m.statistics, p, i);
    }
    lemma_filter_all(others, p);
    assert(listed.drop_last() =~= others);
    assert(listed.filter(p) =~= others) by {
        reveal(Seq::filter);
    }
    let set = TableMetadataView { statistics: listed, ..m };
    assert(TableMetadataView { statistics: listed.filter(p).push(statistics), ..set } == set);
}

/// Where every item is to be kept, removing changes nothing.
proof fn lemma_filter_all<A>(items: Seq<A>, p: spec_fn(A) -> bool)
    requires
        forall|i: int| 0 <= i < items.len() ==> p(#[trigger] items[i]),
    ensures
        items.filter(p) == items,
    decreases items.len(),
{
    reveal(Seq::filter);
    if items.len() > 0 {
        let rest = items.drop_last();
        assert(forall|i: int| 0 <= i < rest.len() ==> rest[i] == #[trigger] items[i]);
        lemma_filter_all(rest, p);
        assert(items[items.len() - 1] == items.last());
        assert(rest.push(items.last()) =~= items);
    } else {
        assert(items.filter(p) =~= items);
    }
}

/// A sort order id that fits into 32 bits is kept as it is.
pub proof fn small_sort_order_ids_are_kept(id: i64)
    requires
        i32::MIN <= id <= i32::MAX,
    ensures
        low_half(id) == id,
{
}

} // verus!
