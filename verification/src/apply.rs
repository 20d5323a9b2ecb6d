//! Applying updates to the metadata of a table.
//!
//! A catalog that receives a commit evolves the current metadata document by the requested
//! updates and persists the result. Adding a partition spec needs the spec to be bound to a
//! schema; it is refused as not implemented rather than done wrongly.
use crate::collections::{lemma_find_first, position, put, replace_or_push, retain};
use crate::error::{invalid, ApplyError, ApplyErrorView};
use crate::layout::{PartitionSpec, PartitionSpecView, SortOrder, SortOrderView};
use crate::schema::{Schema, SchemaView};
use crate::snapshot::{Snapshot, SnapshotReference, SnapshotView};
use crate::statistics::{StatisticsFile, StatisticsFileView};
use crate::table_metadata::{advanced_row_id, SnapshotLog, TableMetadata, TableMetadataView};
use crate::table_update::{TableUpdate, TableUpdateView};
use crate::text::{append_decimal, decimal, same_text};
use vstd::prelude::*;

verus! {

impl TableMetadataView {
    /// Whether a schema has the given id.
    pub open spec fn has_schema(self, id: i32) -> bool {
        exists|i: int| 0 <= i < self.schemas.len() && (#[trigger] self.schemas[i]).schema_id == id
    }

    /// Whether a snapshot has the given id.
    pub open spec fn has_snapshot(self, id: i64) -> bool {
        exists|i: int|
            0 <= i < self.snapshots.len() && (#[trigger] self.snapshots[i]).snapshot_id == id
    }
}

/// The number that the low 32 bits of `n` make in two's complement.
pub open spec fn low_half(n: i64) -> i32 {
    let low = n as int % 0x1_0000_0000;
    if low < 0x8000_0000 {
        low as i32
    } else {
        (low - 0x1_0000_0000) as i32
    }
}

/// The result of applying one update: the new metadata, or why the update is refused.
pub open spec fn apply_update(m: TableMetadataView, update: TableUpdateView, now_ms: i64) -> Result<
    TableMetadataView,
    ApplyErrorView,
> {
    match update {
        TableUpdateView::SetProperties { updates } => Ok(
            TableMetadataView { properties: m.properties.union_prefer_right(updates), ..m },
        ),
        TableUpdateView::RemoveProperties { removals } => Ok(
            TableMetadataView { properties: m.properties.remove_keys(removals.to_set()), ..m },
        ),
        TableUpdateView::SetLocation { location } => Ok(TableMetadataView { location, ..m }),
        TableUpdateView::AssignUuid { uuid } => Ok(
            TableMetadataView { table_uuid: Some(uuid), ..m },
        ),
        TableUpdateView::UpgradeFormatVersion { format_version } => Ok(
            TableMetadataView { format_version, ..m },
        ),
        TableUpdateView::AddSchema { schema } => Ok(schema_added(m, schema)),
        TableUpdateView::SetCurrentSchema { schema_id } => current_schema_set(m, schema_id),
        TableUpdateView::SetDefaultSpec { spec_id } => default_spec_set(m, spec_id),
        TableUpdateView::AddSortOrder { sort_order } => Ok(sort_order_added(m, sort_order)),
        TableUpdateView::SetDefaultSortOrder { sort_order_id } => default_sort_order_set(
            m,
            sort_order_id,
        ),
        TableUpdateView::RemoveSnapshots { snapshot_ids } => Ok(
            snapshots_removed(m, snapshot_ids),
        ),
        TableUpdateView::RemoveSnapshotRef { ref_name } => Ok(
            TableMetadataView {
                refs: m.refs.remove(ref_name),
                current_snapshot_id: if ref_name == "main"@ {
                    None
                } else {
                    m.current_snapshot_id
                },
                ..m
            },
        ),
        TableUpdateView::RemovePartitionSpecs { spec_ids } => Ok(
            TableMetadataView {
                partition_specs: m.partition_specs.filter(
                    |s: PartitionSpecView| !spec_ids.contains(s.spec_id),
                ),
                ..m
            },
        ),
        TableUpdateView::RemoveSchemas { schema_ids } => Ok(
            TableMetadataView {
                schemas: m.schemas.filter(|s: SchemaView| !schema_ids.contains(s.schema_id)),
                ..m
            },
        ),
        TableUpdateView::SetStatistics { statistics } => Ok(
            TableMetadataView {
                statistics: m.statistics.filter(
                    |s: StatisticsFileView| s.snapshot_id != statistics.snapshot_id,
                ).push(statistics),
                ..m
            },
        ),
        TableUpdateView::RemoveStatistics { snapshot_id } => Ok(
            TableMetadataView {
                statistics: m.statistics.filter(
                    |s: StatisticsFileView| s.snapshot_id != snapshot_id,
                ),
                ..m
            },
        ),
        TableUpdateView::AddSnapshot { snapshot } => Ok(snapshot_added(m, snapshot)),
        TableUpdateView::SetSnapshotRef { ref_name, reference } => snapshot_ref_set(
            m,
            ref_name,
            reference,
            now_ms,
        ),
        TableUpdateView::AddSpec { .. } => Err(
            ApplyErrorView::NotImplemented(
                "TableUpdate not yet supported by apply_table_updates: "@ + kind_text(update),
            ),
        ),
    }
}

/// Adds `schema`, in place of one with the same id if there is one. The last column id grows to
/// the greatest field id of the schema.
pub open spec fn schema_added(m: TableMetadataView, schema: SchemaView) -> TableMetadataView {
    TableMetadataView {
        last_column_id: if m.last_column_id < schema.highest_field_id() {
            schema.highest_field_id()
        } else {
            m.last_column_id
        },
        schemas: replace_or_push(
            m.schemas,
            |s: SchemaView| s.schema_id == schema.schema_id,
            schema,
        ),
        ..m
    }
}

/// Makes the schema with the given id current; -1 stands for the last schema.
pub open spec fn current_schema_set(m: TableMetadataView, schema_id: i32) -> Result<
    TableMetadataView,
    ApplyErrorView,
> {
    if schema_id == -1 && m.schemas.len() == 0 {
        Err(ApplyErrorView::Plan("set-current-schema -1 with no schemas added"@))
    } else {
        let resolved = if schema_id == -1 {
            m.schemas.last().schema_id
        } else {
            schema_id
        };
        if m.has_schema(resolved) {
            Ok(TableMetadataView { current_schema_id: resolved, ..m })
        } else {
            Err(ApplyErrorView::Plan("unknown schema-id "@ + decimal(resolved as int)))
        }
    }
}

/// Makes the partition spec with the given id the default; -1 stands for the last one. Whether
/// another id belongs to a partition spec is not checked.
pub open spec fn default_spec_set(m: TableMetadataView, spec_id: i32) -> Result<
    TableMetadataView,
    ApplyErrorView,
> {
    if spec_id != -1 {
        Ok(TableMetadataView { default_spec_id: spec_id, ..m })
    } else if m.partition_specs.len() > 0 {
        Ok(TableMetadataView { default_spec_id: m.partition_specs.last().spec_id, ..m })
    } else {
        Err(ApplyErrorView::Plan("set-default-spec -1 with no specs added"@))
    }
}

/// Adds `sort_order`, in place of one with the same id if there is one.
pub open spec fn sort_order_added(
    m: TableMetadataView,
    sort_order: SortOrderView,
) -> TableMetadataView {
    TableMetadataView {
        sort_orders: replace_or_push(
            m.sort_orders,
            |o: SortOrderView| o.order_id == sort_order.order_id,
            sort_order,
        ),
        ..m
    }
}

/// Makes the sort order with the given id the default; -1 stands for the last one. Whether
/// another id belongs to a sort order is not checked. Of the id, the low 32 bits are kept.
pub open spec fn default_sort_order_set(m: TableMetadataView, sort_order_id: i64) -> Result<
    TableMetadataView,
    ApplyErrorView,
> {
    if sort_order_id != -1 {
        Ok(TableMetadataView { default_sort_order_id: Some(low_half(sort_order_id)), ..m })
    } else if m.sort_orders.len() > 0 {
        Ok(
            TableMetadataView {
                default_sort_order_id: Some(low_half(m.sort_orders.last().order_id)),
                ..m
            },
        )
    } else {
        Err(ApplyErrorView::Plan("set-default-sort-order -1 with no sort orders added"@))
    }
}

/// Removes the snapshots with the given ids. If the current snapshot is among them, the table has
/// no current snapshot any more.
pub open spec fn snapshots_removed(m: TableMetadataView, ids: Seq<i64>) -> TableMetadataView {
    TableMetadataView {
        snapshots: m.snapshots.filter(|s: SnapshotView| !ids.contains(s.snapshot_id)),
        current_snapshot_id: match m.current_snapshot_id {
            Some(current) => if ids.contains(current) {
                None
            } else {
                Some(current)
            },
            None => None,
        },
        ..m
    }
}

/// Adds `snapshot` after the others. The last sequence number grows to that of the snapshot, and
/// the row-id counter by the rows that it added.
pub open spec fn snapshot_added(m: TableMetadataView, snapshot: SnapshotView) -> TableMetadataView {
    TableMetadataView {
        last_sequence_number: if snapshot.sequence_number > m.last_sequence_number {
            snapshot.sequence_number
        } else {
            m.last_sequence_number
        },
        next_row_id: match snapshot.added_rows {
            Some(added_rows) => advanced_row_id(m.format_version, m.next_row_id, added_rows),
            None => m.next_row_id,
        },
        snapshots: m.snapshots.push(snapshot),
        ..m
    }
}

/// Sets or moves a branch or tag to a snapshot, which must be present. Moving `main` also makes
/// the snapshot current and logs it.
pub open spec fn snapshot_ref_set(
    m: TableMetadataView,
    ref_name: Seq<char>,
    reference: SnapshotReference,
    now_ms: i64,
) -> Result<TableMetadataView, ApplyErrorView> {
    if !m.has_snapshot(reference.snapshot_id) {
        Err(
            ApplyErrorView::Plan(
                "set-snapshot-ref '"@ + ref_name + "' references unknown snapshot-id "@ + decimal(
                    reference.snapshot_id as int,
                ),
            ),
        )
    } else if ref_name == "main"@ {
        Ok(
            TableMetadataView {
                refs: m.refs.insert(ref_name, reference),
                current_snapshot_id: Some(reference.snapshot_id),
                snapshot_log: m.snapshot_log.push(
                    SnapshotLog { timestamp_ms: now_ms, snapshot_id: reference.snapshot_id },
                ),
                ..m
            },
        )
    } else {
        Ok(TableMetadataView { refs: m.refs.insert(ref_name, reference), ..m })
    }
}

/// What an update is called where it is not supported.
pub open spec fn kind_text(update: TableUpdateView) -> Seq<char> {
    if update is AddSpec {
        "add-spec"@
    } else {
        "unsupported"@
    }
}

/// What an update is called where it is not supported.
pub fn update_kind(update: &TableUpdate) -> (kind: &'static str)
    ensures
        kind@ == kind_text(update.deep_view()),
        *update is AddSpec ==> kind@ == "add-spec"@,
        !(*update is AddSpec) ==> kind@ == "unsupported"@,
{
    match update {
        TableUpdate::AddSpec { .. } => "add-spec",
        _ => "unsupported",
    }
}

fn contains_long(ids: &Vec<i64>, id: i64) -> (found: bool)
    ensures
        found == ids@.contains(id),
{
    let n: usize = ids.len();
    let mut i: usize = 0;
    while i < n
        invariant
            i <= n,
            n == ids@.len(),
            forall|j: int| 0 <= j < i ==> ids@[j] != id,
        decreases n - i,
    {
        if ids[i] == id {
            return true;
        }
        i += 1;
    }
    false
}

fn contains_int(ids: &Vec<i32>, id: i32) -> (found: bool)
    ensures
        found == ids@.contains(id),
{
    let n: usize = ids.len();
    let mut i: usize = 0;
    while i < n
        invariant
            i <= n,
            n == ids@.len(),
            forall|j: int| 0 <= j < i ==> ids@[j] != id,
        decreases n - i,
    {
        if ids[i] == id {
            return true;
        }
        i += 1;
    }
    false
}

fn has_schema(metadata: &TableMetadata, id: i32) -> (found: bool)
    ensures
        found == metadata.deep_view().has_schema(id),
{
    let ghost p = |s: SchemaView| s.schema_id == id;
    let test = |s: &Schema| -> (same: bool)
        ensures
            same == (s.deep_view().schema_id == id),
        { s.schema_id() == id };
    let found = position(&metadata.schemas, test, Ghost(p));
    proof {
        lemma_find_first(metadata.deep_view().schemas, p);
        if let Some(i) = found {
            assert(metadata.deep_view().schemas[i as int].schema_id == id);
        }
    }
    found.is_some()
}

fn has_snapshot(metadata: &TableMetadata, id: i64) -> (found: bool)
    ensures
        found == metadata.deep_view().has_snapshot(id),
{
    let ghost p = |s: SnapshotView| s.snapshot_id == id;
    let test = |s: &Snapshot| -> (same: bool)
        ensures
            same == (s.deep_view().snapshot_id == id),
        { s.snapshot_id() == id };
    let found = position(&metadata.snapshots, test, Ghost(p));
    proof {
        lemma_find_first(metadata.deep_view().snapshots, p);
        if let Some(i) = found {
            assert(metadata.deep_view().snapshots[i as int].snapshot_id == id);
        }
    }
    found.is_some()
}

/// The number that the low 32 bits of `n` make in two's complement.
fn truncate_id(n: i64) -> (low: i32)
    ensures
        low == low_half(n),
{
    assert((n as i32) as int == {
        let low = n as int % 0x1_0000_0000;
        if low < 0x8000_0000 {
            low
        } else {
            low - 0x1_0000_0000
        }
    }) by (bit_vector);
    #[verifier::truncate]
    (n as i32)
}


fn add_schema(metadata: &mut TableMetadata, schema: &Schema)
    ensures
        final(metadata).deep_view() == schema_added(old(metadata).deep_view(), schema.deep_view()),
{
    let ghost added = schema.deep_view();
    let ghost p = |s: SchemaView| s.schema_id == added.schema_id;
    let schema_id: i32 = schema.schema_id();
    let highest: i32 = schema.highest_field_id();
    if metadata.last_column_id < highest {
        metadata.last_column_id = highest;
    }
    let test = |s: &Schema| -> (same: bool)
        ensures
            same == (s.deep_view().schema_id == schema_id),
        { s.schema_id() == schema_id };
    put(&mut metadata.schemas, schema.clone(), test, Ghost(p));
}

fn set_current_schema(metadata: &mut TableMetadata, schema_id: i32) -> (result: Result<
    (),
    ApplyError,
>)
    ensures
        applied(
            *old(metadata),
            *final(metadata),
            result,
            current_schema_set(old(metadata).deep_view(), schema_id),
        ),
{
    let resolved: i32 = if schema_id == -1 {
        let n: usize = metadata.schemas.len();
        if n == 0 {
            return Err(invalid("set-current-schema -1 with no schemas added".to_owned()));
        }
        assert(metadata.deep_view().schemas.last() == metadata.schemas@[n - 1].deep_view());
        metadata.schemas[n - 1].schema_id()
    } else {
        schema_id
    };
    if !has_schema(metadata, resolved) {
        let mut message = "unknown schema-id ".to_owned();
        append_decimal(&mut message, resolved as i64);
        return Err(invalid(message));
    }
    metadata.current_schema_id = resolved;
    Ok(())
}

fn set_default_spec(metadata: &mut TableMetadata, spec_id: i32) -> (result: Result<(), ApplyError>)
    ensures
        applied(
            *old(metadata),
            *final(metadata),
            result,
            default_spec_set(old(metadata).deep_view(), spec_id),
        ),
{
    let resolved: i32 = if spec_id == -1 {
        let n: usize = metadata.partition_specs.len();
        if n == 0 {
            return Err(invalid("set-default-spec -1 with no specs added".to_owned()));
        }
        assert(metadata.deep_view().partition_specs.last() == metadata.partition_specs@[n
            - 1].deep_view());
        metadata.partition_specs[n - 1].spec_id()
    } else {
        spec_id
    };
    metadata.default_spec_id = resolved;
    Ok(())
}

fn add_sort_order(metadata: &mut TableMetadata, sort_order: &SortOrder)
    ensures
        final(metadata).deep_view() == sort_order_added(
            old(metadata).deep_view(),
            sort_order.deep_view(),
        ),
{
    let ghost added = sort_order.deep_view();
    let ghost p = |o: SortOrderView| o.order_id == added.order_id;
    let order_id: i64 = sort_order.order_id;
    let test = |o: &SortOrder| -> (same: bool)
        ensures
            same == (o.deep_view().order_id == order_id),
        { o.order_id == order_id };
    put(&mut metadata.sort_orders, sort_order.clone(), test, Ghost(p));
}

fn set_default_sort_order(metadata: &mut TableMetadata, sort_order_id: i64) -> (result: Result<
    (),
    ApplyError,
>)
    ensures
        applied(
            *old(metadata),
            *final(metadata),
            result,
            default_sort_order_set(old(metadata).deep_view(), sort_order_id),
        ),
{
    let resolved: i64 = if sort_order_id == -1 {
        let n: usize = metadata.sort_orders.len();
        if n == 0 {
            return Err(invalid("set-default-sort-order -1 with no sort orders added".to_owned()));
        }
        assert(metadata.deep_view().sort_orders.last() == metadata.sort_orders@[n
            - 1].deep_view());
        metadata.sort_orders[n - 1].order_id
    } else {
        sort_order_id
    };
    metadata.default_sort_order_id = Some(truncate_id(resolved));
    Ok(())
}

fn remove_snapshots(metadata: &mut TableMetadata, ids: &Vec<i64>)
    ensures
        final(metadata).deep_view() == snapshots_removed(old(metadata).deep_view(), ids@),
{
    let ghost gone = ids@;
    let ghost p = |s: SnapshotView| !gone.contains(s.snapshot_id);
    let test = |s: &Snapshot| -> (keep: bool)
        ensures
            keep == !ids@.contains(s.deep_view().snapshot_id),
        { !contains_long(ids, s.snapshot_id()) };
    retain(&mut metadata.snapshots, test, Ghost(p));
    if let Some(current) = metadata.current_snapshot_id {
        if contains_long(ids, current) {
            metadata.current_snapshot_id = None;
        }
    }
}

fn remove_partition_specs(metadata: &mut TableMetadata, ids: &Vec<i32>)
    ensures
        final(metadata).deep_view() == (TableMetadataView {
            partition_specs: old(metadata).deep_view().partition_specs.filter(
                |s: PartitionSpecView| !ids@.contains(s.spec_id),
            ),
            ..old(metadata).deep_view()
        }),
{
    let test = |s: &PartitionSpec| -> (keep: bool)
        ensures
            keep == !ids@.contains(s.deep_view().spec_id),
        { !contains_int(ids, s.spec_id()) };
    retain(
        &mut metadata.partition_specs,
        test,
        Ghost(|s: PartitionSpecView| !ids@.contains(s.spec_id)),
    );
}

fn remove_schemas(metadata: &mut TableMetadata, ids: &Vec<i32>)
    ensures
        final(metadata).deep_view() == (TableMetadataView {
            schemas: old(metadata).deep_view().schemas.filter(
                |s: SchemaView| !ids@.contains(s.schema_id),
            ),
            ..old(metadata).deep_view()
        }),
{
    let test = |s: &Schema| -> (keep: bool)
        ensures
            keep == !ids@.contains(s.deep_view().schema_id),
        { !contains_int(ids, s.schema_id()) };
    retain(
        &mut metadata.schemas,
        test,
        Ghost(|s: SchemaView| !ids@.contains(s.schema_id)),
    );
}

fn remove_statistics(metadata: &mut TableMetadata, snapshot_id: i64)
    ensures
        final(metadata).deep_view() == (TableMetadataView {
            statistics: old(metadata).deep_view().statistics.filter(
                |s: StatisticsFileView| s.snapshot_id != snapshot_id,
            ),
            ..old(metadata).deep_view()
        }),
{
    let test = |s: &StatisticsFile| -> (keep: bool)
        ensures
            keep == (s.deep_view().snapshot_id != snapshot_id),
        { s.snapshot_id != snapshot_id };
    retain(
        &mut metadata.statistics,
        test,
        Ghost(|s: StatisticsFileView| s.snapshot_id != snapshot_id),
    );
}

fn add_snapshot(metadata: &mut TableMetadata, snapshot: &Snapshot)
    ensures
        final(metadata).deep_view() == snapshot_added(
            old(metadata).deep_view(),
            snapshot.deep_view(),
        ),
{
    let sequence_number: i64 = snapshot.sequence_number();
    if sequence_number > metadata.last_sequence_number {
        metadata.last_sequence_number = sequence_number;
    }
    if let Some(added_rows) = snapshot.added_rows {
        metadata.advance_next_row_id(added_rows);
    }
    let ghost before = metadata.deep_view().snapshots;
    metadata.snapshots.push(snapshot.clone());
    assert(metadata.deep_view().snapshots =~= before.push(snapshot.deep_view()));
}

fn set_snapshot_ref(
    metadata: &mut TableMetadata,
    ref_name: &String,
    reference: &SnapshotReference,
    now_ms: i64,
) -> (result: Result<(), ApplyError>)
    ensures
        applied(
            *old(metadata),
            *final(metadata),
            result,
            snapshot_ref_set(old(metadata).deep_view(), ref_name@, *reference, now_ms),
        ),
{
    if !has_snapshot(metadata, reference.snapshot_id) {
        let mut message = "set-snapshot-ref '".to_owned();
        message.append(ref_name.as_str());
        message.append("' references unknown snapshot-id ");
        append_decimal(&mut message, reference.snapshot_id);
        return Err(invalid(message));
    }
    let ghost before = metadata.deep_view().refs;
    metadata.refs.insert(ref_name.clone(), *reference);
    assert(metadata.deep_view().refs =~= before.insert(ref_name@, *reference));
    if same_text(ref_name.as_str(), "main") {
        metadata.current_snapshot_id = Some(reference.snapshot_id);
        metadata.snapshot_log.push(
            SnapshotLog { timestamp_ms: now_ms, snapshot_id: reference.snapshot_id },
        );
    }
    Ok(())
}

/// Whether a function that was owed `outcome` has brought it about: the new metadata, or the
/// error with the metadata as it was.
pub open spec fn applied(
    before: TableMetadata,
    after: TableMetadata,
    result: Result<(), ApplyError>,
    outcome: Result<TableMetadataView, ApplyErrorView>,
) -> bool {
    match result {
        Ok(()) => outcome == Ok::<TableMetadataView, ApplyErrorView>(after.deep_view()),
        Err(error) => outcome == Err::<TableMetadataView, ApplyErrorView>(error.deep_view())
            && after == before,
    }
}

/// Applies one update. An update that is refused leaves the metadata as they are, and none sets the
/// time of the last update.
pub fn apply_one(metadata: &mut TableMetadata, update: &TableUpdate, now_ms: i64) -> (result: Result<
    (),
    ApplyError,
>)
    ensures
        applied(
            *old(metadata),
            *final(metadata),
            result,
            apply_update(old(metadata).deep_view(), update.deep_view(), now_ms),
        ),
        match result {
            Ok(()) => apply_update(old(metadata).deep_view(), update.deep_view(), now_ms) == Ok::<
                TableMetadataView,
                ApplyErrorView,
            >(final(metadata).deep_view()),
            Err(error) => apply_update(old(metadata).deep_view(), update.deep_view(), now_ms)
                == Err::<TableMetadataView, ApplyErrorView>(error.deep_view()) && *final(metadata)
                == *old(metadata),
        },
{
    match update {
        TableUpdate::SetProperties { updates } => {
            metadata.properties.insert_all(updates);
        },
        TableUpdate::RemoveProperties { removals } => {
            metadata.properties.remove_all(removals);
        },
        TableUpdate::SetLocation { location } => {
            metadata.location = location.clone();
        },
        TableUpdate::AssignUuid { uuid } => {
            metadata.table_uuid = Some(*uuid);
        },
        TableUpdate::UpgradeFormatVersion { format_version } => {
            metadata.format_version = *format_version;
        },
        TableUpdate::AddSchema { schema } => {
            add_schema(metadata, &**schema);
        },
        TableUpdate::SetCurrentSchema { schema_id } => {
            return set_current_schema(metadata, *schema_id);
        },
        TableUpdate::SetDefaultSpec { spec_id } => {
            return set_default_spec(metadata, *spec_id);
        },
        TableUpdate::AddSortOrder { sort_order } => {
            add_sort_order(metadata, sort_order);
        },
        TableUpdate::SetDefaultSortOrder { sort_order_id } => {
            return set_default_sort_order(metadata, *sort_order_id);
        },
        TableUpdate::RemoveSnapshots { snapshot_ids } => {
            remove_snapshots(metadata, snapshot_ids);
        },
        TableUpdate::RemoveSnapshotRef { ref_name } => {
            let ghost before = metadata.deep_view().refs;
            metadata.refs.remove(ref_name.as_str());
            assert(metadata.deep_view().refs =~= before.remove(ref_name@));
            if same_text(ref_name.as_str(), "main") {
                metadata.current_snapshot_id = None;
            }
        },
        TableUpdate::RemovePartitionSpecs { spec_ids } => {
            remove_partition_specs(metadata, spec_ids);
        },
        TableUpdate::RemoveSchemas { schema_ids } => {
            remove_schemas(metadata, schema_ids);
        },
        TableUpdate::SetStatistics { statistics } => {
            remove_statistics(metadata, statistics.snapshot_id);
            let ghost kept = metadata.deep_view().statistics;
            metadata.statistics.push(statistics.clone());
            assert(metadata.deep_view().statistics =~= kept.push(statistics.deep_view()));
        },
        TableUpdate::RemoveStatistics { snapshot_id } => {
            remove_statistics(metadata, *snapshot_id);
        },
        TableUpdate::AddSnapshot { snapshot } => {
            add_snapshot(metadata, snapshot);
        },
        TableUpdate::SetSnapshotRef { ref_name, reference } => {
            return set_snapshot_ref(metadata, ref_name, reference, now_ms);
        },
        TableUpdate::AddSpec { .. } => {
            let mut message = "TableUpdate not yet supported by apply_table_updates: ".to_owned();
            message.append(update_kind(update));
            return Err(ApplyError::NotImplemented(message));
        },
    }
    Ok(())
}


/// Where applying some updates in order ends: the metadata that the updates before the first
/// refused one make, and why that one is refused; or the metadata that all of them make.
pub open spec fn apply_in_order(
    m: TableMetadataView,
    updates: Seq<TableUpdateView>,
    now_ms: i64,
) -> (TableMetadataView, Option<ApplyErrorView>)
    decreases updates.len(),
{
    if updates.len() == 0 {
        (m, None)
    } else {
        let (before, refused) = apply_in_order(m, updates.drop_last(), now_ms);
        if refused is Some {
            (before, refused)
        } else {
            match apply_update(before, updates.last(), now_ms) {
                Ok(after) => (after, None),
                Err(error) => (before, Some(error)),
            }
        }
    }
}

/// Whether at least one of some updates is applied: the first one is not refused.
pub open spec fn any_applied(
    m: TableMetadataView,
    updates: Seq<TableUpdateView>,
    now_ms: i64,
) -> bool {
    updates.len() > 0 && apply_update(m, updates[0], now_ms) is Ok
}

/// The metadata after a commit of some updates at `now_ms`: what the updates before the first
/// refused one make, with the time of the last update set to `now_ms` if any update is applied.
pub open spec fn committed(
    m: TableMetadataView,
    updates: Seq<TableUpdateView>,
    now_ms: i64,
) -> TableMetadataView {
    let after = apply_in_order(m, updates, now_ms).0;
    if any_applied(m, updates, now_ms) {
        TableMetadataView { last_updated_ms: now_ms, ..after }
    } else {
        after
    }
}

/// Why a commit of some updates fails, if it does: the error of the first refused update.
pub open spec fn refusal(
    m: TableMetadataView,
    updates: Seq<TableUpdateView>,
    now_ms: i64,
) -> Option<ApplyErrorView> {
    apply_in_order(m, updates, now_ms).1
}

/// Once an update is refused, the updates after it do not matter.
proof fn lemma_refused_early(
    m: TableMetadataView,
    updates: Seq<TableUpdateView>,
    now_ms: i64,
    n: int,
)
    requires
        0 <= n <= updates.len(),
        apply_in_order(m, updates.take(n), now_ms).1 is Some,
    ensures
        apply_in_order(m, updates, now_ms) == apply_in_order(m, updates.take(n), now_ms),
    decreases updates.len() - n,
{
    if n == updates.len() {
        assert(updates.take(n) =~= updates);
    } else {
        assert(updates.take(n + 1).drop_last() =~= updates.take(n));
        lemma_refused_early(m, updates, now_ms, n + 1);
    }
}

/// Applies `updates` to `metadata` in order. The first update that is refused ends the run, and
/// those before it stay applied. On any applied change the time of the last update is set to
/// `now_ms`.
pub fn apply_table_updates(
    metadata: &mut TableMetadata,
    updates: &[TableUpdate],
    now_ms: i64,
) -> (result: Result<(), ApplyError>)
    ensures
        final(metadata).deep_view() == committed(
            old(metadata).deep_view(),
            updates.deep_view(),
            now_ms,
        ),
        match result {
            Ok(()) => refusal(old(metadata).deep_view(), updates.deep_view(), now_ms) is None,
            Err(error) => refusal(old(metadata).deep_view(), updates.deep_view(), now_ms) == Some(
                error.deep_view(),
            ),
        },
{
    let ghost m = metadata.deep_view();
    let ghost us = updates.deep_view();
    let n: usize = updates.len();
    let mut i: usize = 0;
    assert(us.take(0) =~= Seq::empty());
    while i < n
        invariant
            i <= n,
            n == updates@.len(),
            us == updates.deep_view(),
            m == old(metadata).deep_view(),
            apply_in_order(m, us.take(i as int), now_ms) == (
                metadata.deep_view(),
                None::<ApplyErrorView>,
            ),
            i == 0 ==> metadata.deep_view() == m,
            i > 0 ==> any_applied(m, us, now_ms),
        decreases n - i,
    {
        proof {
            assert(us.take(i + 1).drop_last() =~= us.take(i as int));
            assert(us.take(i + 1).last() == updates@[i as int].deep_view());
        }
        match apply_one(metadata, &updates[i], now_ms) {
            Ok(()) => {},
            Err(error) => {
                proof {
                    lemma_refused_early(m, us, now_ms, i + 1);
                }
                if i > 0 {
                    metadata.last_updated_ms = now_ms;
                }
                return Err(error);
            },
        }
        i += 1;
    }
    assert(us.take(n as int) =~= us);
    if n > 0 {
        metadata.last_updated_ms = now_ms;
    }
    Ok(())
}

} // verus!
