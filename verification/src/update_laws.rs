//! What each update does, told by what the metadata hold before and after it.
use crate::apply::{apply_update, committed, refusal};
use crate::collections::{find_first, lemma_find_first};
use crate::error::ApplyErrorView;
use crate::laws::{lemma_filter_kept, lemma_filter_member, lemma_run_single};
use crate::layout::{PartitionSpecView, SortOrderView, UnboundPartitionSpecView};
use crate::schema::SchemaView;
use crate::snapshot::{SnapshotReference, SnapshotView};
use crate::statistics::StatisticsFileView;
use crate::table_metadata::{FormatVersion, SnapshotLog, TableMetadataView, Uuid};
use crate::table_update::TableUpdateView;
use crate::text::decimal;
use vstd::prelude::*;

verus! {

/// A commit of one update does what the update does and sets the time of the last update, or
/// fails with the error of the update and changes nothing.
pub proof fn commit_of_one(m: TableMetadataView, update: TableUpdateView, now_ms: i64)
    ensures
        match apply_update(m, update, now_ms) {
            Ok(after) => {
                &&& refusal(m, seq![update], now_ms) is None
                &&& committed(m, seq![update], now_ms).last_updated_ms == now_ms
                &&& committed(m, seq![update], now_ms) == (TableMetadataView {
                    last_updated_ms: now_ms,
                    ..after
                })
            },
            Err(error) => {
                &&& refusal(m, seq![update], now_ms) == Some(error)
                &&& committed(m, seq![update], now_ms) == m
            },
        },
{
    lemma_run_single(m, update, now_ms);
}

/// Setting properties is always applied and changes nothing but properties. Each name that is set
/// has its new value afterwards, and each other name what it had before.
pub proof fn set_properties_are_held(
    m: TableMetadataView,
    updates: Map<Seq<char>, Seq<char>>,
    name: Seq<char>,
    now_ms: i64,
)
    ensures
        apply_update(m, TableUpdateView::SetProperties { updates }, now_ms) matches Ok(after) && {
            &&& after == (TableMetadataView { properties: after.properties, ..m })
            &&& after.properties.contains_key(name) <==> (m.properties.contains_key(name)
                || updates.contains_key(name))
            &&& updates.contains_key(name) ==> after.properties[name] == updates[name]
            &&& m.properties.contains_key(name) && !updates.contains_key(name)
                ==> after.properties[name] == m.properties[name]
        },
{
}

/// Removing properties is always applied and changes nothing but properties. No listed name is
/// held afterwards, and each other name has what it had before.
pub proof fn removed_properties_are_gone(
    m: TableMetadataView,
    removals: Seq<Seq<char>>,
    name: Seq<char>,
    now_ms: i64,
)
    ensures
        apply_update(m, TableUpdateView::RemoveProperties { removals }, now_ms) matches Ok(after)
            && {
            &&& after == (TableMetadataView { properties: after.properties, ..m })
            &&& after.properties.contains_key(name) <==> (m.properties.contains_key(name)
                && !removals.contains(name))
            &&& after.properties.contains_key(name) ==> after.properties[name]
                == m.properties[name]
        },
{
}

/// The location, the UUID and the format version can always be set. Each has the given value
/// afterwards, whatever it was before, and nothing else changes.
pub proof fn set_values_are_held(
    m: TableMetadataView,
    location: Seq<char>,
    uuid: Uuid,
    format_version: FormatVersion,
    now_ms: i64,
)
    ensures
        apply_update(m, TableUpdateView::SetLocation { location }, now_ms) matches Ok(after) && {
            &&& after.location == location
            &&& m == (TableMetadataView { location: m.location, ..after })
        },
        apply_update(m, TableUpdateView::AssignUuid { uuid }, now_ms) matches Ok(after) && {
            &&& after.table_uuid == Some(uuid)
            &&& m == (TableMetadataView { table_uuid: m.table_uuid, ..after })
        },
        apply_update(m, TableUpdateView::UpgradeFormatVersion { format_version }, now_ms) matches Ok(
            after,
        ) && {
            &&& after.format_version == format_version
            &&& m == (TableMetadataView { format_version: m.format_version, ..after })
        },
{
}

/// Adding a schema is always applied and changes nothing but the schemas and the last column id.
/// The schema stands in the place of the first one with its id, or behind all others if none has
/// its id. Every schema with another id stays where it was. The last column id is the greater of
/// what it was and the highest field id of the schema.
pub proof fn added_schema_is_held(m: TableMetadataView, schema: SchemaView, now_ms: i64)
    ensures
        apply_update(m, TableUpdateView::AddSchema { schema }, now_ms) matches Ok(after) && {
            &&& after == (TableMetadataView {
                schemas: after.schemas,
                last_column_id: after.last_column_id,
                ..m
            })
            &&& exists|k: int|
                #![trigger after.schemas[k]]
                0 <= k < after.schemas.len() && after.schemas[k] == schema && forall|j: int|
                    0 <= j < k ==> (#[trigger] after.schemas[j]).schema_id != schema.schema_id
            &&& forall|i: int|
                #![trigger m.schemas[i]]
                #![trigger after.schemas[i]]
                0 <= i < m.schemas.len() && m.schemas[i].schema_id != schema.schema_id ==> i
                    < after.schemas.len() && after.schemas[i] == m.schemas[i]
            &&& (forall|i: int|
                0 <= i < m.schemas.len() ==> (#[trigger] m.schemas[i]).schema_id
                    != schema.schema_id) ==> after.schemas == m.schemas.push(schema)
            &&& forall|k: int|
                #![trigger m.schemas[k]]
                0 <= k < m.schemas.len() && m.schemas[k].schema_id == schema.schema_id && (forall|
                    j: int,
                |
                    0 <= j < k ==> (#[trigger] m.schemas[j]).schema_id != schema.schema_id)
                    ==> after.schemas == m.schemas.update(k, schema)
            &&& after.last_column_id >= m.last_column_id
            &&& after.last_column_id >= schema.highest_field_id()
            &&& after.last_column_id == m.last_column_id || after.last_column_id
                == schema.highest_field_id()
        },
{
    let p = |s: SchemaView| s.schema_id == schema.schema_id;
    let after = apply_update(m, TableUpdateView::AddSchema { schema }, now_ms)->Ok_0;
    lemma_find_first(m.schemas, p);
    let k = match find_first(m.schemas, p) {
        Some(k) => {
            assert(p(m.schemas[k]));
            k
        },
        None => m.schemas.len() as int,
    };
    assert forall|j: int| 0 <= j < k implies (#[trigger] after.schemas[j]).schema_id
        != schema.schema_id by {
        assert(!p(m.schemas[j]));
    }
    assert(after.schemas[k] == schema);
}

/// Any schema id but -1 can be made current exactly if some schema has it, and is current then;
/// nothing else changes.
pub proof fn current_schema_is_as_asked(m: TableMetadataView, schema_id: i32, now_ms: i64)
    requires
        schema_id != -1,
    ensures
        match apply_update(m, TableUpdateView::SetCurrentSchema { schema_id }, now_ms) {
            Ok(after) => {
                &&& exists|i: int|
                    0 <= i < m.schemas.len() && (#[trigger] m.schemas[i]).schema_id == schema_id
                &&& after.current_schema_id == schema_id
                &&& m == (TableMetadataView { current_schema_id: m.current_schema_id, ..after })
            },
            Err(error) => {
                &&& forall|i: int|
                    0 <= i < m.schemas.len() ==> (#[trigger] m.schemas[i]).schema_id != schema_id
                &&& error == ApplyErrorView::Plan("unknown schema-id "@ + decimal(schema_id as int))
            },
        },
{
}

/// The schema id -1 makes the last schema current, and is refused exactly if there is no schema.
pub proof fn current_schema_can_be_the_last(m: TableMetadataView, now_ms: i64)
    ensures
        match apply_update(m, TableUpdateView::SetCurrentSchema { schema_id: -1i32 }, now_ms) {
            Ok(after) => {
                &&& m.schemas.len() > 0
                &&& after.current_schema_id == m.schemas[m.schemas.len() - 1].schema_id
                &&& m == (TableMetadataView { current_schema_id: m.current_schema_id, ..after })
            },
            Err(error) => {
                &&& m.schemas.len() == 0
                &&& error == ApplyErrorView::Plan("set-current-schema -1 with no schemas added"@)
            },
        },
{
    if m.schemas.len() > 0 {
        assert(m.has_schema(m.schemas[m.schemas.len() - 1].schema_id));
    }
}

/// Any partition spec id but -1 can be made the default, and is the default then, whether or not
/// a partition spec has it. The id -1 makes the last partition spec the default, and is refused
/// exactly if there is none. Nothing else changes.
pub proof fn default_spec_is_as_asked(m: TableMetadataView, spec_id: i32, now_ms: i64)
    ensures
        match apply_update(m, TableUpdateView::SetDefaultSpec { spec_id }, now_ms) {
            Ok(after) => {
                &&& spec_id != -1 ==> after.default_spec_id == spec_id
                &&& spec_id == -1 ==> m.partition_specs.len() > 0 && after.default_spec_id
                    == m.partition_specs[m.partition_specs.len() - 1].spec_id
                &&& m == (TableMetadataView { default_spec_id: m.default_spec_id, ..after })
            },
            Err(error) => {
                &&& spec_id == -1 && m.partition_specs.len() == 0
                &&& error == ApplyErrorView::Plan("set-default-spec -1 with no specs added"@)
            },
        },
{
}

/// Adding a sort order is always applied and changes nothing but the sort orders. The sort order,
/// with all its fields, stands in the place of the first one with its id, or behind all others if
/// none has its id. Every sort order with another id stays where and as it was.
pub proof fn added_sort_order_is_held(m: TableMetadataView, sort_order: SortOrderView, now_ms: i64)
    ensures
        apply_update(m, TableUpdateView::AddSortOrder { sort_order }, now_ms) matches Ok(after) && {
            &&& after == (TableMetadataView { sort_orders: after.sort_orders, ..m })
            &&& exists|k: int|
                #![trigger after.sort_orders[k]]
                0 <= k < after.sort_orders.len() && after.sort_orders[k] == sort_order && forall|
                    j: int,
                |
                    0 <= j < k ==> (#[trigger] after.sort_orders[j]).order_id
                        != sort_order.order_id
            &&& forall|i: int|
                #![trigger m.sort_orders[i]]
                #![trigger after.sort_orders[i]]
                0 <= i < m.sort_orders.len() && m.sort_orders[i].order_id != sort_order.order_id
                    ==> i < after.sort_orders.len() && after.sort_orders[i] == m.sort_orders[i]
            &&& (forall|i: int|
                0 <= i < m.sort_orders.len() ==> (#[trigger] m.sort_orders[i]).order_id
                    != sort_order.order_id) ==> after.sort_orders == m.sort_orders.push(sort_order)
            &&& forall|k: int|
                #![trigger m.sort_orders[k]]
                0 <= k < m.sort_orders.len() && m.sort_orders[k].order_id == sort_order.order_id
                    && (forall|j: int|
                    0 <= j < k ==> (#[trigger] m.sort_orders[j]).order_id != sort_order.order_id)
                    ==> after.sort_orders == m.sort_orders.update(k, sort_order)
        },
{
    let p = |o: SortOrderView| o.order_id == sort_order.order_id;
    let after = apply_update(m, TableUpdateView::AddSortOrder { sort_order }, now_ms)->Ok_0;
    lemma_find_first(m.sort_orders, p);
    let k = match find_first(m.sort_orders, p) {
        Some(k) => {
            assert(p(m.sort_orders[k]));
            k
        },
        None => m.sort_orders.len() as int,
    };
    assert forall|j: int| 0 <= j < k implies (#[trigger] after.sort_orders[j]).order_id
        != sort_order.order_id by {
        assert(!p(m.sort_orders[j]));
    }
    assert(after.sort_orders[k] == sort_order);
}

/// Any sort order id but -1 can be made the default, whether or not a sort order has it. The id -1
/// makes the last sort order the default, and is refused exactly if there is none. What becomes
/// the default differs from the id by a multiple of 2 to the power of 32, so it is the id itself
/// where that fits into 32 bits. Nothing else changes.
pub proof fn default_sort_order_is_as_asked(m: TableMetadataView, sort_order_id: i64, now_ms: i64)
    ensures
        match apply_update(m, TableUpdateView::SetDefaultSortOrder { sort_order_id }, now_ms) {
            Ok(after) => {
                let id: i64 = if sort_order_id == -1 {
                    m.sort_orders[m.sort_orders.len() - 1].order_id
                } else {
                    sort_order_id
                };
                &&& sort_order_id == -1 ==> m.sort_orders.len() > 0
                &&& after.default_sort_order_id matches Some(low) && {
                    &&& (low - id) % 0x1_0000_0000 == 0
                    &&& i32::MIN <= id <= i32::MAX ==> low == id
                }
                &&& m == (TableMetadataView {
                    default_sort_order_id: m.default_sort_order_id,
                    ..after
                })
            },
            Err(error) => {
                &&& sort_order_id == -1 && m.sort_orders.len() == 0
                &&& error == ApplyErrorView::Plan(
                    "set-default-sort-order -1 with no sort orders added"@,
                )
            },
        },
{
}

/// Removing keeps exactly the items that are to be kept, however often they occur.
proof fn lemma_filter_contains<A>(items: Seq<A>, p: spec_fn(A) -> bool, item: A)
    ensures
        items.filter(p).contains(item) <==> items.contains(item) && p(item),
{
    let kept = items.filter(p);
    if kept.contains(item) {
        let i = choose|i: int| 0 <= i < kept.len() && kept[i] == item;
        let j = lemma_filter_member(items, p, i);
    }
    if items.contains(item) && p(item) {
        let j = choose|j: int| 0 <= j < items.len() && items[j] == item;
        let i = lemma_filter_kept(items, p, j);
    }
}

/// Removing snapshots is always applied. Of the snapshots exactly those are left, in their order,
/// whose id is not listed. A current snapshot whose id is listed is no longer current. Nothing
/// else changes; branches and tags stay where they are.
pub proof fn unlisted_snapshots_are_left(
    m: TableMetadataView,
    snapshot_ids: Seq<i64>,
    snapshot: SnapshotView,
    now_ms: i64,
)
    ensures
        apply_update(m, TableUpdateView::RemoveSnapshots { snapshot_ids }, now_ms) matches Ok(after)
            && {
            &&& after == (TableMetadataView {
                snapshots: after.snapshots,
                current_snapshot_id: after.current_snapshot_id,
                ..m
            })
            &&& after.snapshots.contains(snapshot) <==> (m.snapshots.contains(snapshot)
                && !snapshot_ids.contains(snapshot.snapshot_id))
            &&& after.snapshots == m.snapshots.filter(
                |s: SnapshotView| !snapshot_ids.contains(s.snapshot_id),
            )
            &&& match m.current_snapshot_id {
                Some(current) => if snapshot_ids.contains(current) {
                    after.current_snapshot_id is None
                } else {
                    after.current_snapshot_id == Some(current)
                },
                None => after.current_snapshot_id is None,
            }
        },
{
    lemma_filter_contains(
        m.snapshots,
        |s: SnapshotView| !snapshot_ids.contains(s.snapshot_id),
        snapshot,
    );
}

/// Removing a branch or tag is always applied. Exactly that one is gone afterwards, and every other
/// one is where it was. With `main` goes the current snapshot. Nothing else changes.
pub proof fn removed_ref_is_gone(
    m: TableMetadataView,
    ref_name: Seq<char>,
    other: Seq<char>,
    now_ms: i64,
)
    ensures
        apply_update(m, TableUpdateView::RemoveSnapshotRef { ref_name }, now_ms) matches Ok(after)
            && {
            &&& after == (TableMetadataView {
                refs: after.refs,
                current_snapshot_id: after.current_snapshot_id,
                ..m
            })
            &&& !after.refs.contains_key(ref_name)
            &&& other != ref_name ==> {
                &&& after.refs.contains_key(other) == m.refs.contains_key(other)
                &&& m.refs.contains_key(other) ==> after.refs[other] == m.refs[other]
            }
            &&& ref_name == "main"@ ==> after.current_snapshot_id is None
            &&& ref_name != "main"@ ==> after.current_snapshot_id == m.current_snapshot_id
        },
{
}

/// Removing partition specs is always applied and changes nothing but the partition specs. Exactly
/// those are left, in their order, whose id is not listed; the default stays as it is.
pub proof fn unlisted_specs_are_left(
    m: TableMetadataView,
    spec_ids: Seq<i32>,
    spec: PartitionSpecView,
    now_ms: i64,
)
    ensures
        apply_update(m, TableUpdateView::RemovePartitionSpecs { spec_ids }, now_ms) matches Ok(after)
            && {
            &&& after == (TableMetadataView { partition_specs: after.partition_specs, ..m })
            &&& after.partition_specs.contains(spec) <==> (m.partition_specs.contains(spec)
                && !spec_ids.contains(spec.spec_id))
            &&& after.partition_specs == m.partition_specs.filter(
                |s: PartitionSpecView| !spec_ids.contains(s.spec_id),
            )
        },
{
    lemma_filter_contains(
        m.partition_specs,
        |s: PartitionSpecView| !spec_ids.contains(s.spec_id),
        spec,
    );
}

/// Removing schemas is always applied and changes nothing but the schemas. Exactly those are left,
/// in their order, whose id is not listed; the current schema id stays as it is.
pub proof fn unlisted_schemas_are_left(
    m: TableMetadataView,
    schema_ids: Seq<i32>,
    schema: SchemaView,
    now_ms: i64,
)
    ensures
        apply_update(m, TableUpdateView::RemoveSchemas { schema_ids }, now_ms) matches Ok(after) && {
            &&& after == (TableMetadataView { schemas: after.schemas, ..m })
            &&& after.schemas.contains(schema) <==> (m.schemas.contains(schema)
                && !schema_ids.contains(schema.schema_id))
            &&& after.schemas == m.schemas.filter(
                |s: SchemaView| !schema_ids.contains(s.schema_id),
            )
        },
{
    lemma_filter_contains(
        m.schemas,
        |s: SchemaView| !schema_ids.contains(s.schema_id),
        schema,
    );
}

/// Setting the statistics of a snapshot is always applied and changes nothing but statistics. The
/// given ones are the last; before them exactly those of other snapshots are left, in their order.
pub proof fn set_statistics_are_held(
    m: TableMetadataView,
    statistics: StatisticsFileView,
    other: StatisticsFileView,
    now_ms: i64,
)
    ensures
        apply_update(m, TableUpdateView::SetStatistics { statistics }, now_ms) matches Ok(after)
            && {
            &&& after == (TableMetadataView { statistics: after.statistics, ..m })
            &&& after.statistics.len() > 0
            &&& after.statistics[after.statistics.len() - 1] == statistics
            &&& after.statistics.contains(other) <==> (other == statistics
                || m.statistics.contains(other) && other.snapshot_id != statistics.snapshot_id)
            &&& after.statistics.drop_last() == m.statistics.filter(
                |s: StatisticsFileView| s.snapshot_id != statistics.snapshot_id,
            )
        },
{
    let p = |s: StatisticsFileView| s.snapshot_id != statistics.snapshot_id;
    let kept = m.statistics.filter(p);
    let after = apply_update(m, TableUpdateView::SetStatistics { statistics }, now_ms)->Ok_0;
    lemma_filter_contains(m.statistics, p, other);
    assert(after.statistics.drop_last() =~= kept);
    if kept.contains(other) {
        let i = choose|i: int| 0 <= i < kept.len() && kept[i] == other;
        assert(after.statistics[i] == other);
    }
    if after.statistics.contains(other) && other != statistics {
        let i = choose|i: int| 0 <= i < after.statistics.len() && after.statistics[i] == other;
        assert(kept[i] == other);
    }
}

/// Removing the statistics of a snapshot is always applied and changes nothing but statistics.
/// Exactly those of other snapshots are left, in their order.
pub proof fn removed_statistics_are_gone(
    m: TableMetadataView,
    snapshot_id: i64,
    other: StatisticsFileView,
    now_ms: i64,
)
    ensures
        apply_update(m, TableUpdateView::RemoveStatistics { snapshot_id }, now_ms) matches Ok(after)
            && {
            &&& after == (TableMetadataView { statistics: after.statistics, ..m })
            &&& after.statistics.contains(other) <==> (m.statistics.contains(other)
                && other.snapshot_id != snapshot_id)
            &&& after.statistics == m.statistics.filter(
                |s: StatisticsFileView| s.snapshot_id != snapshot_id,
            )
        },
{
    lemma_filter_contains(
        m.statistics,
        |s: StatisticsFileView| s.snapshot_id != snapshot_id,
        other,
    );
}

/// Adding a snapshot is always applied. The snapshot stands behind all others, which stay as they
/// were. The last sequence number is the greater of what it was and that of the snapshot. In
/// format version 3 the row-id counter, from zero where there is none yet, grows by the rows that
/// the snapshot added, but not beyond its greatest value. Nothing else changes.
pub proof fn added_snapshot_is_held(m: TableMetadataView, snapshot: SnapshotView, now_ms: i64)
    ensures
        apply_update(m, TableUpdateView::AddSnapshot { snapshot }, now_ms) matches Ok(after) && {
            &&& after == (TableMetadataView {
                snapshots: after.snapshots,
                last_sequence_number: after.last_sequence_number,
                next_row_id: after.next_row_id,
                ..m
            })
            &&& after.snapshots.len() == m.snapshots.len() + 1
            &&& after.snapshots[m.snapshots.len() as int] == snapshot
            &&& forall|i: int|
                0 <= i < m.snapshots.len() ==> #[trigger] after.snapshots[i] == m.snapshots[i]
            &&& after.last_sequence_number >= m.last_sequence_number
            &&& after.last_sequence_number >= snapshot.sequence_number
            &&& after.last_sequence_number == m.last_sequence_number || after.last_sequence_number
                == snapshot.sequence_number
            &&& m.format_version != FormatVersion::V3 || snapshot.added_rows is None
                ==> after.next_row_id == m.next_row_id
            &&& m.format_version == FormatVersion::V3 ==> (snapshot.added_rows matches Some(rows)
                ==> {
                let start: int = match m.next_row_id {
                    Some(n) => n as int,
                    None => 0,
                };
                &&& after.next_row_id matches Some(next) && {
                    &&& start + rows <= u64::MAX ==> next == start + rows
                    &&& start + rows > u64::MAX ==> next == u64::MAX
                }
            })
        },
{
}

/// Setting a branch or tag is applied exactly if its snapshot is present. Then the name, whatever
/// it is, has exactly the given reference, and every other branch and tag is where it was. With
/// `main` the snapshot becomes current and is logged with the given time; with any other name
/// neither changes. Nothing else changes.
pub proof fn set_ref_is_held(
    m: TableMetadataView,
    ref_name: Seq<char>,
    reference: SnapshotReference,
    other: Seq<char>,
    now_ms: i64,
)
    ensures
        match apply_update(m, TableUpdateView::SetSnapshotRef { ref_name, reference }, now_ms) {
            Ok(after) => {
                &&& exists|i: int|
                    0 <= i < m.snapshots.len() && (#[trigger] m.snapshots[i]).snapshot_id
                        == reference.snapshot_id
                &&& after == (TableMetadataView {
                    refs: after.refs,
                    current_snapshot_id: after.current_snapshot_id,
                    snapshot_log: after.snapshot_log,
                    ..m
                })
                &&& after.refs.contains_key(ref_name)
                &&& after.refs[ref_name] == reference
                &&& other != ref_name ==> {
                    &&& after.refs.contains_key(other) == m.refs.contains_key(other)
                    &&& m.refs.contains_key(other) ==> after.refs[other] == m.refs[other]
                }
                &&& ref_name == "main"@ ==> {
                    &&& after.current_snapshot_id == Some(reference.snapshot_id)
                    &&& after.snapshot_log == m.snapshot_log.push(
                        SnapshotLog { timestamp_ms: now_ms, snapshot_id: reference.snapshot_id },
                    )
                }
                &&& ref_name != "main"@ ==> {
                    &&& after.current_snapshot_id == m.current_snapshot_id
                    &&& after.snapshot_log == m.snapshot_log
                }
            },
            Err(error) => {
                &&& forall|i: int|
                    0 <= i < m.snapshots.len() ==> (#[trigger] m.snapshots[i]).snapshot_id
                        != reference.snapshot_id
                &&& error == ApplyErrorView::Plan(
                    "set-snapshot-ref '"@ + ref_name + "' references unknown snapshot-id "@
                        + decimal(reference.snapshot_id as int),
                )
            },
        },
{
}

/// Adding a partition spec is always refused, with a text that names the update.
pub proof fn added_spec_is_refused(
    m: TableMetadataView,
    spec: UnboundPartitionSpecView,
    now_ms: i64,
)
    ensures
        apply_update(m, TableUpdateView::AddSpec { spec }, now_ms) == Err::<
            TableMetadataView,
            ApplyErrorView,
        >(
            ApplyErrorView::NotImplemented(
                "TableUpdate not yet supported by apply_table_updates: "@ + "add-spec"@,
            ),
        ),
{
}

} // verus!
