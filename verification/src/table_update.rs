//! The updates that a commit can ask for.
use crate::layout::{
    SortOrder, SortOrderView, UnboundPartitionSpec, UnboundPartitionSpecView,
};
use crate::name_map::NameMap;
use crate::schema::{Schema, SchemaView};
use crate::snapshot::{Snapshot, SnapshotReference, SnapshotView};
use crate::statistics::{StatisticsFile, StatisticsFileView};
use crate::table_metadata::{FormatVersion, Uuid};
use vstd::prelude::*;

verus! {

/// One update of the metadata of a table.
#[derive(Debug)]
pub enum TableUpdate {
    AssignUuid { uuid: Uuid },
    UpgradeFormatVersion { format_version: FormatVersion },
    AddSchema { schema: Box<Schema> },
    SetCurrentSchema { schema_id: i32 },
    AddSpec { spec: UnboundPartitionSpec },
    SetDefaultSpec { spec_id: i32 },
    AddSortOrder { sort_order: SortOrder },
    SetDefaultSortOrder { sort_order_id: i64 },
    AddSnapshot { snapshot: Snapshot },
    SetSnapshotRef { ref_name: String, reference: SnapshotReference },
    RemoveSnapshots { snapshot_ids: Vec<i64> },
    RemoveSnapshotRef { ref_name: String },
    SetLocation { location: String },
    SetProperties { updates: NameMap<String> },
    RemoveProperties { removals: Vec<String> },
    RemovePartitionSpecs { spec_ids: Vec<i32> },
    RemoveSchemas { schema_ids: Vec<i32> },
    SetStatistics { statistics: StatisticsFile },
    RemoveStatistics { snapshot_id: i64 },
}

/// The model of a [`TableUpdate`].
pub enum TableUpdateView {
    AssignUuid { uuid: Uuid },
    UpgradeFormatVersion { format_version: FormatVersion },
    AddSchema { schema: SchemaView },
    SetCurrentSchema { schema_id: i32 },
    AddSpec { spec: UnboundPartitionSpecView },
    SetDefaultSpec { spec_id: i32 },
    AddSortOrder { sort_order: SortOrderView },
    SetDefaultSortOrder { sort_order_id: i64 },
    AddSnapshot { snapshot: SnapshotView },
    SetSnapshotRef { ref_name: Seq<char>, reference: SnapshotReference },
    RemoveSnapshots { snapshot_ids: Seq<i64> },
    RemoveSnapshotRef { ref_name: Seq<char> },
    SetLocation { location: Seq<char> },
    SetProperties { updates: Map<Seq<char>, Seq<char>> },
    RemoveProperties { removals: Seq<Seq<char>> },
    RemovePartitionSpecs { spec_ids: Seq<i32> },
    RemoveSchemas { schema_ids: Seq<i32> },
    SetStatistics { statistics: StatisticsFileView },
    RemoveStatistics { snapshot_id: i64 },
}

impl DeepView for TableUpdate {
    type V = TableUpdateView;

    open spec fn deep_view(&self) -> TableUpdateView {
        match self {
            TableUpdate::AssignUuid { uuid } => TableUpdateView::AssignUuid { uuid: *uuid },
            TableUpdate::UpgradeFormatVersion { format_version } => {
                TableUpdateView::UpgradeFormatVersion { format_version: *format_version }
            },
            TableUpdate::AddSchema { schema } => TableUpdateView::AddSchema {
                schema: schema.deep_view(),
            },
            TableUpdate::SetCurrentSchema { schema_id } => TableUpdateView::SetCurrentSchema {
                schema_id: *schema_id,
            },
            TableUpdate::AddSpec { spec } => TableUpdateView::AddSpec { spec: spec.deep_view() },
            TableUpdate::SetDefaultSpec { spec_id } => TableUpdateView::SetDefaultSpec {
                spec_id: *spec_id,
            },
            TableUpdate::AddSortOrder { sort_order } => TableUpdateView::AddSortOrder {
                sort_order: sort_order.deep_view(),
            },
            TableUpdate::SetDefaultSortOrder { sort_order_id } => {
                TableUpdateView::SetDefaultSortOrder { sort_order_id: *sort_order_id }
            },
            TableUpdate::AddSnapshot { snapshot } => TableUpdateView::AddSnapshot {
                snapshot: snapshot.deep_view(),
            },
            TableUpdate::SetSnapshotRef { ref_name, reference } => {
                TableUpdateView::SetSnapshotRef { ref_name: ref_name@, reference: *reference }
            },
            TableUpdate::RemoveSnapshots { snapshot_ids } => TableUpdateView::RemoveSnapshots {
                snapshot_ids: snapshot_ids@,
            },
            TableUpdate::RemoveSnapshotRef { ref_name } => TableUpdateView::RemoveSnapshotRef {
                ref_name: ref_name@,
            },
            TableUpdate::SetLocation { location } => TableUpdateView::SetLocation {
                location: location@,
            },
            TableUpdate::SetProperties { updates } => TableUpdateView::SetProperties {
                updates: updates.deep_view(),
            },
            TableUpdate::RemoveProperties { removals } => TableUpdateView::RemoveProperties {
                removals: removals.deep_view(),
            },
            TableUpdate::RemovePartitionSpecs { spec_ids } => {
                TableUpdateView::RemovePartitionSpecs { spec_ids: spec_ids@ }
            },
            TableUpdate::RemoveSchemas { schema_ids } => TableUpdateView::RemoveSchemas {
                schema_ids: schema_ids@,
            },
            TableUpdate::SetStatistics { statistics } => TableUpdateView::SetStatistics {
                statistics: statistics.deep_view(),
            },
            TableUpdate::RemoveStatistics { snapshot_id } => TableUpdateView::RemoveStatistics {
                snapshot_id: *snapshot_id,
            },
        }
    }
}

} // verus!
