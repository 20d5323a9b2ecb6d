//! The metadata document of a table.
use crate::layout::{PartitionSpec, PartitionSpecView, SortOrder, SortOrderView};
use crate::name_map::NameMap;
use crate::schema::{Schema, SchemaView};
use crate::snapshot::{Snapshot, SnapshotReference, SnapshotView};
use crate::statistics::{StatisticsFile, StatisticsFileView};
use vstd::prelude::*;

verus! {

/// The version of the table format that a document follows.
#[derive(Debug, Clone, Copy, PartialEq, Eq, Structural)]
pub enum FormatVersion {
    V1,
    V2,
    V3,
}

/// A universally unique id, as the number that its bytes make in big-endian order.
#[derive(Debug, Clone, Copy, PartialEq, Eq, Structural)]
pub struct Uuid(pub u128);

/// An entry of the log of current snapshots.
#[derive(Debug, Clone, Copy, PartialEq, Eq, Structural)]
pub struct SnapshotLog {
    pub timestamp_ms: i64,
    pub snapshot_id: i64,
}

/// An entry of the log of earlier metadata documents.
#[derive(Debug)]
pub struct MetadataLog {
    pub metadata_file: String,
    pub timestamp_ms: i64,
}

/// The model of a [`MetadataLog`].
pub struct MetadataLogView {
    pub metadata_file: Seq<char>,
    pub timestamp_ms: i64,
}

impl DeepView for MetadataLog {
    type V = MetadataLogView;

    open spec fn deep_view(&self) -> MetadataLogView {
        MetadataLogView { metadata_file: self.metadata_file@, timestamp_ms: self.timestamp_ms }
    }
}

/// The metadata document of a table.
#[derive(Debug)]
pub struct TableMetadata {
    pub format_version: FormatVersion,
    pub table_uuid: Option<Uuid>,
    pub location: String,
    pub last_sequence_number: i64,
    pub last_updated_ms: i64,
    pub last_column_id: i32,
    pub schemas: Vec<Schema>,
    pub current_schema_id: i32,
    pub partition_specs: Vec<PartitionSpec>,
    pub default_spec_id: i32,
    pub last_partition_id: i32,
    pub properties: NameMap<String>,
    pub current_snapshot_id: Option<i64>,
    pub snapshots: Vec<Snapshot>,
    pub snapshot_log: Vec<SnapshotLog>,
    pub metadata_log: Vec<MetadataLog>,
    pub sort_orders: Vec<SortOrder>,
    pub default_sort_order_id: Option<i32>,
    pub refs: NameMap<SnapshotReference>,
    pub statistics: Vec<StatisticsFile>,
    pub next_row_id: Option<u64>,
}

/// The model of a [`TableMetadata`].
pub struct TableMetadataView {
    pub format_version: FormatVersion,
    pub table_uuid: Option<Uuid>,
    pub location: Seq<char>,
    pub last_sequence_number: i64,
    pub last_updated_ms: i64,
    pub last_column_id: i32,
    pub schemas: Seq<SchemaView>,
    pub current_schema_id: i32,
    pub partition_specs: Seq<PartitionSpecView>,
    pub default_spec_id: i32,
    pub last_partition_id: i32,
    pub properties: Map<Seq<char>, Seq<char>>,
    pub current_snapshot_id: Option<i64>,
    pub snapshots: Seq<SnapshotView>,
    pub snapshot_log: Seq<SnapshotLog>,
    pub metadata_log: Seq<MetadataLogView>,
    pub sort_orders: Seq<SortOrderView>,
    pub default_sort_order_id: Option<i32>,
    pub refs: Map<Seq<char>, SnapshotReference>,
    pub statistics: Seq<StatisticsFileView>,
    pub next_row_id: Option<u64>,
}

impl DeepView for TableMetadata {
    type V = TableMetadataView;

    open spec fn deep_view(&self) -> TableMetadataView {
        TableMetadataView {
            format_version: self.format_version,
            table_uuid: self.table_uuid,
            location: self.location@,
            last_sequence_number: self.last_sequence_number,
            last_updated_ms: self.last_updated_ms,
            last_column_id: self.last_column_id,
            schemas: self.schemas.deep_view(),
            current_schema_id: self.current_schema_id,
            partition_specs: self.partition_specs.deep_view(),
            default_spec_id: self.default_spec_id,
            last_partition_id: self.last_partition_id,
            properties: self.properties.deep_view(),
            current_snapshot_id: self.current_snapshot_id,
            snapshots: self.snapshots.deep_view(),
            snapshot_log: self.snapshot_log@,
            metadata_log: self.metadata_log.deep_view(),
            sort_orders: self.sort_orders.deep_view(),
            default_sort_order_id: self.default_sort_order_id,
            refs: self.refs.deep_view(),
            statistics: self.statistics.deep_view(),
            next_row_id: self.next_row_id,
        }
    }
}

/// The row-id counter after `added_rows` more rows. The counter exists from format version 3 on;
/// it starts at zero and stays at its greatest value once it has reached it.
pub open spec fn advanced_row_id(
    version: FormatVersion,
    next: Option<u64>,
    added_rows: u64,
) -> Option<u64> {
    if version == FormatVersion::V3 {
        let start: int = match next {
            Some(n) => n as int,
            None => 0,
        };
        Some(
            if start + added_rows > u64::MAX {
                u64::MAX
            } else {
                (start + added_rows) as u64
            },
        )
    } else {
        next
    }
}

impl TableMetadata {
    /// Advances the row-id counter by the number of rows added.
    pub fn advance_next_row_id(&mut self, added_rows: u64)
        ensures
            final(self).deep_view() == (TableMetadataView {
                next_row_id: advanced_row_id(
                    old(self).format_version,
                    old(self).next_row_id,
                    added_rows,
                ),
                ..old(self).deep_view()
            }),
            old(self).format_version != FormatVersion::V3 ==> final(self).next_row_id == old(
                self,
            ).next_row_id,
            old(self).format_version == FormatVersion::V3 ==> {
                let sum: int = added_rows + match old(self).next_row_id {
                    Some(n) => n as int,
                    None => 0,
                };
                &&& final(self).next_row_id matches Some(next) && {
                    &&& sum <= u64::MAX ==> next == sum
                    &&& sum > u64::MAX ==> next == u64::MAX
                }
            },
    {
        if self.format_version == FormatVersion::V3 {
            let start: u64 = match self.next_row_id {
                Some(n) => n,
                None => 0,
            };
            self.next_row_id = Some(start.saturating_add(added_rows));
        }
    }
}

} // verus!
