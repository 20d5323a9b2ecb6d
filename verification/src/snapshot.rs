//! Snapshots of a table and the references to them.
use crate::name_map::NameMap;
use vstd::prelude::*;

verus! {

/// What a snapshot did to the table.
#[derive(Debug, Clone, Copy, PartialEq, Eq, Structural)]
pub enum Operation {
    Append,
    Replace,
    Overwrite,
    Delete,
}

/// What a snapshot did, and further facts about it.
#[derive(Debug)]
pub struct Summary {
    pub operation: Operation,
    pub additional_properties: NameMap<String>,
}

/// The model of a [`Summary`].
pub struct SummaryView {
    pub operation: Operation,
    pub additional_properties: Map<Seq<char>, Seq<char>>,
}

impl DeepView for Summary {
    type V = SummaryView;

    open spec fn deep_view(&self) -> SummaryView {
        SummaryView {
            operation: self.operation,
            additional_properties: self.additional_properties.deep_view(),
        }
    }
}

impl Summary {
    /// A summary that says no more than what the snapshot did.
    pub fn new(operation: Operation) -> (summary: Summary)
        ensures
            summary.deep_view() == (SummaryView {
                operation,
                additional_properties: Map::empty(),
            }),
    {
        let summary = Summary { operation, additional_properties: NameMap::new() };
        assert(summary.additional_properties.deep_view() =~= Map::empty());
        summary
    }
}

impl Clone for Summary {
    fn clone(&self) -> (copy: Self)
        ensures
            copy.deep_view() == self.deep_view(),
    {
        let copy = Summary {
            operation: self.operation,
            additional_properties: self.additional_properties.clone(),
        };
        assert(copy.additional_properties.deep_view() =~= self.additional_properties.deep_view());
        copy
    }
}

/// The state of a table at some time.
#[derive(Debug)]
pub struct Snapshot {
    pub snapshot_id: i64,
    pub parent_snapshot_id: Option<i64>,
    pub sequence_number: i64,
    pub timestamp_ms: i64,
    pub manifest_list: String,
    pub manifests: Option<Vec<String>>,
    pub summary: Summary,
    pub schema_id: Option<i32>,
    pub first_row_id: Option<u64>,
    pub added_rows: Option<u64>,
    pub key_id: Option<String>,
}

/// The model of a [`Snapshot`].
pub struct SnapshotView {
    pub snapshot_id: i64,
    pub parent_snapshot_id: Option<i64>,
    pub sequence_number: i64,
    pub timestamp_ms: i64,
    pub manifest_list: Seq<char>,
    pub manifests: Option<Seq<Seq<char>>>,
    pub summary: SummaryView,
    pub schema_id: Option<i32>,
    pub first_row_id: Option<u64>,
    pub added_rows: Option<u64>,
    pub key_id: Option<Seq<char>>,
}

impl DeepView for Snapshot {
    type V = SnapshotView;

    open spec fn deep_view(&self) -> SnapshotView {
        SnapshotView {
            snapshot_id: self.snapshot_id,
            parent_snapshot_id: self.parent_snapshot_id,
            sequence_number: self.sequence_number,
            timestamp_ms: self.timestamp_ms,
            manifest_list: self.manifest_list@,
            manifests: self.manifests.deep_view(),
            summary: self.summary.deep_view(),
            schema_id: self.schema_id,
            first_row_id: self.first_row_id,
            added_rows: self.added_rows,
            key_id: self.key_id.deep_view(),
        }
    }
}

impl Snapshot {
    /// The id of the snapshot.
    pub fn snapshot_id(&self) -> (id: i64)
        ensures
            id == self.deep_view().snapshot_id,
    {
        self.snapshot_id
    }

    /// The sequence number of the snapshot.
    pub fn sequence_number(&self) -> (number: i64)
        ensures
            number == self.deep_view().sequence_number,
    {
        self.sequence_number
    }
}

impl Clone for Snapshot {
    fn clone(&self) -> (copy: Self)
        ensures
            copy.deep_view() == self.deep_view(),
    {
        let manifests = match &self.manifests {
            Some(paths) => {
                let copies = paths.clone();
                assert(copies.deep_view() =~= paths.deep_view());
                Some(copies)
            },
            None => None,
        };
        Snapshot {
            snapshot_id: self.snapshot_id,
            parent_snapshot_id: self.parent_snapshot_id,
            sequence_number: self.sequence_number,
            timestamp_ms: self.timestamp_ms,
            manifest_list: self.manifest_list.clone(),
            manifests,
            summary: self.summary.clone(),
            schema_id: self.schema_id,
            first_row_id: self.first_row_id,
            added_rows: self.added_rows,
            key_id: self.key_id.clone(),
        }
    }
}

/// How long what a reference keeps alive is kept.
#[derive(Debug, Clone, Copy, PartialEq, Eq, Structural)]
pub enum SnapshotRetention {
    Branch {
        min_snapshots_to_keep: Option<i32>,
        max_snapshot_age_ms: Option<i64>,
        max_ref_age_ms: Option<i64>,
    },
    Tag { max_ref_age_ms: Option<i64> },
}

/// A branch or tag: a snapshot and how long it is kept.
#[derive(Debug, Clone, Copy, PartialEq, Eq, Structural)]
pub struct SnapshotReference {
    pub snapshot_id: i64,
    pub retention: SnapshotRetention,
}

impl DeepView for SnapshotReference {
    type V = SnapshotReference;

    open spec fn deep_view(&self) -> SnapshotReference {
        *self
    }
}

} // verus!
