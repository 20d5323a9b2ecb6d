//! Statistics files of a table.
use crate::name_map::NameMap;
use vstd::prelude::*;

verus! {

/// One blob of a [`StatisticsFile`].
#[derive(Debug)]
pub struct BlobMetadata {
    pub blob_type: String,
    pub snapshot_id: i64,
    pub sequence_number: i64,
    pub fields: Vec<i32>,
    pub properties: NameMap<String>,
}

/// The model of a [`BlobMetadata`].
pub struct BlobMetadataView {
    pub blob_type: Seq<char>,
    pub snapshot_id: i64,
    pub sequence_number: i64,
    pub fields: Seq<i32>,
    pub properties: Map<Seq<char>, Seq<char>>,
}

impl DeepView for BlobMetadata {
    type V = BlobMetadataView;

    open spec fn deep_view(&self) -> BlobMetadataView {
        BlobMetadataView {
            blob_type: self.blob_type@,
            snapshot_id: self.snapshot_id,
            sequence_number: self.sequence_number,
            fields: self.fields@,
            properties: self.properties.deep_view(),
        }
    }
}

impl Clone for BlobMetadata {
    fn clone(&self) -> (copy: Self)
        ensures
            copy.deep_view() == self.deep_view(),
    {
        let copy = BlobMetadata {
            blob_type: self.blob_type.clone(),
            snapshot_id: self.snapshot_id,
            sequence_number: self.sequence_number,
            fields: self.fields.clone(),
            properties: self.properties.clone(),
        };
        assert(copy.fields@ =~= self.fields@);
        assert(copy.properties.deep_view() =~= self.properties.deep_view());
        copy
    }
}

/// A file of statistics on one snapshot.
#[derive(Debug)]
pub struct StatisticsFile {
    pub snapshot_id: i64,
    pub statistics_path: String,
    pub file_size_in_bytes: i64,
    pub file_footer_size_in_bytes: i64,
    pub key_metadata: Option<String>,
    pub blob_metadata: Vec<BlobMetadata>,
}

/// The model of a [`StatisticsFile`].
pub struct StatisticsFileView {
    pub snapshot_id: i64,
    pub statistics_path: Seq<char>,
    pub file_size_in_bytes: i64,
    pub file_footer_size_in_bytes: i64,
    pub key_metadata: Option<Seq<char>>,
    pub blob_metadata: Seq<BlobMetadataView>,
}

impl DeepView for StatisticsFile {
    type V = StatisticsFileView;

    open spec fn deep_view(&self) -> StatisticsFileView {
        StatisticsFileView {
            snapshot_id: self.snapshot_id,
            statistics_path: self.statistics_path@,
            file_size_in_bytes: self.file_size_in_bytes,
            file_footer_size_in_bytes: self.file_footer_size_in_bytes,
            key_metadata: self.key_metadata.deep_view(),
            blob_metadata: self.blob_metadata.deep_view(),
        }
    }
}

impl Clone for StatisticsFile {
    fn clone(&self) -> (copy: Self)
        ensures
            copy.deep_view() == self.deep_view(),
    {
        let copy = StatisticsFile {
            snapshot_id: self.snapshot_id,
            statistics_path: self.statistics_path.clone(),
            file_size_in_bytes: self.file_size_in_bytes,
            file_footer_size_in_bytes: self.file_footer_size_in_bytes,
            key_metadata: self.key_metadata.clone(),
            blob_metadata: self.blob_metadata.clone(),
        };
        assert(copy.blob_metadata.deep_view() =~= self.blob_metadata.deep_view());
        copy
    }
}

} // verus!
