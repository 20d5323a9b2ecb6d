use std::sync::Arc;
use table_commit::apply::{apply_one, apply_table_updates, update_kind};
use table_commit::error::ApplyError;
use table_commit::layout::{
    NullOrder, PartitionField, PartitionSpec, SortDirection, SortField, SortOrder, Transform,
    UnboundPartitionField, UnboundPartitionSpec,
};
use table_commit::name_map::NameMap;
use table_commit::schema::Schema;
use table_commit::snapshot::{
    Operation, Snapshot, SnapshotReference, SnapshotRetention, Summary,
};
use table_commit::statistics::{BlobMetadata, StatisticsFile};
use table_commit::table_metadata::{FormatVersion, TableMetadata, Uuid};
use table_commit::table_update::TableUpdate;
use table_commit::types::{ListType, NestedField, PrimitiveType, StructType, Type};

fn long_field(id: i32, name: &str) -> Arc<NestedField> {
    Arc::new(NestedField::optional(
        id,
        name,
        Type::Primitive(PrimitiveType::Long),
    ))
}

fn schema(schema_id: i32, field_id: i32) -> Schema {
    Schema::builder()
        .with_schema_id(schema_id)
        .with_fields(vec![long_field(field_id, "x")])
        .build()
        .unwrap()
}

/// A minimal, snapshot-free format-version-2 table metadata.
fn empty_v2_metadata() -> TableMetadata {
    TableMetadata {
        format_version: FormatVersion::V2,
        table_uuid: Some(Uuid(1)),
        location: "s3://warehouse/t".to_string(),
        last_sequence_number: 0,
        last_updated_ms: 0,
        last_column_id: 1,
        schemas: vec![schema(0, 1)],
        current_schema_id: 0,
        partition_specs: vec![PartitionSpec {
            spec_id: 0,
            fields: vec![],
        }],
        default_spec_id: 0,
        last_partition_id: 999,
        properties: NameMap::new(),
        current_snapshot_id: None,
        snapshots: vec![],
        snapshot_log: vec![],
        metadata_log: vec![],
        sort_orders: vec![SortOrder {
            order_id: 0,
            fields: vec![],
        }],
        default_sort_order_id: Some(0),
        refs: NameMap::new(),
        statistics: vec![],
        next_row_id: None,
    }
}

fn snapshot(id: i64, seq: i64) -> Snapshot {
    Snapshot {
        snapshot_id: id,
        parent_snapshot_id: None,
        sequence_number: seq,
        timestamp_ms: 1_000,
        manifest_list: format!("s3://warehouse/t/metadata/snap-{id}.avro"),
        manifests: None,
        summary: Summary::new(Operation::Append),
        schema_id: None,
        first_row_id: None,
        added_rows: Some(10),
        key_id: None,
    }
}

fn main_branch(snapshot_id: i64) -> SnapshotReference {
    SnapshotReference {
        snapshot_id,
        retention: SnapshotRetention::Branch {
            min_snapshots_to_keep: None,
            max_snapshot_age_ms: None,
            max_ref_age_ms: None,
        },
    }
}

fn set_main(snapshot_id: i64) -> TableUpdate {
    TableUpdate::SetSnapshotRef {
        ref_name: "main".to_string(),
        reference: main_branch(snapshot_id),
    }
}

fn add(id: i64, seq: i64) -> TableUpdate {
    TableUpdate::AddSnapshot {
        snapshot: snapshot(id, seq),
    }
}

fn statistics(snapshot_id: i64, path: &str) -> StatisticsFile {
    let mut properties = NameMap::new();
    properties.insert("ndv".to_string(), "3".to_string());
    StatisticsFile {
        snapshot_id,
        statistics_path: path.to_string(),
        file_size_in_bytes: 10,
        file_footer_size_in_bytes: 2,
        key_metadata: Some("k".to_string()),
        blob_metadata: vec![BlobMetadata {
            blob_type: "theta".to_string(),
            snapshot_id,
            sequence_number: 1,
            fields: vec![1, 2],
            properties,
        }],
    }
}

fn order(order_id: i64, source_id: i32) -> SortOrder {
    SortOrder {
        order_id,
        fields: vec![SortField {
            source_id,
            transform: Transform::Identity,
            direction: SortDirection::Descending,
            null_order: NullOrder::Last,
        }],
    }
}

fn add_spec() -> TableUpdate {
    TableUpdate::AddSpec {
        spec: UnboundPartitionSpec {
            spec_id: None,
            fields: vec![UnboundPartitionField {
                source_id: 1,
                field_id: None,
                name: "x_bucket".to_string(),
                transform: Transform::Bucket(16),
            }],
        },
    }
}

#[test]
fn append_adds_snapshot_and_moves_main() {
    let mut m = empty_v2_metadata();
    let updates = vec![
        TableUpdate::AddSnapshot {
            snapshot: snapshot(100, 1),
        },
        TableUpdate::SetSnapshotRef {
            ref_name: "main".to_string(),
            reference: main_branch(100),
        },
    ];
    apply_table_updates(&mut m, &updates, 5_000).expect("append applies");

    assert_eq!(m.snapshots.len(), 1);
    assert_eq!(m.snapshots[0].snapshot_id, 100);
    assert_eq!(m.last_sequence_number, 1);
    assert_eq!(m.current_snapshot_id, Some(100));
    assert_eq!(m.refs.get("main").map(|r| r.snapshot_id), Some(100));
    assert_eq!(m.snapshot_log.len(), 1);
    assert_eq!(m.snapshot_log[0].snapshot_id, 100);
    assert_eq!(m.snapshot_log[0].timestamp_ms, 5_000);
    assert_eq!(m.last_updated_ms, 5_000);
}

#[test]
fn add_snapshot_alone_does_not_move_current_or_log() {
    let mut m = empty_v2_metadata();
    apply_table_updates(
        &mut m,
        &[TableUpdate::AddSnapshot {
            snapshot: snapshot(7, 3),
        }],
        5_000,
    )
    .expect("add-snapshot applies");

    assert_eq!(m.snapshots.len(), 1);
    assert_eq!(m.last_sequence_number, 3);
    // Adding a snapshot alone moves neither the current snapshot nor the log.
    assert_eq!(m.current_snapshot_id, None);
    assert!(m.snapshot_log.is_empty());
}

#[test]
fn set_snapshot_ref_to_unknown_snapshot_errors() {
    let mut m = empty_v2_metadata();
    let err = apply_table_updates(
        &mut m,
        &[TableUpdate::SetSnapshotRef {
            ref_name: "main".to_string(),
            reference: main_branch(999),
        }],
        5_000,
    )
    .expect_err("ref to unknown snapshot is rejected");
    assert!(
        err.to_string().contains("unknown snapshot-id 999"),
        "{err:?}"
    );
}

#[test]
fn second_append_keeps_both_snapshots_and_advances() {
    let mut m = empty_v2_metadata();
    apply_table_updates(
        &mut m,
        &[
            TableUpdate::AddSnapshot {
                snapshot: snapshot(1, 1),
            },
            TableUpdate::SetSnapshotRef {
                ref_name: "main".to_string(),
                reference: main_branch(1),
            },
        ],
        1_000,
    )
    .expect("first append");
    apply_table_updates(
        &mut m,
        &[
            TableUpdate::AddSnapshot {
                snapshot: snapshot(2, 2),
            },
            TableUpdate::SetSnapshotRef {
                ref_name: "main".to_string(),
                reference: main_branch(2),
            },
        ],
        2_000,
    )
    .expect("second append");

    assert_eq!(m.snapshots.len(), 2);
    assert_eq!(m.current_snapshot_id, Some(2));
    assert_eq!(m.last_sequence_number, 2);
    assert_eq!(m.snapshot_log.len(), 2);
}

#[test]
fn no_updates_change_nothing() {
    let mut m = empty_v2_metadata();
    assert!(apply_table_updates(&mut m, &[], 5_000).is_ok());
    assert_eq!(m.last_updated_ms, 0);
    assert_eq!(m.schemas.len(), 1);
}

#[test]
fn properties_are_set_replaced_and_removed() {
    let mut m = empty_v2_metadata();
    m.properties.insert("a".to_string(), "1".to_string());
    m.properties.insert("b".to_string(), "2".to_string());
    let mut updates = NameMap::new();
    updates.insert("b".to_string(), "20".to_string());
    updates.insert("c".to_string(), "30".to_string());
    apply_table_updates(&mut m, &[TableUpdate::SetProperties { updates }], 1).unwrap();
    assert_eq!(m.properties.get("a"), Some(&"1".to_string()));
    assert_eq!(m.properties.get("b"), Some(&"20".to_string()));
    assert_eq!(m.properties.get("c"), Some(&"30".to_string()));
    apply_table_updates(
        &mut m,
        &[TableUpdate::RemoveProperties {
            removals: vec!["b".to_string(), "zz".to_string(), "c".to_string()],
        }],
        2,
    )
    .unwrap();
    assert_eq!(m.properties.get("a"), Some(&"1".to_string()));
    assert_eq!(m.properties.get("b"), None);
    assert!(!m.properties.contains_key("c"));
    assert_eq!(m.last_updated_ms, 2);
}

#[test]
fn location_uuid_and_format_version_are_set() {
    let mut m = empty_v2_metadata();
    apply_table_updates(
        &mut m,
        &[
            TableUpdate::SetLocation {
                location: "s3://elsewhere/t".to_string(),
            },
            TableUpdate::AssignUuid { uuid: Uuid(77) },
            TableUpdate::UpgradeFormatVersion {
                format_version: FormatVersion::V3,
            },
        ],
        9,
    )
    .unwrap();
    assert_eq!(m.location, "s3://elsewhere/t");
    assert_eq!(m.table_uuid, Some(Uuid(77)));
    assert_eq!(m.format_version, FormatVersion::V3);
}

#[test]
fn added_schema_replaces_one_with_the_same_id() {
    let mut m = empty_v2_metadata();
    apply_table_updates(
        &mut m,
        &[TableUpdate::AddSchema {
            schema: Box::new(schema(0, 8)),
        }],
        1,
    )
    .unwrap();
    assert_eq!(m.schemas.len(), 1);
    assert_eq!(m.schemas[0].highest_field_id(), 8);
    assert_eq!(m.last_column_id, 8);
    apply_table_updates(
        &mut m,
        &[TableUpdate::AddSchema {
            schema: Box::new(schema(5, 2)),
        }],
        1,
    )
    .unwrap();
    assert_eq!(m.schemas.len(), 2);
    assert_eq!(m.schemas[1].schema_id(), 5);
    // The last column id never falls.
    assert_eq!(m.last_column_id, 8);
}

#[test]
fn nested_field_ids_count_for_the_last_column_id() {
    let mut m = empty_v2_metadata();
    let nested = Arc::new(NestedField::required(
        2,
        "nested",
        Type::Struct(StructType {
            fields: vec![Arc::new(NestedField::optional(
                3,
                "items",
                Type::List(ListType {
                    element_field: long_field(41, "element"),
                }),
            ))],
        }),
    ));
    let schema = Schema::builder()
        .with_schema_id(1)
        .with_fields(vec![nested])
        .build()
        .unwrap();
    apply_table_updates(
        &mut m,
        &[TableUpdate::AddSchema {
            schema: Box::new(schema),
        }],
        1,
    )
    .unwrap();
    assert_eq!(m.last_column_id, 41);
}

#[test]
fn current_schema_is_resolved_and_checked() {
    let mut m = empty_v2_metadata();
    apply_table_updates(
        &mut m,
        &[
            TableUpdate::AddSchema {
                schema: Box::new(schema(4, 1)),
            },
            TableUpdate::SetCurrentSchema { schema_id: -1 },
        ],
        1,
    )
    .unwrap();
    assert_eq!(m.current_schema_id, 4);
    apply_table_updates(&mut m, &[TableUpdate::SetCurrentSchema { schema_id: 0 }], 1).unwrap();
    assert_eq!(m.current_schema_id, 0);

    let err = apply_table_updates(&mut m, &[TableUpdate::SetCurrentSchema { schema_id: -17 }], 2)
        .unwrap_err();
    assert_eq!(err, ApplyError::Plan("unknown schema-id -17".to_string()));
    assert_eq!(m.current_schema_id, 0);
    assert_eq!(m.last_updated_ms, 1);

    let err = apply_table_updates(
        &mut m,
        &[
            TableUpdate::RemoveSchemas {
                schema_ids: vec![4, 0],
            },
            TableUpdate::SetCurrentSchema { schema_id: -1 },
        ],
        2,
    )
    .unwrap_err();
    assert_eq!(
        err.to_string(),
        "Error during planning: set-current-schema -1 with no schemas added"
    );
    // The update before the refused one stays applied.
    assert!(m.schemas.is_empty());
    assert_eq!(m.last_updated_ms, 2);
}

#[test]
fn default_spec_is_resolved() {
    let mut m = empty_v2_metadata();
    m.partition_specs.push(PartitionSpec {
        spec_id: 3,
        fields: vec![PartitionField {
            source_id: 1,
            field_id: 1000,
            name: "x".to_string(),
            transform: Transform::Identity,
        }],
    });
    apply_table_updates(&mut m, &[TableUpdate::SetDefaultSpec { spec_id: -1 }], 1).unwrap();
    assert_eq!(m.default_spec_id, 3);
    // Another id is taken as it is.
    apply_table_updates(&mut m, &[TableUpdate::SetDefaultSpec { spec_id: 12 }], 1).unwrap();
    assert_eq!(m.default_spec_id, 12);
    apply_table_updates(
        &mut m,
        &[TableUpdate::RemovePartitionSpecs {
            spec_ids: vec![0, 9],
        }],
        1,
    )
    .unwrap();
    assert_eq!(m.partition_specs.len(), 1);
    assert_eq!(m.partition_specs[0].spec_id(), 3);
    m.partition_specs.clear();
    assert_eq!(
        apply_table_updates(&mut m, &[TableUpdate::SetDefaultSpec { spec_id: -1 }], 1),
        Err(ApplyError::Plan(
            "set-default-spec -1 with no specs added".to_string()
        ))
    );
}

#[test]
fn sort_orders_are_added_replaced_and_chosen() {
    let mut m = empty_v2_metadata();
    apply_table_updates(
        &mut m,
        &[
            TableUpdate::AddSortOrder {
                sort_order: order(2, 1),
            },
            TableUpdate::AddSortOrder {
                sort_order: order(0, 7),
            },
            TableUpdate::SetDefaultSortOrder { sort_order_id: -1 },
        ],
        1,
    )
    .unwrap();
    assert_eq!(m.sort_orders.len(), 2);
    assert_eq!(m.sort_orders[0].fields[0].source_id, 7);
    assert_eq!(m.default_sort_order_id, Some(2));
    apply_table_updates(
        &mut m,
        &[TableUpdate::SetDefaultSortOrder { sort_order_id: 6 }],
        1,
    )
    .unwrap();
    assert_eq!(m.default_sort_order_id, Some(6));
    m.sort_orders.clear();
    assert_eq!(
        apply_table_updates(
            &mut m,
            &[TableUpdate::SetDefaultSortOrder { sort_order_id: -1 }],
            1
        ),
        Err(ApplyError::Plan(
            "set-default-sort-order -1 with no sort orders added".to_string()
        ))
    );
}

#[test]
fn wide_sort_order_ids_keep_their_low_bits() {
    for (id, kept) in [
        (0x1_0000_0005_i64, 5),
        (0x8000_0000, i32::MIN),
        (0xFFFF_FFFF, -1),
        (-2, -2),
        (i64::MIN, 0),
        (i64::MAX, -1),
    ] {
        let mut m = empty_v2_metadata();
        apply_table_updates(
            &mut m,
            &[TableUpdate::SetDefaultSortOrder { sort_order_id: id }],
            1,
        )
        .unwrap();
        assert_eq!(m.default_sort_order_id, Some(kept));
    }
}

#[test]
fn removing_snapshots_clears_the_current_one() {
    let mut m = empty_v2_metadata();
    apply_table_updates(
        &mut m,
        &[add(1, 1), add(2, 2), add(3, 3), set_main(2)],
        1,
    )
    .unwrap();
    apply_table_updates(
        &mut m,
        &[TableUpdate::RemoveSnapshots {
            snapshot_ids: vec![3, 8],
        }],
        2,
    )
    .unwrap();
    assert_eq!(m.current_snapshot_id, Some(2));
    apply_table_updates(
        &mut m,
        &[TableUpdate::RemoveSnapshots {
            snapshot_ids: vec![2],
        }],
        3,
    )
    .unwrap();
    assert_eq!(m.current_snapshot_id, None);
    assert_eq!(m.snapshots.len(), 1);
    assert_eq!(m.snapshots[0].snapshot_id(), 1);
    // The branch itself is left in place.
    assert!(m.refs.contains_key("main"));
    assert_eq!(m.last_sequence_number, 3);
}

#[test]
fn removing_main_clears_the_current_snapshot() {
    let mut m = empty_v2_metadata();
    let tag = SnapshotReference {
        snapshot_id: 1,
        retention: SnapshotRetention::Tag {
            max_ref_age_ms: Some(5),
        },
    };
    apply_table_updates(
        &mut m,
        &[
            add(1, 1),
            set_main(1),
            TableUpdate::SetSnapshotRef {
                ref_name: "v1".to_string(),
                reference: tag,
            },
        ],
        1,
    )
    .unwrap();
    // A tag moves neither the current snapshot nor the log.
    assert_eq!(m.snapshot_log.len(), 1);
    assert_eq!(m.refs.get("v1"), Some(&tag));
    apply_table_updates(
        &mut m,
        &[TableUpdate::RemoveSnapshotRef {
            ref_name: "v1".to_string(),
        }],
        2,
    )
    .unwrap();
    assert_eq!(m.refs.get("v1"), None);
    assert_eq!(m.current_snapshot_id, Some(1));
    apply_table_updates(
        &mut m,
        &[TableUpdate::RemoveSnapshotRef {
            ref_name: "main".to_string(),
        }],
        3,
    )
    .unwrap();
    assert_eq!(m.current_snapshot_id, None);
    assert!(m.refs.is_empty());
    assert_eq!(m.snapshots.len(), 1);
}

#[test]
fn statistics_are_kept_once_per_snapshot() {
    let mut m = empty_v2_metadata();
    apply_table_updates(
        &mut m,
        &[
            TableUpdate::SetStatistics {
                statistics: statistics(1, "a"),
            },
            TableUpdate::SetStatistics {
                statistics: statistics(2, "b"),
            },
            TableUpdate::SetStatistics {
                statistics: statistics(1, "c"),
            },
        ],
        1,
    )
    .unwrap();
    assert_eq!(m.statistics.len(), 2);
    assert_eq!(m.statistics[0].statistics_path, "b");
    assert_eq!(m.statistics[1].statistics_path, "c");
    assert_eq!(m.statistics[1].blob_metadata[0].fields, vec![1, 2]);
    assert_eq!(
        m.statistics[1].blob_metadata[0].properties.get("ndv"),
        Some(&"3".to_string())
    );
    apply_table_updates(
        &mut m,
        &[TableUpdate::RemoveStatistics { snapshot_id: 2 }],
        1,
    )
    .unwrap();
    assert_eq!(m.statistics.len(), 1);
    assert_eq!(m.statistics[0].snapshot_id, 1);
}

#[test]
fn row_ids_advance_from_version_three_on() {
    let mut m = empty_v2_metadata();
    apply_table_updates(&mut m, &[add(1, 1)], 1).unwrap();
    assert_eq!(m.next_row_id, None);
    apply_table_updates(
        &mut m,
        &[
            TableUpdate::UpgradeFormatVersion {
                format_version: FormatVersion::V3,
            },
            add(2, 2),
            add(3, 3),
        ],
        1,
    )
    .unwrap();
    assert_eq!(m.next_row_id, Some(20));
    let mut without_rows = snapshot(4, 4);
    without_rows.added_rows = None;
    apply_table_updates(
        &mut m,
        &[TableUpdate::AddSnapshot {
            snapshot: without_rows,
        }],
        1,
    )
    .unwrap();
    assert_eq!(m.next_row_id, Some(20));
    m.advance_next_row_id(u64::MAX);
    assert_eq!(m.next_row_id, Some(u64::MAX));
}

#[test]
fn added_snapshot_is_stored_as_it_is() {
    let mut m = empty_v2_metadata();
    let mut s = snapshot(11, -4);
    s.manifests = Some(vec!["m1".to_string(), "m2".to_string()]);
    s.key_id = Some("k".to_string());
    s.summary
        .additional_properties
        .insert("added-records".to_string(), "10".to_string());
    apply_table_updates(&mut m, &[TableUpdate::AddSnapshot { snapshot: s }], 1).unwrap();
    let stored = &m.snapshots[0];
    assert_eq!(stored.sequence_number(), -4);
    // An older sequence number does not lower the last one.
    assert_eq!(m.last_sequence_number, 0);
    assert_eq!(
        stored.manifests,
        Some(vec!["m1".to_string(), "m2".to_string()])
    );
    assert_eq!(stored.key_id, Some("k".to_string()));
    assert_eq!(stored.manifest_list, "s3://warehouse/t/metadata/snap-11.avro");
    assert_eq!(stored.summary.operation, Operation::Append);
    assert_eq!(
        stored.summary.additional_properties.get("added-records"),
        Some(&"10".to_string())
    );
}

#[test]
fn unknown_snapshot_is_named_in_the_error() {
    let mut m = empty_v2_metadata();
    let err = apply_table_updates(
        &mut m,
        &[TableUpdate::SetSnapshotRef {
            ref_name: "audit".to_string(),
            reference: main_branch(i64::MIN),
        }],
        1,
    )
    .unwrap_err();
    assert_eq!(
        err,
        ApplyError::Plan(
            "set-snapshot-ref 'audit' references unknown snapshot-id -9223372036854775808"
                .to_string()
        )
    );
    assert_eq!(
        err.to_string(),
        "Error during planning: set-snapshot-ref 'audit' references unknown snapshot-id \
         -9223372036854775808"
    );
    assert!(m.refs.is_empty());
}

#[test]
fn adding_a_partition_spec_is_not_implemented() {
    let mut m = empty_v2_metadata();
    let err = apply_table_updates(&mut m, &[add_spec()], 1).unwrap_err();
    assert_eq!(
        err,
        ApplyError::NotImplemented(
            "TableUpdate not yet supported by apply_table_updates: add-spec".to_string()
        )
    );
    assert_eq!(
        err.to_string(),
        "This feature is not implemented: TableUpdate not yet supported by apply_table_updates: \
         add-spec"
    );
    assert_eq!(m.partition_specs.len(), 1);
    assert_eq!(m.last_updated_ms, 0);
}

#[test]
fn update_kinds() {
    assert_eq!(update_kind(&add_spec()), "add-spec");
    assert_eq!(update_kind(&set_main(1)), "unsupported");
}

#[test]
fn failed_commit_keeps_what_came_before_and_no_more() {
    let mut m = empty_v2_metadata();
    let err = apply_table_updates(
        &mut m,
        &[
            add(1, 4),
            set_main(1),
            set_main(2),
            TableUpdate::SetLocation {
                location: "never".to_string(),
            },
            add_spec(),
        ],
        5_000,
    )
    .unwrap_err();
    assert_eq!(
        err,
        ApplyError::Plan(
            "set-snapshot-ref 'main' references unknown snapshot-id 2".to_string()
        )
    );
    assert_eq!(m.snapshots.len(), 1);
    assert_eq!(m.current_snapshot_id, Some(1));
    assert_eq!(m.last_sequence_number, 4);
    assert_eq!(m.location, "s3://warehouse/t");
    // Two updates were applied, so the time of the last update is that of the commit.
    assert_eq!(m.last_updated_ms, 5_000);
}

#[test]
fn two_commits_do_what_one_does() {
    let mut two = empty_v2_metadata();
    apply_table_updates(&mut two, &[add(1, 1), set_main(1)], 8).unwrap();
    apply_table_updates(&mut two, &[add(2, 2), set_main(2)], 8).unwrap();
    let mut one = empty_v2_metadata();
    apply_table_updates(
        &mut one,
        &[add(1, 1), set_main(1), add(2, 2), set_main(2)],
        8,
    )
    .unwrap();
    assert_eq!(format!("{one:?}"), format!("{two:?}"));
}

#[test]
fn adding_a_schema_again_changes_nothing() {
    let mut m = empty_v2_metadata();
    let update = || TableUpdate::AddSchema {
        schema: Box::new(schema(4, 6)),
    };
    apply_table_updates(&mut m, &[update()], 1).unwrap();
    let once = format!("{m:?}");
    apply_table_updates(&mut m, &[update()], 1).unwrap();
    assert_eq!(format!("{m:?}"), once);
}

#[test]
fn counters_and_log_only_move_forward() {
    let mut m = empty_v2_metadata();
    apply_table_updates(
        &mut m,
        &[
            TableUpdate::UpgradeFormatVersion {
                format_version: FormatVersion::V3,
            },
            add(1, 9),
            set_main(1),
        ],
        1,
    )
    .unwrap();
    apply_table_updates(
        &mut m,
        &[
            TableUpdate::RemoveSnapshots {
                snapshot_ids: vec![1],
            },
            TableUpdate::UpgradeFormatVersion {
                format_version: FormatVersion::V2,
            },
            TableUpdate::RemoveSchemas {
                schema_ids: vec![0],
            },
            add(2, 3),
        ],
        2,
    )
    .unwrap();
    assert_eq!(m.last_sequence_number, 9);
    assert_eq!(m.last_column_id, 1);
    assert_eq!(m.next_row_id, Some(10));
    assert_eq!(m.snapshot_log.len(), 1);
}

#[test]
fn refs_and_current_snapshot_stay_together() {
    let mut m = empty_v2_metadata();
    apply_table_updates(
        &mut m,
        &[
            add(1, 1),
            add(2, 2),
            set_main(1),
            set_main(2),
            TableUpdate::RemoveSnapshots {
                snapshot_ids: vec![1],
            },
        ],
        1,
    )
    .unwrap();
    assert_eq!(m.refs.get("main").map(|r| r.snapshot_id), Some(2));
    assert_eq!(m.current_snapshot_id, Some(2));
    assert!(m.snapshots.iter().any(|s| s.snapshot_id() == 2));
}

#[test]
fn applied_change_sets_the_time_though_a_later_update_is_refused() {
    let mut m = empty_v2_metadata();
    let result = apply_table_updates(
        &mut m,
        &[
            TableUpdate::SetLocation {
                location: "s3://b".to_string(),
            },
            set_main(999),
        ],
        5_000,
    );
    assert!(result.is_err());
    assert_eq!(m.location, "s3://b");
    assert_eq!(m.last_updated_ms, 5_000);
}

#[test]
fn refused_first_update_leaves_everything_as_it_was() {
    let mut m = empty_v2_metadata();
    let before = format!("{m:?}");
    let result = apply_table_updates(
        &mut m,
        &[
            set_main(999),
            TableUpdate::SetLocation {
                location: "s3://b".to_string(),
            },
        ],
        5_000,
    );
    assert!(result.is_err());
    assert_eq!(format!("{m:?}"), before);
}

#[test]
fn failed_second_commit_does_what_one_commit_does() {
    let mut two = empty_v2_metadata();
    apply_table_updates(&mut two, &[add(1, 1), set_main(1)], 8).unwrap();
    let second = apply_table_updates(&mut two, &[set_main(7), add(2, 2)], 8);
    let mut one = empty_v2_metadata();
    let both = apply_table_updates(
        &mut one,
        &[add(1, 1), set_main(1), set_main(7), add(2, 2)],
        8,
    );
    assert_eq!(second, both);
    assert!(both.is_err());
    assert_eq!(format!("{one:?}"), format!("{two:?}"));
    assert_eq!(one.last_updated_ms, 8);
}

#[test]
fn single_updates_leave_the_time_alone() {
    let mut m = empty_v2_metadata();
    assert!(apply_one(&mut m, &add(3, 2), 5_000).is_ok());
    assert_eq!(m.snapshots.len(), 1);
    assert_eq!(m.last_updated_ms, 0);
    assert_eq!(m.last_partition_id, 999);
    assert!(m.metadata_log.is_empty());
    let before = format!("{m:?}");
    assert!(apply_one(&mut m, &add_spec(), 5_000).is_err());
    assert_eq!(format!("{m:?}"), before);
}

#[test]
fn new_properties_set_and_removed_give_back_the_table() {
    let mut m = empty_v2_metadata();
    m.properties.insert("a".to_string(), "1".to_string());
    let before = format!("{m:?}");
    let mut updates = NameMap::new();
    updates.insert("b".to_string(), "2".to_string());
    apply_one(&mut m, &TableUpdate::SetProperties { updates }, 1).unwrap();
    assert!(format!("{m:?}") != before);
    let removal = TableUpdate::RemoveProperties {
        removals: vec!["b".to_string()],
    };
    apply_one(&mut m, &removal, 1).unwrap();
    assert_eq!(format!("{m:?}"), before);
    // Removing a name that is not held is no error.
    apply_one(&mut m, &removal, 1).unwrap();
    assert_eq!(format!("{m:?}"), before);
}

#[test]
fn statistics_set_twice_and_removed() {
    let mut m = empty_v2_metadata();
    let set = |id, path| TableUpdate::SetStatistics {
        statistics: statistics(id, path),
    };
    apply_one(&mut m, &set(2, "b"), 1).unwrap();
    let others = format!("{m:?}");
    apply_one(&mut m, &set(1, "a"), 1).unwrap();
    let once = format!("{m:?}");
    apply_one(&mut m, &set(1, "a"), 1).unwrap();
    assert_eq!(format!("{m:?}"), once);
    apply_one(&mut m, &TableUpdate::RemoveStatistics { snapshot_id: 1 }, 1).unwrap();
    assert_eq!(format!("{m:?}"), others);
}

#[test]
fn commit_counts_exactly_what_it_adds() {
    let mut m = empty_v2_metadata();
    apply_table_updates(
        &mut m,
        &[
            add(1, 9),
            TableUpdate::UpgradeFormatVersion {
                format_version: FormatVersion::V3,
            },
            set_main(1),
            add(2, 4),
            TableUpdate::SetSnapshotRef {
                ref_name: "audit".to_string(),
                reference: main_branch(2),
            },
            set_main(2),
            add(3, 5),
            TableUpdate::AddSchema {
                schema: Box::new(schema(1, 30)),
            },
            TableUpdate::AddSchema {
                schema: Box::new(schema(2, 20)),
            },
            set_main(1),
        ],
        6,
    )
    .unwrap();
    assert_eq!(m.last_sequence_number, 9);
    assert_eq!(m.last_column_id, 30);
    // The first snapshot came before the table counted rows.
    assert_eq!(m.next_row_id, Some(20));
    let logged: Vec<(i64, i64)> = m
        .snapshot_log
        .iter()
        .map(|entry| (entry.timestamp_ms, entry.snapshot_id))
        .collect();
    assert_eq!(logged, vec![(6, 1), (6, 2), (6, 1)]);
}
