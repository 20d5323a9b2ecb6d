//! The models hold all that the values hold, so what is stated of models is true of values.
use crate::error::{ApplyError, ApplyErrorView};
use crate::layout::{
    PartitionField, PartitionSpec, SortOrder, UnboundPartitionField, UnboundPartitionSpec,
};
use crate::name_map::NameMap;
use crate::semantic_binding::{BindingErrorView, PhysicalBindingError, PhysicalFieldBinding};
use crate::snapshot::{Snapshot, SnapshotReference, Summary};
use crate::statistics::{BlobMetadata, StatisticsFile};
use crate::table_metadata::{MetadataLog, TableMetadata};
use crate::table_update::{TableUpdate, TableUpdateView};
use crate::types::{lemma_struct_model, NestedField, Type, TypeView};
use vstd::prelude::*;
use vstd::std_specs::cmp::PartialEqSpec;

verus! {

/// The model of table metadata holds each of their fields.
pub proof fn metadata_model(t: TableMetadata)
    ensures
        t.deep_view().format_version == t.format_version,
        t.deep_view().table_uuid == t.table_uuid,
        t.deep_view().location == t.location@,
        t.deep_view().last_sequence_number == t.last_sequence_number,
        t.deep_view().last_updated_ms == t.last_updated_ms,
        t.deep_view().last_column_id == t.last_column_id,
        t.deep_view().schemas == t.schemas.deep_view(),
        t.deep_view().current_schema_id == t.current_schema_id,
        t.deep_view().partition_specs == t.partition_specs.deep_view(),
        t.deep_view().default_spec_id == t.default_spec_id,
        t.deep_view().last_partition_id == t.last_partition_id,
        t.deep_view().properties == t.properties.deep_view(),
        t.deep_view().current_snapshot_id == t.current_snapshot_id,
        t.deep_view().snapshots == t.snapshots.deep_view(),
        t.deep_view().snapshot_log == t.snapshot_log@,
        t.deep_view().metadata_log == t.metadata_log.deep_view(),
        t.deep_view().sort_orders == t.sort_orders.deep_view(),
        t.deep_view().default_sort_order_id == t.default_sort_order_id,
        t.deep_view().refs == t.refs.deep_view(),
        t.deep_view().statistics == t.statistics.deep_view(),
        t.deep_view().next_row_id == t.next_row_id,
{
}

/// The model of an update is of the same kind and holds what the update holds.
pub proof fn update_model(update: TableUpdate)
    ensures
        match update {
            TableUpdate::AssignUuid { uuid } => update.deep_view() == (
            TableUpdateView::AssignUuid { uuid }),
            TableUpdate::UpgradeFormatVersion { format_version } => update.deep_view() == (
            TableUpdateView::UpgradeFormatVersion { format_version }),
            TableUpdate::AddSchema { schema } => update.deep_view() == (
            TableUpdateView::AddSchema { schema: (*schema).deep_view() }),
            TableUpdate::SetCurrentSchema { schema_id } => update.deep_view() == (
            TableUpdateView::SetCurrentSchema { schema_id }),
            TableUpdate::AddSpec { spec } => update.deep_view() == (
            TableUpdateView::AddSpec { spec: spec.deep_view() }),
            TableUpdate::SetDefaultSpec { spec_id } => update.deep_view() == (
            TableUpdateView::SetDefaultSpec { spec_id }),
            TableUpdate::AddSortOrder { sort_order } => update.deep_view() == (
            TableUpdateView::AddSortOrder { sort_order: sort_order.deep_view() }),
            TableUpdate::SetDefaultSortOrder { sort_order_id } => update.deep_view() == (
            TableUpdateView::SetDefaultSortOrder { sort_order_id }),
            TableUpdate::AddSnapshot { snapshot } => update.deep_view() == (
            TableUpdateView::AddSnapshot { snapshot: snapshot.deep_view() }),
            TableUpdate::SetSnapshotRef { ref_name, reference } => update.deep_view() == (
            TableUpdateView::SetSnapshotRef { ref_name: ref_name@, reference }),
            TableUpdate::RemoveSnapshots { snapshot_ids } => update.deep_view() == (
            TableUpdateView::RemoveSnapshots { snapshot_ids: snapshot_ids@ }),
            TableUpdate::RemoveSnapshotRef { ref_name } => update.deep_view() == (
            TableUpdateView::RemoveSnapshotRef { ref_name: ref_name@ }),
            TableUpdate::SetLocation { location } => update.deep_view() == (
            TableUpdateView::SetLocation { location: location@ }),
            TableUpdate::SetProperties { updates } => update.deep_view() == (
            TableUpdateView::SetProperties { updates: updates.deep_view() }),
            TableUpdate::RemoveProperties { removals } => update.deep_view() == (
            TableUpdateView::RemoveProperties { removals: removals.deep_view() }),
            TableUpdate::RemovePartitionSpecs { spec_ids } => update.deep_view() == (
            TableUpdateView::RemovePartitionSpecs { spec_ids: spec_ids@ }),
            TableUpdate::RemoveSchemas { schema_ids } => update.deep_view() == (
            TableUpdateView::RemoveSchemas { schema_ids: schema_ids@ }),
            TableUpdate::SetStatistics { statistics } => update.deep_view() == (
            TableUpdateView::SetStatistics { statistics: statistics.deep_view() }),
            TableUpdate::RemoveStatistics { snapshot_id } => update.deep_view() == (
            TableUpdateView::RemoveStatistics { snapshot_id }),
        },
{
}

/// The models of a snapshot, of its summary and of a reference to it hold each of their fields.
pub proof fn snapshot_models(s: Snapshot, summary: Summary, reference: SnapshotReference)
    ensures
        s.deep_view().snapshot_id == s.snapshot_id,
        s.deep_view().parent_snapshot_id == s.parent_snapshot_id,
        s.deep_view().sequence_number == s.sequence_number,
        s.deep_view().timestamp_ms == s.timestamp_ms,
        s.deep_view().manifest_list == s.manifest_list@,
        s.deep_view().manifests == s.manifests.deep_view(),
        s.deep_view().summary == s.summary.deep_view(),
        s.deep_view().schema_id == s.schema_id,
        s.deep_view().first_row_id == s.first_row_id,
        s.deep_view().added_rows == s.added_rows,
        s.deep_view().key_id == s.key_id.deep_view(),
        summary.deep_view().operation == summary.operation,
        summary.deep_view().additional_properties == summary.additional_properties.deep_view(),
        reference.deep_view() == reference,
{
}

/// The models of a statistics file and of a blob in it hold each of their fields.
pub proof fn statistics_models(s: StatisticsFile, blob: BlobMetadata)
    ensures
        s.deep_view().snapshot_id == s.snapshot_id,
        s.deep_view().statistics_path == s.statistics_path@,
        s.deep_view().file_size_in_bytes == s.file_size_in_bytes,
        s.deep_view().file_footer_size_in_bytes == s.file_footer_size_in_bytes,
        s.deep_view().key_metadata == s.key_metadata.deep_view(),
        s.deep_view().blob_metadata == s.blob_metadata.deep_view(),
        blob.deep_view().blob_type == blob.blob_type@,
        blob.deep_view().snapshot_id == blob.snapshot_id,
        blob.deep_view().sequence_number == blob.sequence_number,
        blob.deep_view().fields == blob.fields@,
        blob.deep_view().properties == blob.properties.deep_view(),
{
}

/// The models of partition specs, bound and unbound, and of sort orders hold each of their fields.
pub proof fn layout_models(
    spec: PartitionSpec,
    field: PartitionField,
    unbound: UnboundPartitionSpec,
    unbound_field: UnboundPartitionField,
    order: SortOrder,
)
    ensures
        spec.deep_view().spec_id == spec.spec_id,
        spec.deep_view().fields == spec.fields.deep_view(),
        field.deep_view().source_id == field.source_id,
        field.deep_view().field_id == field.field_id,
        field.deep_view().name == field.name@,
        field.deep_view().transform == field.transform,
        unbound.deep_view().spec_id == unbound.spec_id,
        unbound.deep_view().fields == unbound.fields.deep_view(),
        unbound_field.deep_view().source_id == unbound_field.source_id,
        unbound_field.deep_view().field_id == unbound_field.field_id,
        unbound_field.deep_view().name == unbound_field.name@,
        unbound_field.deep_view().transform == unbound_field.transform,
        order.deep_view().order_id == order.order_id,
        order.deep_view().fields == order.fields@,
{
}

/// The model of an entry of the log of earlier documents holds each of its fields.
pub proof fn metadata_log_model(entry: MetadataLog)
    ensures
        entry.deep_view().metadata_file == entry.metadata_file@,
        entry.deep_view().timestamp_ms == entry.timestamp_ms,
{
}

/// The model of a map by deep view holds the names of the map, each with the model of its value.
pub proof fn name_map_model<V: DeepView>(map: NameMap<V>, name: Seq<char>)
    ensures
        map.deep_view().contains_key(name) == map@.contains_key(name),
        map@.contains_key(name) ==> map.deep_view()[name] == map@[name].deep_view(),
{
}

/// The model of a field holds each of its parts, and the model of a type its nested fields.
pub proof fn type_models(field: NestedField, t: Type)
    ensures
        field.deep_view().id == field.id,
        field.deep_view().name == field.name@,
        field.deep_view().required == field.required,
        *field.deep_view().field_type == (*field.field_type).deep_view(),
        field.deep_view().doc == field.doc.deep_view(),
        field.deep_view().initial_default == field.initial_default.deep_view(),
        field.deep_view().write_default == field.write_default.deep_view(),
        match t {
            Type::Primitive(p) => t.deep_view() == TypeView::Primitive(p),
            Type::Struct(s) => t.deep_view() == TypeView::Struct(s.fields.deep_view()),
            Type::List(l) => t.deep_view() == TypeView::List(
                Box::new((*l.element_field).deep_view()),
            ),
            Type::Mapping(m) => t.deep_view() == TypeView::Mapping(
                Box::new((*m.key_field).deep_view()),
                Box::new((*m.value_field).deep_view()),
            ),
        },
{
    if let Type::Struct(s) = t {
        lemma_struct_model(s);
        assert(crate::types::fields_model(s.fields@) =~= s.fields.deep_view());
    }
}

/// Two types are equal exactly if their models are.
pub proof fn type_equality(a: Type, b: Type)
    ensures
        Type::obeys_eq_spec(),
        a.eq_spec(&b) <==> a.deep_view() == b.deep_view(),
{
}

/// The models of bindings and of errors hold all that these hold.
pub proof fn binding_models<'a>(
    binding: PhysicalFieldBinding<'a>,
    drift: PhysicalBindingError,
    refused: ApplyError,
)
    ensures
        binding.deep_view().name == binding.name@,
        match binding.expected_type {
            Some(t) => binding.deep_view().expected_type == Some(t.deep_view()),
            None => binding.deep_view().expected_type is None,
        },
        binding.deep_view().nullable == binding.nullable,
        match drift {
            PhysicalBindingError::MissingField(name) => drift.deep_view()
                == BindingErrorView::MissingField(name@),
            PhysicalBindingError::TypeMismatch { field, expected, actual } => drift.deep_view() == (
            BindingErrorView::TypeMismatch {
                field: field@,
                expected: expected@,
                actual: actual@,
            }),
            PhysicalBindingError::NullabilityMismatch {
                field,
                expected_nullable,
                actual_nullable,
            } => drift.deep_view() == (BindingErrorView::NullabilityMismatch {
                field: field@,
                expected_nullable,
                actual_nullable,
            }),
            PhysicalBindingError::ExpressionFieldMissing { expression, field } => drift.deep_view()
                == (BindingErrorView::ExpressionFieldMissing {
                expression: expression@,
                field: field@,
            }),
        },
        match refused {
            ApplyError::Plan(message) => refused.deep_view() == ApplyErrorView::Plan(message@),
            ApplyError::NotImplemented(message) => refused.deep_view()
                == ApplyErrorView::NotImplemented(message@),
        },
{
}

} // verus!
