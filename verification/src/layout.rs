//! How the rows of a table are laid out: partition specs and sort orders.
use vstd::prelude::*;

verus! {

/// How a partition or sort value comes from a column.
#[derive(Debug, Clone, Copy, PartialEq, Eq, Structural)]
pub enum Transform {
    Identity,
    Bucket(u32),
    Truncate(u32),
    Year,
    Month,
    Day,
    Hour,
    Void,
    Unknown,
}

/// One field of a [`PartitionSpec`].
#[derive(Debug)]
pub struct PartitionField {
    pub source_id: i32,
    pub field_id: i32,
    pub name: String,
    pub transform: Transform,
}

/// The model of a [`PartitionField`].
pub struct PartitionFieldView {
    pub source_id: i32,
    pub field_id: i32,
    pub name: Seq<char>,
    pub transform: Transform,
}

impl DeepView for PartitionField {
    type V = PartitionFieldView;

    open spec fn deep_view(&self) -> PartitionFieldView {
        PartitionFieldView {
            source_id: self.source_id,
            field_id: self.field_id,
            name: self.name@,
            transform: self.transform,
        }
    }
}

/// How the rows of a table are divided into partitions.
#[derive(Debug)]
pub struct PartitionSpec {
    pub spec_id: i32,
    pub fields: Vec<PartitionField>,
}

/// The model of a [`PartitionSpec`].
pub struct PartitionSpecView {
    pub spec_id: i32,
    pub fields: Seq<PartitionFieldView>,
}

impl DeepView for PartitionSpec {
    type V = PartitionSpecView;

    open spec fn deep_view(&self) -> PartitionSpecView {
        PartitionSpecView { spec_id: self.spec_id, fields: self.fields.deep_view() }
    }
}

impl PartitionSpec {
    /// The id of the partition spec.
    pub fn spec_id(&self) -> (id: i32)
        ensures
            id == self.deep_view().spec_id,
    {
        self.spec_id
    }
}

/// One field of an [`UnboundPartitionSpec`].
#[derive(Debug)]
pub struct UnboundPartitionField {
    pub source_id: i32,
    pub field_id: Option<i32>,
    pub name: String,
    pub transform: Transform,
}

/// The model of an [`UnboundPartitionField`].
pub struct UnboundPartitionFieldView {
    pub source_id: i32,
    pub field_id: Option<i32>,
    pub name: Seq<char>,
    pub transform: Transform,
}

impl DeepView for UnboundPartitionField {
    type V = UnboundPartitionFieldView;

    open spec fn deep_view(&self) -> UnboundPartitionFieldView {
        UnboundPartitionFieldView {
            source_id: self.source_id,
            field_id: self.field_id,
            name: self.name@,
            transform: self.transform,
        }
    }
}

/// A partition spec that is not yet bound to a schema.
#[derive(Debug)]
pub struct UnboundPartitionSpec {
    pub spec_id: Option<i32>,
    pub fields: Vec<UnboundPartitionField>,
}

/// The model of an [`UnboundPartitionSpec`].
pub struct UnboundPartitionSpecView {
    pub spec_id: Option<i32>,
    pub fields: Seq<UnboundPartitionFieldView>,
}

impl DeepView for UnboundPartitionSpec {
    type V = UnboundPartitionSpecView;

    open spec fn deep_view(&self) -> UnboundPartitionSpecView {
        UnboundPartitionSpecView { spec_id: self.spec_id, fields: self.fields.deep_view() }
    }
}

/// Whether values are sorted upwards or downwards.
#[derive(Debug, Clone, Copy, PartialEq, Eq, Structural)]
pub enum SortDirection {
    Ascending,
    Descending,
}

/// Whether nulls come before or after the values.
#[derive(Debug, Clone, Copy, PartialEq, Eq, Structural)]
pub enum NullOrder {
    First,
    Last,
}

/// One field of a [`SortOrder`].
#[derive(Debug, Clone, Copy, PartialEq, Eq, Structural)]
pub struct SortField {
    pub source_id: i32,
    pub transform: Transform,
    pub direction: SortDirection,
    pub null_order: NullOrder,
}

/// How the rows of a file are sorted.
#[derive(Debug)]
pub struct SortOrder {
    pub order_id: i64,
    pub fields: Vec<SortField>,
}

/// The model of a [`SortOrder`].
pub struct SortOrderView {
    pub order_id: i64,
    pub fields: Seq<SortField>,
}

impl DeepView for SortOrder {
    type V = SortOrderView;

    open spec fn deep_view(&self) -> SortOrderView {
        SortOrderView { order_id: self.order_id, fields: self.fields@ }
    }
}

impl Clone for SortOrder {
    fn clone(&self) -> (copy: Self)
        ensures
            copy.deep_view() == self.deep_view(),
    {
        let copy = SortOrder { order_id: self.order_id, fields: self.fields.clone() };
        assert(copy.fields@ =~= self.fields@);
        copy
    }
}

} // verus!
