//! Validation of physical field bindings against a schema.
use crate::schema::{Schema, SchemaView};
use crate::types::{type_text, FieldView, Type, TypeView};
use vstd::prelude::*;

verus! {

/// What a plan expects of one physical field: its name and, where it says so, its type and
/// whether it may be null.
#[derive(Debug, Clone, PartialEq, Eq)]
pub struct PhysicalFieldBinding<'a> {
    pub name: &'a str,
    pub expected_type: Option<&'a Type>,
    pub nullable: Option<bool>,
}

/// One way in which a schema has drifted from what a plan expects.
#[derive(Debug, Clone, PartialEq, Eq)]
pub enum PhysicalBindingError {
    MissingField(String),
    TypeMismatch { field: String, expected: String, actual: String },
    NullabilityMismatch { field: String, expected_nullable: bool, actual_nullable: bool },
    ExpressionFieldMissing { expression: String, field: String },
}

/// The model of a [`PhysicalFieldBinding`].
pub struct BindingView {
    pub name: Seq<char>,
    pub expected_type: Option<TypeView>,
    pub nullable: Option<bool>,
}

/// The model of a [`PhysicalBindingError`].
pub enum BindingErrorView {
    MissingField(Seq<char>),
    TypeMismatch { field: Seq<char>, expected: Seq<char>, actual: Seq<char> },
    NullabilityMismatch { field: Seq<char>, expected_nullable: bool, actual_nullable: bool },
    ExpressionFieldMissing { expression: Seq<char>, field: Seq<char> },
}

impl<'a> DeepView for PhysicalFieldBinding<'a> {
    type V = BindingView;

    open spec fn deep_view(&self) -> BindingView {
        BindingView {
            name: self.name@,
            expected_type: self.expected_type.deep_view(),
            nullable: self.nullable,
        }
    }
}

impl DeepView for PhysicalBindingError {
    type V = BindingErrorView;

    open spec fn deep_view(&self) -> BindingErrorView {
        match self {
            PhysicalBindingError::MissingField(name) => BindingErrorView::MissingField(name@),
            PhysicalBindingError::TypeMismatch { field, expected, actual } => {
                BindingErrorView::TypeMismatch {
                    field: field@,
                    expected: expected@,
                    actual: actual@,
                }
            },
            PhysicalBindingError::NullabilityMismatch {
                field,
                expected_nullable,
                actual_nullable,
            } => BindingErrorView::NullabilityMismatch {
                field: field@,
                expected_nullable: *expected_nullable,
                actual_nullable: *actual_nullable,
            },
            PhysicalBindingError::ExpressionFieldMissing { expression, field } => {
                BindingErrorView::ExpressionFieldMissing { expression: expression@, field: field@ }
            },
        }
    }
}

/// The mismatch between the type that a binding expects and that of its field, if there is one.
pub open spec fn type_drift(binding: BindingView, field: FieldView) -> Seq<BindingErrorView> {
    match binding.expected_type {
        Some(expected) => if *field.field_type != expected {
            seq![
                BindingErrorView::TypeMismatch {
                    field: binding.name,
                    expected: type_text(expected),
                    actual: type_text(*field.field_type),
                },
            ]
        } else {
            Seq::empty()
        },
        None => Seq::empty(),
    }
}

/// The mismatch between the nullability that a binding expects and that of its field, if there
/// is one. A field may be null if it is not required.
pub open spec fn nullability_drift(binding: BindingView, field: FieldView) -> Seq<
    BindingErrorView,
> {
    match binding.nullable {
        Some(nullable) => if nullable != !field.required {
            seq![
                BindingErrorView::NullabilityMismatch {
                    field: binding.name,
                    expected_nullable: nullable,
                    actual_nullable: !field.required,
                },
            ]
        } else {
            Seq::empty()
        },
        None => Seq::empty(),
    }
}

/// What is wrong with one binding: its field is missing, or else its type, its nullability or
/// both mismatch.
pub open spec fn binding_drift(schema: SchemaView, binding: BindingView) -> Seq<BindingErrorView> {
    match schema.field_named(binding.name) {
        None => seq![BindingErrorView::MissingField(binding.name)],
        Some(field) => type_drift(binding, field) + nullability_drift(binding, field),
    }
}

/// What is wrong with some bindings, in their order.
pub open spec fn bindings_drift(schema: SchemaView, bindings: Seq<BindingView>) -> Seq<
    BindingErrorView,
>
    decreases bindings.len(),
{
    if bindings.len() == 0 {
        Seq::empty()
    } else {
        bindings_drift(schema, bindings.drop_last()) + binding_drift(schema, bindings.last())
    }
}

/// The fields of one expression that the schema lacks, in their order.
pub open spec fn expression_drift(
    schema: SchemaView,
    expression: Seq<char>,
    fields: Seq<Seq<char>>,
) -> Seq<BindingErrorView>
    decreases fields.len(),
{
    if fields.len() == 0 {
        Seq::empty()
    } else {
        let earlier = expression_drift(schema, expression, fields.drop_last());
        if schema.field_named(fields.last()) is None {
            earlier.push(
                BindingErrorView::ExpressionFieldMissing { expression, field: fields.last() },
            )
        } else {
            earlier
        }
    }
}

/// The fields of some expressions that the schema lacks, in the order of the expressions.
pub open spec fn expressions_drift(
    schema: SchemaView,
    expressions: Seq<(Seq<char>, Seq<Seq<char>>)>,
) -> Seq<BindingErrorView>
    decreases expressions.len(),
{
    if expressions.len() == 0 {
        Seq::empty()
    } else {
        expressions_drift(schema, expressions.drop_last()) + expression_drift(
            schema,
            expressions.last().0,
            expressions.last().1,
        )
    }
}

/// All drift of a schema: first that of the bindings, then that of the expressions.
pub open spec fn drift(
    schema: SchemaView,
    bindings: Seq<BindingView>,
    expressions: Seq<(Seq<char>, Seq<Seq<char>>)>,
) -> Seq<BindingErrorView> {
    bindings_drift(schema, bindings) + expressions_drift(schema, expressions)
}

/// Appends what is wrong with one binding.
fn check_binding(
    schema: &Schema,
    binding: &PhysicalFieldBinding<'_>,
    errors: &mut Vec<PhysicalBindingError>,
)
    ensures
        final(errors).deep_view() == old(errors).deep_view() + binding_drift(
            schema.deep_view(),
            binding.deep_view(),
        ),
{
    let ghost before = errors.deep_view();
    let ghost b = binding.deep_view();
    match schema.field_by_name(binding.name) {
        None => {
            errors.push(PhysicalBindingError::MissingField(binding.name.to_owned()));
            assert(errors.deep_view() =~= before + binding_drift(schema.deep_view(), b));
        },
        Some(field) => {
            let ghost f = field.deep_view();
            if let Some(expected) = binding.expected_type {
                if *field.field_type != *expected {
                    errors.push(
                        PhysicalBindingError::TypeMismatch {
                            field: binding.name.to_owned(),
                            expected: expected.to_string(),
                            actual: field.field_type.to_string(),
                        },
                    );
                }
            }
            assert(errors.deep_view() =~= before + type_drift(b, f));
            let ghost between = errors.deep_view();
            if let Some(expected_nullable) = binding.nullable {
                let actual_nullable = !field.required;
                if expected_nullable != actual_nullable {
                    errors.push(
                        PhysicalBindingError::NullabilityMismatch {
                            field: binding.name.to_owned(),
                            expected_nullable,
                            actual_nullable,
                        },
                    );
                }
            }
            assert(errors.deep_view() =~= between + nullability_drift(b, f));
            assert(errors.deep_view() =~= before + binding_drift(schema.deep_view(), b));
        },
    }
}

/// Appends the fields of one expression that the schema lacks.
fn check_expression(
    schema: &Schema,
    expression: &str,
    fields: &[&str],
    errors: &mut Vec<PhysicalBindingError>,
)
    ensures
        final(errors).deep_view() == old(errors).deep_view() + expression_drift(
            schema.deep_view(),
            expression@,
            fields.deep_view(),
        ),
{
    let ghost before = errors.deep_view();
    let ghost s = schema.deep_view();
    let ghost names = fields.deep_view();
    let n: usize = fields.len();
    let mut i: usize = 0;
    assert(names.take(0) =~= Seq::empty());
    assert(errors.deep_view() =~= before + expression_drift(s, expression@, names.take(0)));
    while i < n
        invariant
            i <= n,
            n == fields@.len(),
            s == schema.deep_view(),
            names == fields.deep_view(),
            errors.deep_view() == before + expression_drift(s, expression@, names.take(i as int)),
        decreases n - i,
    {
        let ghost held = errors.deep_view();
        assert(names.take(i + 1).drop_last() =~= names.take(i as int));
        assert(names.take(i + 1).last() == fields@[i as int]@);
        if schema.field_by_name(fields[i]).is_none() {
            errors.push(
                PhysicalBindingError::ExpressionFieldMissing {
                    expression: expression.to_owned(),
                    field: fields[i].to_owned(),
                },
            );
            assert(errors.deep_view() =~= held.push(
                BindingErrorView::ExpressionFieldMissing {
                    expression: expression@,
                    field: names[i as int],
                },
            ));
        }
        assert(errors.deep_view() =~= before + expression_drift(
            s,
            expression@,
            names.take(i + 1),
        ));
        i += 1;
    }
    assert(names.take(n as int) =~= names);
}

/// Checks `bindings` and the fields that expressions read against `schema`, and reports every
/// drift found, not only the first.
pub fn validate_physical_bindings(
    schema: &Schema,
    bindings: &[PhysicalFieldBinding<'_>],
    expression_fields: &[(&str, &[&str])],
) -> (result: Result<(), Vec<PhysicalBindingError>>)
    ensures
        match result {
            Ok(()) => drift(
                schema.deep_view(),
                bindings.deep_view(),
                expression_fields.deep_view(),
            ).len() == 0,
            Err(errors) => errors.deep_view().len() > 0 && errors.deep_view() == drift(
                schema.deep_view(),
                bindings.deep_view(),
                expression_fields.deep_view(),
            ),
        },
{
    let ghost s = schema.deep_view();
    let ghost bs = bindings.deep_view();
    let ghost es = expression_fields.deep_view();
    let mut errors: Vec<PhysicalBindingError> = Vec::new();
    assert(errors.deep_view() =~= Seq::empty());
    let n: usize = bindings.len();
    let mut i: usize = 0;
    assert(bs.take(0) =~= Seq::empty());
    while i < n
        invariant
            i <= n,
            n == bindings@.len(),
            s == schema.deep_view(),
            bs == bindings.deep_view(),
            errors.deep_view() == bindings_drift(s, bs.take(i as int)),
        decreases n - i,
    {
        assert(bs.take(i + 1).drop_last() =~= bs.take(i as int));
        assert(bs.take(i + 1).last() == bindings@[i as int].deep_view());
        check_binding(schema, &bindings[i], &mut errors);
        i += 1;
    }
    assert(bs.take(n as int) =~= bs);
    let ghost of_bindings = errors.deep_view();
    let m: usize = expression_fields.len();
    let mut k: usize = 0;
    assert(es.take(0) =~= Seq::empty());
    assert(errors.deep_view() =~= of_bindings + expressions_drift(s, es.take(0)));
    while k < m
        invariant
            k <= m,
            m == expression_fields@.len(),
            s == schema.deep_view(),
            es == expression_fields.deep_view(),
            errors.deep_view() == of_bindings + expressions_drift(s, es.take(k as int)),
        decreases m - k,
    {
        let (expression, fields) = expression_fields[k];
        let ghost held = errors.deep_view();
        assert(es.take(k + 1).drop_last() =~= es.take(k as int));
        assert(es.take(k + 1).last() == expression_fields@[k as int].deep_view());
        check_expression(schema, expression, fields, &mut errors);
        assert(errors.deep_view() =~= of_bindings + expressions_drift(s, es.take(k + 1)));
        k += 1;
    }
    assert(es.take(m as int) =~= es);
    if errors.is_empty() {
        Ok(())
    } else {
        Err(errors)
    }
}

} // verus!
