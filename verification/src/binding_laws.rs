//! What holds of schemas and of the validation of bindings as a whole.
use crate::collections::{find_first, lemma_find_first};
use crate::schema::SchemaView;
use crate::semantic_binding::{
    binding_drift, bindings_drift, drift, expression_drift, expressions_drift, nullability_drift,
    type_drift, BindingErrorView, BindingView,
};
use crate::types::{
    fields_ids, greatest, lemma_greatest, lemma_greatest_concat, type_ids, type_text, FieldView, TypeView,
};
use vstd::prelude::*;

verus! {

/// Whether the schema has the field of a binding, with the type and the nullability that the
/// binding expects.
pub open spec fn binding_fits(schema: SchemaView, binding: BindingView) -> bool {
    match schema.field_named(binding.name) {
        Some(field) => {
            &&& (binding.expected_type matches Some(expected) ==> *field.field_type == expected)
            &&& (binding.nullable matches Some(nullable) ==> nullable == !field.required)
        },
        None => false,
    }
}

/// Whether the schema has every field that an expression reads.
pub open spec fn expression_fits(schema: SchemaView, fields: Seq<Seq<char>>) -> bool {
    forall|i: int| 0 <= i < fields.len() ==> schema.field_named(#[trigger] fields[i]) is Some
}

proof fn lemma_bindings_clean(schema: SchemaView, bindings: Seq<BindingView>)
    ensures
        bindings_drift(schema, bindings).len() == 0 <==> forall|i: int|
            0 <= i < bindings.len() ==> binding_fits(schema, #[trigger] bindings[i]),
    decreases bindings.len(),
{
    if bindings.len() > 0 {
        let rest = bindings.drop_last();
        lemma_bindings_clean(schema, rest);
        assert(binding_drift(schema, bindings.last()).len() == 0 <==> binding_fits(
            schema,
            bindings.last(),
        ));
        assert(forall|i: int| 0 <= i < rest.len() ==> rest[i] == #[trigger] bindings[i]);
        assert(bindings[bindings.len() - 1] == bindings.last());
        if bindings_drift(schema, bindings).len() == 0 {
            assert forall|i: int| 0 <= i < bindings.len() implies binding_fits(
                schema,
                #[trigger] bindings[i],
            ) by {
                if i < rest.len() {
                    assert(binding_fits(schema, rest[i]));
                }
            }
        }
    }
}

proof fn lemma_expression_clean(
    schema: SchemaView,
    expression: Seq<char>,
    fields: Seq<Seq<char>>,
)
    ensures
        expression_drift(schema, expression, fields).len() == 0 <==> expression_fits(
            schema,
            fields,
        ),
    decreases fields.len(),
{
    if fields.len() > 0 {
        let rest = fields.drop_last();
        lemma_expression_clean(schema, expression, rest);
        assert(forall|i: int| 0 <= i < rest.len() ==> rest[i] == #[trigger] fields[i]);
        assert(fields[fields.len() - 1] == fields.last());
        if expression_drift(schema, expression, fields).len() == 0 {
            assert forall|i: int| 0 <= i < fields.len() implies schema.field_named(
                #[trigger] fields[i],
            ) is Some by {
                if i < rest.len() {
                    assert(schema.field_named(rest[i]) is Some);
                }
            }
        }
    }
}

proof fn lemma_expressions_clean(
    schema: SchemaView,
    expressions: Seq<(Seq<char>, Seq<Seq<char>>)>,
)
    ensures
        expressions_drift(schema, expressions).len() == 0 <==> forall|k: int|
            0 <= k < expressions.len() ==> expression_fits(schema, (#[trigger] expressions[k]).1),
    decreases expressions.len(),
{
    if expressions.len() > 0 {
        let rest = expressions.drop_last();
        let last = expressions.last();
        lemma_expressions_clean(schema, rest);
        lemma_expression_clean(schema, last.0, last.1);
        assert(forall|k: int| 0 <= k < rest.len() ==> rest[k] == #[trigger] expressions[k]);
        assert(expressions[expressions.len() - 1] == last);
        if expressions_drift(schema, expressions).len() == 0 {
            assert forall|k: int| 0 <= k < expressions.len() implies expression_fits(
                schema,
                (#[trigger] expressions[k]).1,
            ) by {
                if k < rest.len() {
                    assert(expression_fits(schema, rest[k].1));
                }
            }
        }
    }
}

/// Validation succeeds exactly if every binding fits and every field of every expression exists.
pub proof fn validation_succeeds_iff_all_fits(
    schema: SchemaView,
    bindings: Seq<BindingView>,
    expressions: Seq<(Seq<char>, Seq<Seq<char>>)>,
)
    ensures
        drift(schema, bindings, expressions).len() == 0 <==> {
            &&& forall|i: int|
                0 <= i < bindings.len() ==> binding_fits(schema, #[trigger] bindings[i])
            &&& forall|k: int|
                0 <= k < expressions.len() ==> expression_fits(
                    schema,
                    (#[trigger] expressions[k]).1,
                )
        },
{
    lemma_bindings_clean(schema, bindings);
    lemma_expressions_clean(schema, expressions);
}

/// The drift of two lists of bindings is the drift of the first, then that of the second: what is
/// wrong with one binding hides nothing of another.
pub proof fn bindings_drift_adds_up(
    schema: SchemaView,
    first: Seq<BindingView>,
    second: Seq<BindingView>,
)
    ensures
        bindings_drift(schema, first + second) == bindings_drift(schema, first) + bindings_drift(
            schema,
            second,
        ),
    decreases second.len(),
{
    if second.len() == 0 {
        assert(first + second =~= first);
        assert(bindings_drift(schema, first) =~= bindings_drift(schema, first) + bindings_drift(
            schema,
            second,
        ));
    } else {
        bindings_drift_adds_up(schema, first, second.drop_last());
        assert((first + second).drop_last() =~= first + second.drop_last());
        assert(bindings_drift(schema, first + second) =~= bindings_drift(schema, first)
            + bindings_drift(schema, second));
    }
}

/// The drift of two lists of expressions is the drift of the first, then that of the second.
pub proof fn expressions_drift_adds_up(
    schema: SchemaView,
    first: Seq<(Seq<char>, Seq<Seq<char>>)>,
    second: Seq<(Seq<char>, Seq<Seq<char>>)>,
)
    ensures
        expressions_drift(schema, first + second) == expressions_drift(schema, first)
            + expressions_drift(schema, second),
    decreases second.len(),
{
    if second.len() == 0 {
        assert(first + second =~= first);
        assert(expressions_drift(schema, first) =~= expressions_drift(schema, first)
            + expressions_drift(schema, second));
    } else {
        expressions_drift_adds_up(schema, first, second.drop_last());
        assert((first + second).drop_last() =~= first + second.drop_last());
        assert(expressions_drift(schema, first + second) =~= expressions_drift(schema, first)
            + expressions_drift(schema, second));
    }
}

proof fn lemma_binding_drift_reported(
    schema: SchemaView,
    bindings: Seq<BindingView>,
    error: BindingErrorView,
)
    ensures
        bindings_drift(schema, bindings).contains(error) <==> exists|i: int|
            0 <= i < bindings.len() && binding_drift(schema, #[trigger] bindings[i]).contains(
                error,
            ),
    decreases bindings.len(),
{
    if bindings.len() > 0 {
        let rest = bindings.drop_last();
        let earlier = bindings_drift(schema, rest);
        let here = binding_drift(schema, bindings.last());
        lemma_binding_drift_reported(schema, rest, error);
        lemma_contains_concat(earlier, here, error);
        assert(forall|i: int| 0 <= i < rest.len() ==> rest[i] == #[trigger] bindings[i]);
        assert(bindings[bindings.len() - 1] == bindings.last());
        if earlier.contains(error) {
            let i = choose|i: int|
                0 <= i < rest.len() && binding_drift(schema, #[trigger] rest[i]).contains(error);
            assert(binding_drift(schema, bindings[i]).contains(error));
        }
        if exists|i: int|
            0 <= i < bindings.len() && binding_drift(schema, #[trigger] bindings[i]).contains(
                error,
            ) {
            let i = choose|i: int|
                0 <= i < bindings.len() && binding_drift(schema, #[trigger] bindings[i]).contains(
                    error,
                );
            if i < rest.len() {
                assert(binding_drift(schema, rest[i]).contains(error));
            }
        }
    }
}

proof fn lemma_contains_concat<A>(a: Seq<A>, b: Seq<A>, x: A)
    ensures
        (a + b).contains(x) <==> a.contains(x) || b.contains(x),
{
    if a.contains(x) {
        let i = choose|i: int| 0 <= i < a.len() && a[i] == x;
        assert((a + b)[i] == x);
    }
    if b.contains(x) {
        let i = choose|i: int| 0 <= i < b.len() && b[i] == x;
        assert((a + b)[a.len() + i] == x);
    }
    if (a + b).contains(x) {
        let i = choose|i: int| 0 <= i < (a + b).len() && (a + b)[i] == x;
        if i < a.len() {
            assert(a[i] == x);
        } else {
            assert(b[i - a.len()] == x);
        }
    }
}

/// Whether `error` says that some field of an expression is missing that is missing indeed.
pub open spec fn missing_in_expression(
    schema: SchemaView,
    expression: Seq<char>,
    fields: Seq<Seq<char>>,
    error: BindingErrorView,
) -> bool {
    error matches BindingErrorView::ExpressionFieldMissing { expression: e, field } && e
        == expression && fields.contains(field) && schema.field_named(field) is None
}

proof fn lemma_expression_drift_reported(
    schema: SchemaView,
    expression: Seq<char>,
    fields: Seq<Seq<char>>,
    error: BindingErrorView,
)
    ensures
        expression_drift(schema, expression, fields).contains(error) <==> missing_in_expression(
            schema,
            expression,
            fields,
            error,
        ),
    decreases fields.len(),
{
    if fields.len() > 0 {
        let rest = fields.drop_last();
        let last = fields.last();
        lemma_expression_drift_reported(schema, expression, rest, error);
        let earlier = expression_drift(schema, expression, rest);
        let new = BindingErrorView::ExpressionFieldMissing { expression, field: last };
        lemma_contains_concat(earlier, seq![new], error);
        assert(earlier.push(new) =~= earlier + seq![new]);
        assert(seq![new].contains(error) <==> error == new) by {
            assert(seq![new][0] == new);
        }
        assert(fields =~= rest + seq![last]);
        if let BindingErrorView::ExpressionFieldMissing { expression: e, field } = error {
            lemma_contains_concat(rest, seq![last], field);
            assert(seq![last].contains(field) <==> field == last) by {
                assert(seq![last][0] == last);
            }
        }
    }
}

proof fn lemma_expressions_drift_reported(
    schema: SchemaView,
    expressions: Seq<(Seq<char>, Seq<Seq<char>>)>,
    error: BindingErrorView,
)
    ensures
        expressions_drift(schema, expressions).contains(error) <==> exists|k: int|
            0 <= k < expressions.len() && missing_in_expression(
                schema,
                (#[trigger] expressions[k]).0,
                expressions[k].1,
                error,
            ),
    decreases expressions.len(),
{
    if expressions.len() > 0 {
        let rest = expressions.drop_last();
        let last = expressions.last();
        lemma_expressions_drift_reported(schema, rest, error);
        lemma_expression_drift_reported(schema, last.0, last.1, error);
        lemma_contains_concat(
            expressions_drift(schema, rest),
            expression_drift(schema, last.0, last.1),
            error,
        );
        assert(forall|k: int| 0 <= k < rest.len() ==> rest[k] == #[trigger] expressions[k]);
        assert(expressions[expressions.len() - 1] == last);
        if expressions_drift(schema, rest).contains(error) {
            let k = choose|k: int|
                0 <= k < rest.len() && missing_in_expression(
                    schema,
                    (#[trigger] rest[k]).0,
                    rest[k].1,
                    error,
                );
            assert(missing_in_expression(schema, expressions[k].0, expressions[k].1, error));
        }
        if exists|k: int|
            0 <= k < expressions.len() && missing_in_expression(
                schema,
                (#[trigger] expressions[k]).0,
                expressions[k].1,
                error,
            ) {
            let k = choose|k: int|
                0 <= k < expressions.len() && missing_in_expression(
                    schema,
                    (#[trigger] expressions[k]).0,
                    expressions[k].1,
                    error,
                );
            if k < rest.len() {
                assert(missing_in_expression(schema, rest[k].0, rest[k].1, error));
            }
        }
    }
}

/// Validation reports all drift and nothing else: an error is reported exactly if it is the drift
/// of some binding, or names a field of some expression that the schema lacks.
pub proof fn all_drift_is_reported(
    schema: SchemaView,
    bindings: Seq<BindingView>,
    expressions: Seq<(Seq<char>, Seq<Seq<char>>)>,
    error: BindingErrorView,
)
    ensures
        drift(schema, bindings, expressions).contains(error) <==> {
            ||| exists|i: int|
                0 <= i < bindings.len() && binding_drift(schema, #[trigger] bindings[i]).contains(
                    error,
                )
            ||| exists|k: int|
                0 <= k < expressions.len() && missing_in_expression(
                    schema,
                    (#[trigger] expressions[k]).0,
                    expressions[k].1,
                    error,
                )
        },
{
    lemma_binding_drift_reported(schema, bindings, error);
    lemma_expressions_drift_reported(schema, expressions, error);
    lemma_contains_concat(
        bindings_drift(schema, bindings),
        expressions_drift(schema, expressions),
        error,
    );
}

/// A mismatch of the type does not hide one of the nullability: a binding whose field mismatches
/// in both has two errors.
pub proof fn both_mismatches_are_reported(
    schema: SchemaView,
    binding: BindingView,
    field: FieldView,
)
    requires
        schema.field_named(binding.name) == Some(field),
        binding.expected_type matches Some(expected) && *field.field_type != expected,
        binding.nullable == Some(field.required),
    ensures
        binding_drift(schema, binding).len() == 2,
        binding_drift(schema, binding)[0] is TypeMismatch,
        binding_drift(schema, binding)[1] is NullabilityMismatch,
{
    assert(type_drift(binding, field).len() == 1);
    assert(nullability_drift(binding, field).len() == 1);
}

/// In a schema whose fields have distinct names, each field is found by its name.
pub proof fn fields_are_found_by_name(schema: SchemaView, i: int)
    requires
        schema.names_distinct(),
        0 <= i < schema.fields.len(),
    ensures
        schema.field_named(schema.fields[i].name) == Some(schema.fields[i]),
{
    let p = |f: FieldView| f.name == schema.fields[i].name;
    lemma_find_first(schema.fields, p);
    assert(p(schema.fields[i]));
    let k = find_first(schema.fields, p)->0;
    assert(schema.fields[k].name == schema.fields[i].name);
    assert(k == i);
}

/// The highest field id of a schema with fields is one of its field ids, and no field id of the
/// schema exceeds it.
pub proof fn highest_field_id_is_greatest(schema: SchemaView)
    requires
        schema.fields.len() > 0,
    ensures
        fields_ids(schema.fields).contains(schema.highest_field_id()),
        forall|i: int|
            0 <= i < fields_ids(schema.fields).len() ==> #[trigger] fields_ids(schema.fields)[i]
                <= schema.highest_field_id(),
        forall|i: int|
            0 <= i < schema.fields.len() ==> (#[trigger] schema.fields[i]).id
                <= schema.highest_field_id(),
{
    let ids = fields_ids(schema.fields);
    lemma_greatest(ids);
    assert(ids.len() > 0);
    assert forall|i: int| 0 <= i < schema.fields.len() implies (#[trigger] schema.fields[i]).id
        <= schema.highest_field_id() by {
        lemma_field_id_occurs(schema.fields, i);
        let j = choose|j: int| 0 <= j < ids.len() && ids[j] == schema.fields[i].id;
        assert(ids[j] <= schema.highest_field_id());
    }
}

proof fn lemma_field_id_occurs(fields: Seq<FieldView>, i: int)
    requires
        0 <= i < fields.len(),
    ensures
        fields_ids(fields).contains(fields[i].id),
    decreases fields.len(),
{
    let rest = fields.drop_last();
    let own = seq![fields.last().id] + type_ids(*fields.last().field_type);
    lemma_contains_concat(fields_ids(rest), own, fields[i].id);
    if i < rest.len() {
        lemma_field_id_occurs(rest, i);
    } else {
        assert(own[0] == fields[i].id);
    }
}

/// Looking up a name gives the first top-level field that has it, and gives none exactly if no
/// top-level field has it.
pub proof fn lookup_finds_the_name(schema: SchemaView, name: Seq<char>)
    ensures
        match schema.field_named(name) {
            Some(field) => field.name == name && exists|i: int|
                #![trigger schema.fields[i]]
                0 <= i < schema.fields.len() && schema.fields[i] == field && forall|j: int|
                    0 <= j < i ==> (#[trigger] schema.fields[j]).name != name,
            None => forall|i: int|
                0 <= i < schema.fields.len() ==> (#[trigger] schema.fields[i]).name != name,
        },
{
    let p = |f: FieldView| f.name == name;
    lemma_find_first(schema.fields, p);
    match find_first(schema.fields, p) {
        Some(i) => {
            assert(p(schema.fields[i]));
            assert forall|j: int| 0 <= j < i implies (#[trigger] schema.fields[j]).name != name by {
                assert(!p(schema.fields[j]));
            }
        },
        None => {
            assert forall|j: int| 0 <= j < schema.fields.len() implies (
            #[trigger] schema.fields[j]).name != name by {
                assert(!p(schema.fields[j]));
            }
        },
    }
}

/// The first field with a name is the one that looking up the name gives.
proof fn lemma_lookup_first(schema: SchemaView, name: Seq<char>, k: int)
    requires
        0 <= k < schema.fields.len(),
        schema.fields[k].name == name,
        forall|j: int| 0 <= j < k ==> (#[trigger] schema.fields[j]).name != name,
    ensures
        schema.field_named(name) == Some(schema.fields[k]),
{
    lookup_finds_the_name(schema, name);
    let i = choose|i: int|
        #![trigger schema.fields[i]]
        0 <= i < schema.fields.len() && schema.fields[i] == schema.field_named(name)->0 && forall|
            j: int,
        |
            0 <= j < i ==> (#[trigger] schema.fields[j]).name != name;
    assert(i == k);
}

/// Where nothing is expected, nothing has drifted. The drift of bindings comes first, then that of
/// expressions; each is the drift of the first part of the list, then that of the rest, and an
/// expression drifts field by field.
pub proof fn drift_adds_up(
    schema: SchemaView,
    bindings: Seq<BindingView>,
    more_bindings: Seq<BindingView>,
    expressions: Seq<(Seq<char>, Seq<Seq<char>>)>,
    more_expressions: Seq<(Seq<char>, Seq<Seq<char>>)>,
)
    ensures
        drift(schema, Seq::empty(), Seq::empty()) == Seq::<BindingErrorView>::empty(),
        drift(schema, bindings, expressions) == drift(schema, bindings, Seq::empty()) + drift(
            schema,
            Seq::empty(),
            expressions,
        ),
        drift(schema, bindings + more_bindings, Seq::empty()) == drift(
            schema,
            bindings,
            Seq::empty(),
        ) + drift(schema, more_bindings, Seq::empty()),
        drift(schema, Seq::empty(), expressions + more_expressions) == drift(
            schema,
            Seq::empty(),
            expressions,
        ) + drift(schema, Seq::empty(), more_expressions),
{
    bindings_drift_adds_up(schema, bindings, more_bindings);
    expressions_drift_adds_up(schema, expressions, more_expressions);
    lemma_drift_parts(schema, Seq::empty(), Seq::empty());
    lemma_drift_parts(schema, bindings, expressions);
    lemma_drift_parts(schema, more_bindings, more_expressions);
    lemma_drift_parts(schema, bindings + more_bindings, expressions + more_expressions);
}

/// The drift of bindings alone and that of expressions alone.
proof fn lemma_drift_parts(
    schema: SchemaView,
    bindings: Seq<BindingView>,
    expressions: Seq<(Seq<char>, Seq<Seq<char>>)>,
)
    ensures
        drift(schema, bindings, Seq::empty()) == bindings_drift(schema, bindings),
        drift(schema, Seq::empty(), expressions) == expressions_drift(schema, expressions),
{
    assert(drift(schema, bindings, Seq::empty()) =~= bindings_drift(schema, bindings));
    assert(drift(schema, Seq::empty(), expressions) =~= expressions_drift(schema, expressions));
}

/// A binding whose name no field has is reported as missing, and in no other way.
pub proof fn missing_field_is_reported(schema: SchemaView, binding: BindingView)
    requires
        forall|i: int|
            0 <= i < schema.fields.len() ==> (#[trigger] schema.fields[i]).name != binding.name,
    ensures
        drift(schema, seq![binding], Seq::empty()) == seq![
            BindingErrorView::MissingField(binding.name),
        ],
{
    lookup_finds_the_name(schema, binding.name);
    lemma_single_binding(schema, binding);
}

proof fn lemma_single_binding(schema: SchemaView, binding: BindingView)
    ensures
        drift(schema, seq![binding], Seq::empty()) == binding_drift(schema, binding),
{
    lemma_drift_parts(schema, seq![binding], Seq::empty());
    assert(seq![binding].drop_last() =~= Seq::empty());
    assert(bindings_drift(schema, seq![binding].drop_last()) =~= Seq::empty());
    assert(bindings_drift(schema, seq![binding]) =~= binding_drift(schema, binding));
}

/// Of a binding whose name some field has, exactly the mismatches with the first such field are
/// reported: first that of the type, if the binding expects one and the field has another, with
/// the texts of both; then that of the nullability, if the binding expects one and the field, which
/// may be null exactly if it is not required, has the other.
pub proof fn mismatches_are_reported(schema: SchemaView, binding: BindingView, k: int)
    requires
        0 <= k < schema.fields.len(),
        schema.fields[k].name == binding.name,
        forall|j: int| 0 <= j < k ==> (#[trigger] schema.fields[j]).name != binding.name,
    ensures
        ({
            let errors = drift(schema, seq![binding], Seq::empty());
            let actual = *schema.fields[k].field_type;
            let nullable = !schema.fields[k].required;
            let wrong_type = binding.expected_type is Some && binding.expected_type != Some(actual);
            let wrong_nullability = binding.nullable == Some(!nullable);
            let of_type = BindingErrorView::TypeMismatch {
                field: binding.name,
                expected: type_text(binding.expected_type->0),
                actual: type_text(actual),
            };
            let of_nullability = BindingErrorView::NullabilityMismatch {
                field: binding.name,
                expected_nullable: !nullable,
                actual_nullable: nullable,
            };
            &&& wrong_type && wrong_nullability ==> errors == seq![of_type, of_nullability]
            &&& wrong_type && !wrong_nullability ==> errors == seq![of_type]
            &&& !wrong_type && wrong_nullability ==> errors == seq![of_nullability]
            &&& !wrong_type && !wrong_nullability ==> errors == Seq::<BindingErrorView>::empty()
        }),
{
    lemma_lookup_first(schema, binding.name, k);
    lemma_single_binding(schema, binding);
}

/// A field that an expression reads is reported as missing, with the expression, if no field has
/// its name, and not at all otherwise. Several fields are reported in their order.
pub proof fn missing_expression_fields_are_reported(
    schema: SchemaView,
    expression: Seq<char>,
    name: Seq<char>,
    fields: Seq<Seq<char>>,
    more_fields: Seq<Seq<char>>,
)
    ensures
        (forall|i: int| 0 <= i < schema.fields.len() ==> (#[trigger] schema.fields[i]).name != name)
            ==> drift(schema, Seq::empty(), seq![(expression, seq![name])]) == seq![
            BindingErrorView::ExpressionFieldMissing { expression, field: name },
        ],
        (exists|i: int| 0 <= i < schema.fields.len() && (#[trigger] schema.fields[i]).name == name)
            ==> drift(schema, Seq::empty(), seq![(expression, seq![name])]) == Seq::<
            BindingErrorView,
        >::empty(),
        drift(schema, Seq::empty(), seq![(expression, Seq::empty())]) == Seq::<
            BindingErrorView,
        >::empty(),
        drift(schema, Seq::empty(), seq![(expression, fields + more_fields)]) == drift(
            schema,
            Seq::empty(),
            seq![(expression, fields)],
        ) + drift(schema, Seq::empty(), seq![(expression, more_fields)]),
{
    lookup_finds_the_name(schema, name);
    lemma_single_expression(schema, expression, seq![name]);
    lemma_single_expression(schema, expression, Seq::empty());
    lemma_single_expression(schema, expression, fields);
    lemma_single_expression(schema, expression, more_fields);
    lemma_single_expression(schema, expression, fields + more_fields);
    assert(seq![name].drop_last() =~= Seq::empty());
    assert(expression_drift(schema, expression, seq![name].drop_last()) =~= Seq::empty());
    lemma_expression_drift_adds_up(schema, expression, fields, more_fields);
}

proof fn lemma_single_expression(
    schema: SchemaView,
    expression: Seq<char>,
    fields: Seq<Seq<char>>,
)
    ensures
        drift(schema, Seq::empty(), seq![(expression, fields)]) == expression_drift(
            schema,
            expression,
            fields,
        ),
{
    let single = seq![(expression, fields)];
    lemma_drift_parts(schema, Seq::empty(), single);
    assert(single.drop_last() =~= Seq::empty());
    assert(expressions_drift(schema, single.drop_last()) =~= Seq::empty());
    assert(expressions_drift(schema, single) =~= expression_drift(schema, expression, fields));
}

proof fn lemma_expression_drift_adds_up(
    schema: SchemaView,
    expression: Seq<char>,
    first: Seq<Seq<char>>,
    second: Seq<Seq<char>>,
)
    ensures
        expression_drift(schema, expression, first + second) == expression_drift(
            schema,
            expression,
            first,
        ) + expression_drift(schema, expression, second),
    decreases second.len(),
{
    if second.len() == 0 {
        assert(first + second =~= first);
    } else {
        lemma_expression_drift_adds_up(schema, expression, first, second.drop_last());
        assert((first + second).drop_last() =~= first + second.drop_last());
    }
    assert(expression_drift(schema, expression, first + second) =~= expression_drift(
        schema,
        expression,
        first,
    ) + expression_drift(schema, expression, second));
}

/// A name that no field has makes validation fail wherever it is used: as missing if a binding has
/// it, and as missing in each expression that reads it. A name that some field has is never
/// reported as missing.
pub proof fn exactly_absent_names_are_missing(
    schema: SchemaView,
    bindings: Seq<BindingView>,
    expressions: Seq<(Seq<char>, Seq<Seq<char>>)>,
    expression: Seq<char>,
    name: Seq<char>,
)
    ensures
        ({
            let errors = drift(schema, bindings, expressions);
            let absent = forall|i: int|
                0 <= i < schema.fields.len() ==> (#[trigger] schema.fields[i]).name != name;
            &&& errors.contains(BindingErrorView::MissingField(name)) <==> absent && exists|i: int|
                0 <= i < bindings.len() && (#[trigger] bindings[i]).name == name
            &&& errors.contains(
                BindingErrorView::ExpressionFieldMissing { expression, field: name },
            ) <==> absent && exists|k: int|
                0 <= k < expressions.len() && (#[trigger] expressions[k]).0 == expression
                    && expressions[k].1.contains(name)
        }),
{
    let missing = BindingErrorView::MissingField(name);
    let unread = BindingErrorView::ExpressionFieldMissing { expression, field: name };
    lookup_finds_the_name(schema, name);
    all_drift_is_reported(schema, bindings, expressions, missing);
    all_drift_is_reported(schema, bindings, expressions, unread);
    assert forall|i: int| 0 <= i < bindings.len() implies {
        &&& binding_drift(schema, #[trigger] bindings[i]).contains(missing) <==> (bindings[i].name
            == name && schema.field_named(name) is None)
        &&& !binding_drift(schema, bindings[i]).contains(unread)
    } by {
        let errors = binding_drift(schema, bindings[i]);
        if errors.contains(missing) {
            let j = choose|j: int| 0 <= j < errors.len() && errors[j] == missing;
            assert(errors[j] is MissingField);
        }
        if errors.contains(unread) {
            let j = choose|j: int| 0 <= j < errors.len() && errors[j] == unread;
            assert(errors[j] is ExpressionFieldMissing);
        }
        if bindings[i].name == name && schema.field_named(name) is None {
            assert(errors[0] == missing);
        }
    }
    if schema.field_named(name) is None {
        if exists|i: int| 0 <= i < bindings.len() && (#[trigger] bindings[i]).name == name {
            let i = choose|i: int| 0 <= i < bindings.len() && (#[trigger] bindings[i]).name == name;
            assert(binding_drift(schema, bindings[i]).contains(missing));
        }
        if exists|k: int|
            0 <= k < expressions.len() && (#[trigger] expressions[k]).0 == expression
                && expressions[k].1.contains(name) {
            let k = choose|k: int|
                0 <= k < expressions.len() && (#[trigger] expressions[k]).0 == expression
                    && expressions[k].1.contains(name);
            assert(missing_in_expression(schema, expressions[k].0, expressions[k].1, unread));
        }
    }
}

/// The highest field id depends on the fields alone. Without fields it is zero, and of two lists of
/// fields in one schema it is the greater of theirs.
pub proof fn highest_field_id_of_lists(schema: SchemaView, more: SchemaView)
    ensures
        schema.fields.len() == 0 ==> schema.highest_field_id() == 0,
        schema.fields == more.fields ==> schema.highest_field_id() == more.highest_field_id(),
        schema.fields.len() > 0 && more.fields.len() > 0 ==> {
            let both = SchemaView { fields: schema.fields + more.fields, ..schema };
            &&& both.highest_field_id() >= schema.highest_field_id()
            &&& both.highest_field_id() >= more.highest_field_id()
            &&& both.highest_field_id() == schema.highest_field_id() || both.highest_field_id()
                == more.highest_field_id()
        },
{
    lemma_fields_ids_concat(schema.fields, more.fields);
    lemma_greatest_concat(fields_ids(schema.fields), fields_ids(more.fields));
    lemma_some_greatest(schema.fields);
    lemma_some_greatest(more.fields);
}

/// The highest field id of one field is the greater of its own id and the highest among the fields
/// nested in its type, be it a struct, a list or a map.
pub proof fn highest_field_id_of_field(schema: SchemaView, field: FieldView)
    ensures
        ({
            let alone = SchemaView { fields: seq![field], ..schema };
            let nested = SchemaView {
                fields: match *field.field_type {
                    TypeView::Primitive(_) => Seq::empty(),
                    TypeView::Struct(fields) => fields,
                    TypeView::List(element) => seq![*element],
                    TypeView::Mapping(key, value) => seq![*key, *value],
                },
                ..schema
            };
            &&& nested.fields.len() == 0 ==> alone.highest_field_id() == field.id
            &&& nested.fields.len() > 0 ==> {
                &&& alone.highest_field_id() >= field.id
                &&& alone.highest_field_id() >= nested.highest_field_id()
                &&& alone.highest_field_id() == field.id || alone.highest_field_id()
                    == nested.highest_field_id()
            }
        }),
{
    let nested = match *field.field_type {
        TypeView::Primitive(_) => Seq::empty(),
        TypeView::Struct(fields) => fields,
        TypeView::List(element) => seq![*element],
        TypeView::Mapping(key, value) => seq![*key, *value],
    };
    lemma_type_ids(*field.field_type, nested);
    lemma_single_field_ids(field);
    lemma_some_greatest(nested);
    lemma_greatest_concat(seq![field.id], fields_ids(nested));
    assert(seq![field.id].drop_last() =~= Seq::<i32>::empty());
    assert(greatest(seq![field.id].drop_last()) is None);
    assert(greatest(seq![field.id]) == Some(field.id));
}

/// The ids that occur in a type are those of its nested fields.
proof fn lemma_type_ids(t: TypeView, nested: Seq<FieldView>)
    requires
        nested == match t {
            TypeView::Primitive(_) => Seq::empty(),
            TypeView::Struct(fields) => fields,
            TypeView::List(element) => seq![*element],
            TypeView::Mapping(key, value) => seq![*key, *value],
        },
    ensures
        type_ids(t) == fields_ids(nested),
{
    match t {
        TypeView::Primitive(_) => {
            assert(type_ids(t) =~= fields_ids(nested));
        },
        TypeView::Struct(_) => {},
        TypeView::List(element) => {
            lemma_single_field_ids(*element);
        },
        TypeView::Mapping(key, value) => {
            lemma_single_field_ids(*key);
            lemma_single_field_ids(*value);
            lemma_fields_ids_concat(seq![*key], seq![*value]);
            assert(seq![*key] + seq![*value] =~= seq![*key, *value]);
        },
    }
}

/// Some id occurs in fields, and is the greatest, exactly if there are fields.
proof fn lemma_some_greatest(fields: Seq<FieldView>)
    ensures
        greatest(fields_ids(fields)) is Some <==> fields.len() > 0,
{
    lemma_greatest(fields_ids(fields));
    if fields.len() > 0 {
        lemma_field_id_occurs(fields, 0);
    }
}

proof fn lemma_single_field_ids(field: FieldView)
    ensures
        fields_ids(seq![field]) == seq![field.id] + type_ids(*field.field_type),
{
    assert(seq![field].drop_last() =~= Seq::empty());
    assert(fields_ids(seq![field].drop_last()) =~= Seq::<i32>::empty());
    assert(fields_ids(seq![field]) =~= seq![field.id] + type_ids(*field.field_type));
}

proof fn lemma_fields_ids_concat(first: Seq<FieldView>, second: Seq<FieldView>)
    ensures
        fields_ids(first + second) == fields_ids(first) + fields_ids(second),
    decreases second.len(),
{
    if second.len() == 0 {
        assert(first + second =~= first);
    } else {
        lemma_fields_ids_concat(first, second.drop_last());
        assert((first + second).drop_last() =~= first + second.drop_last());
    }
    assert(fields_ids(first + second) =~= fields_ids(first) + fields_ids(second));
}

} // verus!
