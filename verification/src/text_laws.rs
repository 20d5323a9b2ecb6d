//! What the texts of numbers, types and errors look like.
use crate::error::{error_text, ApplyErrorView};
use crate::text::{decimal, digit_char, numeral};
use crate::types::{field_types_text, type_text, FieldView, PrimitiveType, TypeView};
use vstd::prelude::*;

verus! {

/// The text of a number below ten is its digit; a further digit makes ten times the number and
/// that digit; and a minus sign makes the number negative.
pub proof fn decimal_is_positional(n: int, digit: int)
    requires
        n > 0,
        0 <= digit < 10,
    ensures
        decimal(digit) == seq!["0123456789"@[digit]],
        decimal(10 * n + digit) == decimal(n) + decimal(digit),
        decimal(-n) == seq!['-'] + decimal(n),
{
    reveal_strlit("0123456789");
    assert((10 * n + digit) / 10 == n);
    assert((10 * n + digit) % 10 == digit);
    assert(decimal(10 * n + digit) =~= decimal(n) + decimal(digit));
}

proof fn lemma_numeral_distinct(a: nat, b: nat)
    requires
        numeral(a) == numeral(b),
    ensures
        a == b,
    decreases a,
{
    lemma_numeral_starts_with_digit(a / 10);
    lemma_numeral_starts_with_digit(b / 10);
    assert(numeral(a).last() == digit_char((a % 10) as int));
    assert(numeral(b).last() == digit_char((b % 10) as int));
    if a >= 10 && b >= 10 {
        assert(numeral(a).drop_last() =~= numeral(a / 10));
        assert(numeral(b).drop_last() =~= numeral(b / 10));
        lemma_numeral_distinct(a / 10, b / 10);
    }
}

proof fn lemma_numeral_starts_with_digit(n: nat)
    ensures
        numeral(n).len() > 0,
        numeral(n)[0] != '-',
    decreases n,
{
    if n >= 10 {
        lemma_numeral_starts_with_digit(n / 10);
    }
}

/// Different numbers have different texts.
pub proof fn decimal_tells_numbers_apart(a: int, b: int)
    ensures
        decimal(a) == decimal(b) <==> a == b,
{
    if decimal(a) == decimal(b) {
        let x = if a < 0 {
            -a
        } else {
            a
        };
        let y = if b < 0 {
            -b
        } else {
            b
        };
        lemma_numeral_starts_with_digit(x as nat);
        lemma_numeral_starts_with_digit(y as nat);
        if a < 0 {
            assert(decimal(a)[0] == '-');
            assert(decimal(a).skip(1) =~= numeral(x as nat));
        }
        if b < 0 {
            assert(decimal(b)[0] == '-');
            assert(decimal(b).skip(1) =~= numeral(y as nat));
        }
        lemma_numeral_distinct(x as nat, y as nat);
    }
}

/// The text of each type: a primitive type has its name, with its parameters if it has any; a
/// list and a map show no more than what they are; and a struct without fields shows nothing
/// between its brackets.
pub proof fn type_texts(t: TypeView)
    ensures
        match t {
            TypeView::Primitive(p) => type_text(t) == match p {
                PrimitiveType::Boolean => "boolean"@,
                PrimitiveType::Int => "int"@,
                PrimitiveType::Long => "long"@,
                PrimitiveType::Float => "float"@,
                PrimitiveType::Double => "double"@,
                PrimitiveType::Decimal { precision, scale } => "decimal("@ + decimal(
                    precision as int,
                ) + ","@ + decimal(scale as int) + ")"@,
                PrimitiveType::Date => "date"@,
                PrimitiveType::Time => "time"@,
                PrimitiveType::Timestamp => "timestamp"@,
                PrimitiveType::Timestamptz => "timestamptz"@,
                PrimitiveType::TimestampNs => "timestamp_ns"@,
                PrimitiveType::TimestamptzNs => "timestamptz_ns"@,
                PrimitiveType::String => "string"@,
                PrimitiveType::Uuid => "uuid"@,
                PrimitiveType::Fixed(length) => "fixed("@ + decimal(length as int) + ")"@,
                PrimitiveType::Binary => "binary"@,
            },
            TypeView::Struct(fields) => fields.len() == 0 ==> type_text(t) == "struct<"@ + ">"@,
            TypeView::List(_) => type_text(t) == "list"@,
            TypeView::Mapping(_, _) => type_text(t) == "map"@,
        },
{
    if let TypeView::Struct(fields) = t {
        if fields.len() == 0 {
            assert(field_types_text(fields) =~= Seq::empty());
            assert(type_text(t) =~= "struct<"@ + ">"@);
        }
    }
}

/// A further field of a struct adds the text of its type before the closing bracket.
pub proof fn struct_text_grows(fields: Seq<FieldView>, field: FieldView)
    ensures
        type_text(TypeView::Struct(fields.push(field))) == type_text(
            TypeView::Struct(fields),
        ).drop_last() + type_text(*field.field_type) + ">"@,
{
    reveal_strlit(">");
    let more = fields.push(field);
    assert(more.drop_last() =~= fields);
    assert(more.last() == field);
    assert(field_types_text(more) == field_types_text(fields) + type_text(*field.field_type));
    assert(type_text(TypeView::Struct(fields)).drop_last() =~= "struct<"@ + field_types_text(
        fields,
    ));
    assert(type_text(TypeView::Struct(more)) =~= type_text(TypeView::Struct(fields)).drop_last()
        + type_text(*field.field_type) + ">"@);
}

/// The text of an error says what kind it is and ends with its message.
pub proof fn error_texts(message: Seq<char>)
    ensures
        error_text(ApplyErrorView::Plan(message)) == "Error during planning: "@ + message,
        error_text(ApplyErrorView::NotImplemented(message)) == "This feature is not implemented: "@
            + message,
{
}

} // verus!
