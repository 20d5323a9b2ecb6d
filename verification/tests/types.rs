use std::sync::Arc;
use table_commit::schema::{Schema, SchemaError};
use table_commit::types::{
    ListType, MapType, NestedField, NestedFieldRef, PrimitiveType, StructType, Type,
};

fn field(id: i32, name: &str, field_type: Type) -> NestedFieldRef {
    Arc::new(NestedField::required(id, name, field_type))
}

fn primitive(p: PrimitiveType) -> Type {
    Type::Primitive(p)
}

fn nested() -> Type {
    Type::Struct(StructType {
        fields: vec![
            field(3, "a", primitive(PrimitiveType::Int)),
            field(
                4,
                "b",
                Type::List(ListType {
                    element_field: field(12, "element", primitive(PrimitiveType::Date)),
                }),
            ),
            field(
                5,
                "c",
                Type::Mapping(MapType {
                    key_field: field(6, "key", primitive(PrimitiveType::String)),
                    value_field: field(7, "value", primitive(PrimitiveType::Uuid)),
                }),
            ),
        ],
    })
}

#[test]
fn type_texts() {
    let texts = [
        (PrimitiveType::Boolean, "boolean"),
        (PrimitiveType::Int, "int"),
        (PrimitiveType::Long, "long"),
        (PrimitiveType::Float, "float"),
        (PrimitiveType::Double, "double"),
        (
            PrimitiveType::Decimal {
                precision: 38,
                scale: 0,
            },
            "decimal(38,0)",
        ),
        (PrimitiveType::Date, "date"),
        (PrimitiveType::Time, "time"),
        (PrimitiveType::Timestamp, "timestamp"),
        (PrimitiveType::Timestamptz, "timestamptz"),
        (PrimitiveType::TimestampNs, "timestamp_ns"),
        (PrimitiveType::TimestamptzNs, "timestamptz_ns"),
        (PrimitiveType::String, "string"),
        (PrimitiveType::Uuid, "uuid"),
        (PrimitiveType::Fixed(u64::MAX), "fixed(18446744073709551615)"),
        (PrimitiveType::Binary, "binary"),
    ];
    for (p, text) in texts {
        assert_eq!(primitive(p).to_string(), text);
    }
    assert_eq!(nested().to_string(), "struct<intlistmap>");
}

#[test]
fn types_are_compared_through_all_levels() {
    assert!(nested() == nested());
    assert!(nested() == nested().clone());
    assert!(nested() != primitive(PrimitiveType::Int));
    let mut other = nested();
    if let Type::Struct(s) = &mut other {
        s.fields[1] = field(
            4,
            "b",
            Type::List(ListType {
                element_field: field(12, "element", primitive(PrimitiveType::Time)),
            }),
        );
    }
    assert!(nested() != other);
    let mut documented = NestedField::optional(1, "x", nested());
    documented.doc = Some("text".to_string());
    let plain = NestedField::optional(1, "x", nested());
    let wrap = |f: NestedField| {
        Type::List(ListType {
            element_field: Arc::new(f),
        })
    };
    assert!(wrap(documented.clone()) == wrap(documented.clone()));
    assert!(wrap(documented) != wrap(plain));
}

#[test]
fn highest_field_id_looks_into_nested_types() {
    let schema = Schema::builder()
        .with_fields(vec![field(2, "n", nested())])
        .build()
        .unwrap();
    assert_eq!(schema.highest_field_id(), 12);
    let empty = Schema::builder().build().unwrap();
    assert_eq!(empty.highest_field_id(), 0);
    let negative = Schema::builder()
        .with_fields(vec![field(-7, "n", primitive(PrimitiveType::Int))])
        .build()
        .unwrap();
    assert_eq!(negative.highest_field_id(), -7);
}

#[test]
fn fields_are_found_by_name() {
    let schema = Schema::builder()
        .with_schema_id(9)
        .with_fields(vec![field(1, "a", primitive(PrimitiveType::Int))])
        .with_fields(vec![field(2, "b", nested())])
        .with_identifier_field_ids(vec![1])
        .build()
        .unwrap();
    assert_eq!(schema.schema_id(), 9);
    assert_eq!(schema.fields().len(), 2);
    assert_eq!(schema.identifier_field_ids(), &vec![1]);
    assert_eq!(schema.field_by_name("a").map(|f| f.id), Some(1));
    assert_eq!(schema.field_by_name("b").map(|f| f.id), Some(2));
    assert!(schema.field_by_name("c").is_none());
}

#[test]
fn repeated_field_names_are_refused() {
    let fields = ["a", "b", "c", "b", "a"];
    let result = Schema::builder()
        .with_fields(
            fields
                .iter()
                .map(|name| field(1, name, primitive(PrimitiveType::Int)))
                .collect(),
        )
        .build();
    assert_eq!(
        result.map(|s| s.schema_id()),
        Err(SchemaError::DuplicateFieldName("b".to_string()))
    );
}
