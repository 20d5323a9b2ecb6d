use std::sync::Arc;
use table_commit::schema::Schema;
use table_commit::semantic_binding::{
    validate_physical_bindings, PhysicalBindingError, PhysicalFieldBinding,
};
use table_commit::types::{NestedField, PrimitiveType, Type};

fn schema() -> Schema {
    Schema::builder()
        .with_fields(vec![
            Arc::new(NestedField::required(
                1,
                "id",
                Type::Primitive(PrimitiveType::Long),
            )),
            Arc::new(NestedField::optional(
                2,
                "amount",
                Type::Primitive(PrimitiveType::Double),
            )),
        ])
        .build()
        .unwrap()
}

#[test]
fn validates_and_reports_all_drift() {
    assert!(validate_physical_bindings(
        &schema(),
        &[PhysicalFieldBinding {
            name: "amount",
            expected_type: Some(&Type::Primitive(PrimitiveType::Double)),
            nullable: Some(true)
        }],
        &[("SUM(amount)", &["amount"])]
    )
    .is_ok());
    let errors = validate_physical_bindings(
        &schema(),
        &[
            PhysicalFieldBinding {
                name: "missing",
                expected_type: None,
                nullable: None,
            },
            PhysicalFieldBinding {
                name: "id",
                expected_type: Some(&Type::Primitive(PrimitiveType::String)),
                nullable: Some(true),
            },
        ],
        &[("SUM(ghost)", &["ghost"])],
    )
    .unwrap_err();
    assert_eq!(errors.len(), 4);
}

#[test]
fn drift_is_reported_in_order_with_its_texts() {
    let errors = validate_physical_bindings(
        &schema(),
        &[
            PhysicalFieldBinding {
                name: "missing",
                expected_type: Some(&Type::Primitive(PrimitiveType::Int)),
                nullable: Some(true),
            },
            PhysicalFieldBinding {
                name: "id",
                expected_type: Some(&Type::Primitive(PrimitiveType::String)),
                nullable: Some(true),
            },
            PhysicalFieldBinding {
                name: "amount",
                expected_type: Some(&Type::Primitive(PrimitiveType::Double)),
                nullable: None,
            },
        ],
        &[
            ("SUM(ghost)", &["amount", "ghost"]),
            ("a + b", &["a", "id", "b"]),
        ],
    )
    .unwrap_err();
    assert_eq!(
        errors,
        vec![
            PhysicalBindingError::MissingField("missing".to_string()),
            PhysicalBindingError::TypeMismatch {
                field: "id".to_string(),
                expected: "string".to_string(),
                actual: "long".to_string(),
            },
            PhysicalBindingError::NullabilityMismatch {
                field: "id".to_string(),
                expected_nullable: true,
                actual_nullable: false,
            },
            PhysicalBindingError::ExpressionFieldMissing {
                expression: "SUM(ghost)".to_string(),
                field: "ghost".to_string(),
            },
            PhysicalBindingError::ExpressionFieldMissing {
                expression: "a + b".to_string(),
                field: "a".to_string(),
            },
            PhysicalBindingError::ExpressionFieldMissing {
                expression: "a + b".to_string(),
                field: "b".to_string(),
            },
        ]
    );
}

#[test]
fn nothing_to_check_is_valid() {
    assert!(validate_physical_bindings(&schema(), &[], &[]).is_ok());
    assert!(validate_physical_bindings(&schema(), &[], &[("1", &[])]).is_ok());
}

#[test]
fn names_are_compared_whole() {
    let errors = validate_physical_bindings(
        &schema(),
        &[],
        &[("e", &["i", "idx", "ID", "", "id"])],
    )
    .unwrap_err();
    assert_eq!(errors.len(), 4);
}

#[test]
fn drift_of_two_lists_adds_up() {
    let binding = |name| PhysicalFieldBinding {
        name,
        expected_type: Some(&Type::Primitive(PrimitiveType::Double)),
        nullable: Some(false),
    };
    let errors = |bindings: &[PhysicalFieldBinding<'_>], expressions: &[(&str, &[&str])]| {
        validate_physical_bindings(&schema(), bindings, expressions).unwrap_err()
    };
    let mut apart = errors(&[binding("id")], &[]);
    apart.extend(errors(&[binding("amount"), binding("gone")], &[]));
    apart.extend(errors(&[], &[("f", &["y"])]));
    apart.extend(errors(&[], &[("g", &["z"])]));
    let together = errors(
        &[binding("id"), binding("amount"), binding("gone")],
        &[("f", &["y"]), ("g", &["z"])],
    );
    assert_eq!(together, apart);
    assert_eq!(together.len(), 5);
}
