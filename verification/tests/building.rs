//! The type graph builder: struct extraction, arrays, composites.

use hsr_codegen::builder::{build_type, combine_types};
use hsr_codegen::doc::{ObjectSchema, RefOr, Schema, SchemaKind, SchemaLookup, SchemaMeta};
use hsr_codegen::error::Error;
use hsr_codegen::ir::{Struct, StructOrInner, TypeInner};

fn meta() -> SchemaMeta {
    SchemaMeta {
        description: None,
        nullable: false,
    }
}

fn schema(kind: SchemaKind) -> Schema {
    Schema { meta: meta(), kind }
}

fn prop(name: &str, kind: SchemaKind) -> (String, RefOr<Schema>) {
    (String::from(name), RefOr::Item(schema(kind)))
}

#[test]
fn struct_extraction_keeps_declared_order_and_wraps_optionals() {
    let obj = ObjectSchema {
        properties: vec![
            prop("id", SchemaKind::Integer),
            prop("name", SchemaKind::Str),
            prop("tag", SchemaKind::Str),
        ],
        required: vec![String::from("id"), String::from("name")],
    };
    let lookup = SchemaLookup::new();
    let st = Struct::from_objlike(&obj, &lookup).unwrap();
    assert_eq!(st.fields.len(), 3);
    assert_eq!(st.fields[0].name.as_str(), "id");
    assert!(matches!(st.fields[0].ty.typ, TypeInner::Integer));
    assert_eq!(st.fields[1].name.as_str(), "name");
    assert!(matches!(st.fields[1].ty.typ, TypeInner::Str));
    assert_eq!(st.fields[2].name.as_str(), "tag");
    match &st.fields[2].ty.typ {
        TypeInner::Optional(inner) => assert!(matches!(inner.typ, TypeInner::Str)),
        other => panic!("expected an optional string, got {:?}", other),
    }
}

#[test]
fn empty_object_is_rejected_not_coerced() {
    let obj = ObjectSchema {
        properties: vec![],
        required: vec![],
    };
    let lookup = SchemaLookup::new();
    assert!(matches!(
        Struct::from_objlike(&obj, &lookup),
        Err(Error::EmptyStruct)
    ));
}

#[test]
fn array_of_reference_builds_to_vec_of_named() {
    let mut lookup = SchemaLookup::new();
    assert!(lookup.insert_checked(
        String::from("Pet"),
        RefOr::Item(schema(SchemaKind::Object(ObjectSchema {
            properties: vec![prop("id", SchemaKind::Integer)],
            required: vec![String::from("id")],
        })))
    ));
    let arr = RefOr::Item(schema(SchemaKind::Array(Box::new(RefOr::Reference(
        String::from("#/components/schemas/Pet"),
    )))));
    let built = build_type(&arr, &lookup).unwrap();
    match built.inner {
        StructOrInner::Typ(TypeInner::Array(inner)) => match &inner.typ {
            TypeInner::Named(n) => assert_eq!(n.as_str(), "Pet"),
            other => panic!("expected a named element, got {:?}", other),
        },
        other => panic!("expected an array, got {:?}", other),
    }
}

#[test]
fn array_of_inline_object_is_rejected() {
    let lookup = SchemaLookup::new();
    let arr = RefOr::Item(schema(SchemaKind::Array(Box::new(RefOr::Item(schema(
        SchemaKind::Object(ObjectSchema {
            properties: vec![prop("id", SchemaKind::Integer)],
            required: vec![],
        }),
    ))))));
    assert!(matches!(
        build_type(&arr, &lookup),
        Err(Error::NotStructurallyTyped)
    ));
}

#[test]
fn free_form_schema_without_properties_is_any() {
    let lookup = SchemaLookup::new();
    let node = RefOr::Item(schema(SchemaKind::Any(ObjectSchema {
        properties: vec![],
        required: vec![],
    })));
    let built = build_type(&node, &lookup).unwrap();
    assert!(matches!(built.inner, StructOrInner::Typ(TypeInner::Any)));
}

#[test]
fn unsupported_kind_is_reported() {
    let lookup = SchemaLookup::new();
    let node = RefOr::Item(schema(SchemaKind::Unsupported(String::from("oneOf"))));
    assert!(matches!(
        build_type(&node, &lookup),
        Err(Error::UnsupportedKind(_))
    ));
}

#[test]
fn composite_merge_concatenates_fields() {
    let lookup = SchemaLookup::new();
    let parts = vec![
        RefOr::Item(schema(SchemaKind::Object(ObjectSchema {
            properties: vec![prop("id", SchemaKind::Integer)],
            required: vec![String::from("id")],
        }))),
        RefOr::Item(schema(SchemaKind::Object(ObjectSchema {
            properties: vec![prop("name", SchemaKind::Str)],
            required: vec![String::from("name")],
        }))),
    ];
    let st = combine_types(&parts, &lookup).unwrap();
    assert_eq!(st.fields.len(), 2);
    assert_eq!(st.fields[0].name.as_str(), "id");
    assert_eq!(st.fields[1].name.as_str(), "name");
}

#[test]
fn composite_merge_rejects_duplicate_names() {
    let lookup = SchemaLookup::new();
    let parts = vec![
        RefOr::Item(schema(SchemaKind::Object(ObjectSchema {
            properties: vec![prop("id", SchemaKind::Integer)],
            required: vec![],
        }))),
        RefOr::Item(schema(SchemaKind::Object(ObjectSchema {
            properties: vec![prop("id", SchemaKind::Str)],
            required: vec![],
        }))),
    ];
    match combine_types(&parts, &lookup) {
        Err(Error::DuplicateName(n)) => assert_eq!(n, "id"),
        other => panic!("expected a duplicate-name error, got {:?}", other),
    }
}

#[test]
fn composite_merge_rejects_non_object_constituents() {
    let lookup = SchemaLookup::new();
    let parts = vec![RefOr::Item(schema(SchemaKind::Str))];
    assert!(matches!(combine_types(&parts, &lookup), Err(Error::Todo(_))));
}
