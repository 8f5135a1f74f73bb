//! Reference extraction and recursive schema-reference validation.

use hsr_codegen::doc::{RefOr, Schema, SchemaKind, SchemaLookup, SchemaMeta};
use hsr_codegen::error::Error;
use hsr_codegen::refs::{extract_ref_name, validate_schema_ref};

fn item(kind: SchemaKind) -> RefOr<Schema> {
    RefOr::Item(Schema {
        meta: SchemaMeta {
            description: None,
            nullable: false,
        },
        kind,
    })
}

fn described_item(kind: SchemaKind, descr: &str) -> RefOr<Schema> {
    RefOr::Item(Schema {
        meta: SchemaMeta {
            description: Some(String::from(descr)),
            nullable: false,
        },
        kind,
    })
}

fn reference(target: &str) -> RefOr<Schema> {
    RefOr::Reference(format!("#/components/schemas/{}", target))
}

#[test]
fn extract_ref_name_follows_the_grammar() {
    let t = extract_ref_name("#/components/schemas/Pet").unwrap();
    assert_eq!(t.as_str(), "Pet");
    assert!(matches!(
        extract_ref_name("#/components/schemas/Pet/extra"),
        Err(Error::BadReference(_))
    ));
    assert!(matches!(
        extract_ref_name("#/definitions/Pet"),
        Err(Error::BadReference(_))
    ));
    assert!(matches!(
        extract_ref_name("#/components/responses/Pet"),
        Err(Error::BadReference(_))
    ));
    // grammatical pointer, but the name is not a valid type name
    assert!(matches!(
        extract_ref_name("#/components/schemas/not_a_type"),
        Err(Error::BadTypeName(_))
    ));
}

#[test]
fn chain_resolution_returns_terminal_metadata() {
    let mut lookup: SchemaLookup = SchemaLookup::new();
    assert!(lookup.insert_checked(String::from("A"), reference("B")));
    assert!(lookup.insert_checked(String::from("B"), reference("C")));
    assert!(lookup.insert_checked(
        String::from("C"),
        described_item(SchemaKind::Str, "the end of the chain")
    ));
    let (name, meta) = validate_schema_ref("#/components/schemas/A", &lookup).unwrap();
    assert_eq!(name.as_str(), "A");
    assert_eq!(meta.description.as_deref(), Some("the end of the chain"));
}

#[test]
fn dangling_reference_reports_the_pointer_verbatim() {
    let lookup: SchemaLookup = SchemaLookup::new();
    match validate_schema_ref("#/components/schemas/Missing", &lookup) {
        Err(Error::BadReference(m)) => assert_eq!(m, "#/components/schemas/Missing"),
        other => panic!("expected a bad-reference error, got {:?}", other),
    }
}

#[test]
fn bad_type_name_in_pointer_reports_the_name() {
    let lookup: SchemaLookup = SchemaLookup::new();
    match validate_schema_ref("#/components/schemas/not_a_type", &lookup) {
        Err(Error::BadTypeName(m)) => assert_eq!(m, "not_a_type"),
        other => panic!("expected a bad-type-name error, got {:?}", other),
    }
}

#[test]
fn cycle_fails_with_bad_reference() {
    let mut lookup: SchemaLookup = SchemaLookup::new();
    assert!(lookup.insert_checked(String::from("A"), reference("B")));
    assert!(lookup.insert_checked(String::from("B"), reference("A")));
    assert!(matches!(
        validate_schema_ref("#/components/schemas/A", &lookup),
        Err(Error::BadReference(_))
    ));
}

#[test]
fn chain_longer_than_the_bound_fails() {
    let mut lookup: SchemaLookup = SchemaLookup::new();
    // N0 -> N1 -> ... -> N21 -> item: 22 pointers, over the bound of 20
    for i in 0..21 {
        assert!(lookup.insert_checked(format!("N{}", i), reference(&format!("N{}", i + 1))));
    }
    assert!(lookup.insert_checked(String::from("N21"), item(SchemaKind::Str)));
    assert!(matches!(
        validate_schema_ref("#/components/schemas/N0", &lookup),
        Err(Error::BadReference(_))
    ));
    // while a chain comfortably inside the bound succeeds
    let (name, _) = validate_schema_ref("#/components/schemas/N10", &lookup).unwrap();
    assert_eq!(name.as_str(), "N10");
}
