//! The whole pipeline, end to end.

use hsr_codegen::doc::{
    ApiDocument, MediaType, ObjectSchema, Operation, Parameter, ParamLocation, PathItem, RefOr,
    Response, Responses, Schema, SchemaKind, SchemaLookup, SchemaMeta, StatusCodeKey,
};
use hsr_codegen::error::Error;
use hsr_codegen::gen::{api_trait_name, generate};
use hsr_codegen::omap::StringMap;
use hsr_codegen::responses::get_type_of_response;

fn meta() -> SchemaMeta {
    SchemaMeta {
        description: None,
        nullable: false,
    }
}

fn schema(kind: SchemaKind) -> Schema {
    Schema { meta: meta(), kind }
}

fn json_response(schema_ref: &str) -> RefOr<Response> {
    let mut content = StringMap::new();
    assert!(content.insert_checked(
        String::from("application/json"),
        MediaType {
            schema: Some(RefOr::Reference(String::from(schema_ref))),
        },
    ));
    RefOr::Item(Response {
        has_headers: false,
        has_links: false,
        content,
    })
}

fn empty_response() -> RefOr<Response> {
    RefOr::Item(Response {
        has_headers: false,
        has_links: false,
        content: StringMap::new(),
    })
}

fn empty_path_item() -> PathItem {
    PathItem {
        get: None,
        options: None,
        head: None,
        trace: None,
        post: None,
        put: None,
        patch: None,
        delete: None,
    }
}

fn pet_store() -> ApiDocument {
    let mut schemas = SchemaLookup::new();
    assert!(schemas.insert_checked(
        String::from("Pet"),
        RefOr::Item(Schema {
            meta: SchemaMeta {
                description: Some(String::from("A pet of the store")),
                nullable: false,
            },
            kind: SchemaKind::Object(ObjectSchema {
                properties: vec![
                    (String::from("id"), RefOr::Item(schema(SchemaKind::Integer))),
                    (String::from("name"), RefOr::Item(schema(SchemaKind::Str))),
                    (String::from("tag"), RefOr::Item(schema(SchemaKind::Str))),
                ],
                required: vec![String::from("id"), String::from("name")],
            }),
        })
    ));
    let mut paths = StringMap::new();
    let mut item = empty_path_item();
    item.get = Some(Operation {
        operation_id: Some(String::from("getPet")),
        parameters: vec![RefOr::Item(Parameter {
            name: String::from("petId"),
            location: ParamLocation::Path,
            required: true,
            schema: Some(RefOr::Item(schema(SchemaKind::Integer))),
        })],
        request_body: None,
        responses: Responses {
            has_default: false,
            responses: vec![
                (
                    StatusCodeKey::Code(200),
                    json_response("#/components/schemas/Pet"),
                ),
                (StatusCodeKey::Code(404), empty_response()),
            ],
        },
    });
    assert!(paths.insert_checked(String::from("/pets/{petId}"), RefOr::Item(item)));
    ApiDocument {
        title: String::from("Pet Store"),
        schemas,
        responses: StringMap::new(),
        parameters: StringMap::new(),
        request_bodies: StringMap::new(),
        paths,
    }
}

#[test]
fn trait_name_follows_the_title() {
    assert_eq!(api_trait_name("Pet Store").unwrap().as_str(), "PetStoreApi");
}

#[test]
fn generate_produces_all_artifacts() {
    let doc = pet_store();
    let code = generate(&doc, "{\"openapi\":\"3.0.0\"}", "<html></html>").unwrap();
    // the embedded description is escaped into a literal
    assert!(code.contains("const JSON_SPEC: &'static str = \"{\\\"openapi\\\":\\\"3.0.0\\\"}\";"));
    // the component type
    assert!(code.contains("pub struct Pet {"));
    assert!(code.contains("    pub id: i64,"));
    assert!(code.contains("    pub tag: Option<String>,"));
    assert!(code.contains("#[doc = \"A pet of the store\"]"));
    // the interface, with the operation identifier shared verbatim
    assert!(code.contains("pub trait PetStoreApi: 'static {"));
    assert!(code.contains("async fn get_pet(&self, pet_id: i64) -> std::result::Result<Pet, GetPetError>;"));
    // the error taxonomy
    assert!(code.contains("pub enum GetPetError {"));
    assert!(code.contains("    NotFound,"));
    // the dispatcher and the routing table
    assert!(code.contains("async fn get_pet<A: PetStoreApi + Send + Sync>"));
    assert!(code.contains("web::resource(\"/pets/{petId}\").route(web::get().to(get_pet::<A>))"));
    // the client implements the same interface
    assert!(code.contains("impl PetStoreApi for Client {"));
    assert!(code.contains("format!(\"/pets/{}\", pet_id, )"));
}

#[test]
fn duplicate_operation_ids_fail_generation() {
    let mut doc = pet_store();
    let mut item = empty_path_item();
    item.get = Some(Operation {
        operation_id: Some(String::from("getPet")),
        parameters: vec![],
        request_body: None,
        responses: Responses {
            has_default: false,
            responses: vec![(StatusCodeKey::Code(204), empty_response())],
        },
    });
    assert!(doc.paths.insert_checked(String::from("/other"), RefOr::Item(item)));
    match generate(&doc, "{}", "") {
        Err(Error::DuplicateName(n)) => assert_eq!(n, "get_pet"),
        other => panic!("expected a duplicate-name error, got {:?}", other),
    }
}

#[test]
fn referenced_path_item_is_rejected() {
    let mut doc = pet_store();
    assert!(doc.paths.insert_checked(
        String::from("/aliased"),
        RefOr::Reference(String::from("#/components/pathItems/Other"))
    ));
    assert!(matches!(
        generate(&doc, "{}", ""),
        Err(Error::UnexpectedReference(_))
    ));
}

#[test]
fn response_headers_are_rejected() {
    let node = RefOr::Item(Response {
        has_headers: true,
        has_links: false,
        content: StringMap::new(),
    });
    let responses = StringMap::new();
    let schemas = SchemaLookup::new();
    assert!(matches!(
        get_type_of_response(&node, &responses, &schemas),
        Err(Error::Todo(_))
    ));
}

#[test]
fn non_json_response_content_is_rejected() {
    let mut content = StringMap::new();
    assert!(content.insert_checked(
        String::from("text/html"),
        MediaType {
            schema: Some(RefOr::Item(schema(SchemaKind::Str))),
        },
    ));
    let node = RefOr::Item(Response {
        has_headers: false,
        has_links: false,
        content,
    });
    let responses = StringMap::new();
    let schemas = SchemaLookup::new();
    assert!(matches!(
        get_type_of_response(&node, &responses, &schemas),
        Err(Error::Todo(_))
    ));
}
