//! Route construction and response classification.

use hsr_codegen::doc::{
    MediaType, ObjectSchema, Operation, Parameter, ParamLocation, RefOr, RequestBody, Response,
    ResponseLookup, Responses, Schema, SchemaKind, SchemaLookup, SchemaMeta, StatusCodeKey,
};
use hsr_codegen::error::Error;
use hsr_codegen::ir::TypeInner;
use hsr_codegen::omap::StringMap;
use hsr_codegen::routes::{Method, MethodWithBody, MethodWithoutBody, Route};
use hsr_codegen::status::error_variant_from_status_code;

fn meta() -> SchemaMeta {
    SchemaMeta {
        description: None,
        nullable: false,
    }
}

fn schema(kind: SchemaKind) -> Schema {
    Schema { meta: meta(), kind }
}

fn json_response(schema_ref: &str) -> RefOr<Response> {
    let mut content = StringMap::new();
    assert!(content.insert_checked(
        String::from("application/json"),
        MediaType {
            schema: Some(RefOr::Reference(String::from(schema_ref))),
        },
    ));
    RefOr::Item(Response {
        has_headers: false,
        has_links: false,
        content,
    })
}

fn empty_response() -> RefOr<Response> {
    RefOr::Item(Response {
        has_headers: false,
        has_links: false,
        content: StringMap::new(),
    })
}

fn pet_lookup() -> SchemaLookup {
    let mut lookup = SchemaLookup::new();
    assert!(lookup.insert_checked(
        String::from("Pet"),
        RefOr::Item(schema(SchemaKind::Object(ObjectSchema {
            properties: vec![(String::from("id"), RefOr::Item(schema(SchemaKind::Integer)))],
            required: vec![String::from("id")],
        })))
    ));
    lookup
}

fn int_path_param(name: &str) -> RefOr<Parameter> {
    RefOr::Item(Parameter {
        name: String::from(name),
        location: ParamLocation::Path,
        required: true,
        schema: Some(RefOr::Item(schema(SchemaKind::Integer))),
    })
}

fn get_pet_op(responses: Vec<(StatusCodeKey, RefOr<Response>)>) -> Operation {
    Operation {
        operation_id: Some(String::from("getPet")),
        parameters: vec![int_path_param("petId")],
        request_body: None,
        responses: Responses {
            has_default: false,
            responses,
        },
    }
}

#[test]
fn get_route_with_path_param_success_and_error() {
    let schemas = pet_lookup();
    let responses_lookup = ResponseLookup::new();
    let params_lookup = StringMap::new();
    let op = get_pet_op(vec![
        (
            StatusCodeKey::Code(200),
            json_response("#/components/schemas/Pet"),
        ),
        (StatusCodeKey::Code(404), empty_response()),
    ]);
    let rt = Route::without_body(
        "/pets/{petId}",
        MethodWithoutBody::Get,
        &op,
        &schemas,
        &responses_lookup,
        &params_lookup,
    )
    .unwrap();
    assert_eq!(rt.operation_id.as_str(), "get_pet");
    assert!(matches!(
        rt.method,
        Method::WithoutBody(MethodWithoutBody::Get)
    ));
    assert_eq!(rt.path_params.len(), 1);
    assert_eq!(rt.path_params[0].0.as_str(), "pet_id");
    assert!(matches!(rt.path_params[0].1.typ, TypeInner::Integer));
    assert!(rt.query_params.is_empty());
    assert_eq!(rt.success.0, 200);
    match &rt.success.1 {
        Some(t) => match &t.typ {
            TypeInner::Named(n) => assert_eq!(n.as_str(), "Pet"),
            other => panic!("expected the named success type, got {:?}", other),
        },
        None => panic!("expected a success body"),
    }
    assert_eq!(rt.errors.len(), 1);
    assert_eq!(rt.errors[0].0, 404);
    assert!(rt.errors[0].1.is_none());
    assert_eq!(rt.errors[0].2.as_str(), "NotFound");
}

#[test]
fn two_success_codes_fail_generation() {
    let schemas = pet_lookup();
    let responses_lookup = ResponseLookup::new();
    let params_lookup = StringMap::new();
    let op = get_pet_op(vec![
        (StatusCodeKey::Code(200), empty_response()),
        (StatusCodeKey::Code(201), empty_response()),
    ]);
    assert!(matches!(
        Route::without_body(
            "/pets/{petId}",
            MethodWithoutBody::Get,
            &op,
            &schemas,
            &responses_lookup,
            &params_lookup,
        ),
        Err(Error::Todo(_))
    ));
}

#[test]
fn redirect_code_fails_generation() {
    let schemas = pet_lookup();
    let responses_lookup = ResponseLookup::new();
    let params_lookup = StringMap::new();
    let op = get_pet_op(vec![
        (StatusCodeKey::Code(200), empty_response()),
        (StatusCodeKey::Code(301), empty_response()),
    ]);
    match Route::without_body(
        "/pets/{petId}",
        MethodWithoutBody::Get,
        &op,
        &schemas,
        &responses_lookup,
        &params_lookup,
    ) {
        Err(Error::BadStatusCode(code)) => assert_eq!(code, 301),
        other => panic!("expected a bad-status-code error, got {:?}", other),
    }
}

#[test]
fn missing_operation_id_is_rejected() {
    let schemas = pet_lookup();
    let responses_lookup = ResponseLookup::new();
    let params_lookup = StringMap::new();
    let mut op = get_pet_op(vec![(StatusCodeKey::Code(200), empty_response())]);
    op.operation_id = None;
    match Route::without_body(
        "/pets/{petId}",
        MethodWithoutBody::Get,
        &op,
        &schemas,
        &responses_lookup,
        &params_lookup,
    ) {
        Err(Error::NoOperationId(p)) => assert_eq!(p, "/pets/{petId}"),
        other => panic!("expected a missing-operation-id error, got {:?}", other),
    }
}

#[test]
fn optional_path_parameter_is_rejected() {
    let schemas = pet_lookup();
    let responses_lookup = ResponseLookup::new();
    let params_lookup = StringMap::new();
    let mut op = get_pet_op(vec![(StatusCodeKey::Code(200), empty_response())]);
    match &mut op.parameters[0] {
        RefOr::Item(p) => p.required = false,
        RefOr::Reference(_) => unreachable!(),
    }
    assert!(matches!(
        Route::without_body(
            "/pets/{petId}",
            MethodWithoutBody::Get,
            &op,
            &schemas,
            &responses_lookup,
            &params_lookup,
        ),
        Err(Error::Todo(_))
    ));
}

#[test]
fn unbound_placeholder_is_rejected() {
    let schemas = pet_lookup();
    let responses_lookup = ResponseLookup::new();
    let params_lookup = StringMap::new();
    let mut op = get_pet_op(vec![(StatusCodeKey::Code(200), empty_response())]);
    op.parameters.clear();
    assert!(matches!(
        Route::without_body(
            "/pets/{petId}",
            MethodWithoutBody::Get,
            &op,
            &schemas,
            &responses_lookup,
            &params_lookup,
        ),
        Err(Error::Todo(_))
    ));
}

#[test]
fn post_route_carries_its_json_body() {
    let schemas = pet_lookup();
    let responses_lookup = ResponseLookup::new();
    let params_lookup = StringMap::new();
    let mut content = StringMap::new();
    assert!(content.insert_checked(
        String::from("application/json"),
        MediaType {
            schema: Some(RefOr::Reference(String::from("#/components/schemas/Pet"))),
        },
    ));
    let op = Operation {
        operation_id: Some(String::from("createPet")),
        parameters: vec![],
        request_body: Some(RefOr::Item(RequestBody { content })),
        responses: Responses {
            has_default: false,
            responses: vec![(StatusCodeKey::Code(201), empty_response())],
        },
    };
    let bodies = StringMap::new();
    let rt = Route::with_body(
        "/pets",
        MethodWithBody::Post,
        &op,
        &schemas,
        &responses_lookup,
        &params_lookup,
        &bodies,
    )
    .unwrap();
    match &rt.method {
        Method::WithBody {
            method: MethodWithBody::Post,
            body_type: Some(t),
        } => match &t.typ {
            TypeInner::Named(n) => assert_eq!(n.as_str(), "Pet"),
            other => panic!("expected the named body type, got {:?}", other),
        },
        other => panic!("expected a body-carrying method, got {:?}", other),
    }
}

#[test]
fn non_json_body_is_rejected() {
    let schemas = pet_lookup();
    let responses_lookup = ResponseLookup::new();
    let params_lookup = StringMap::new();
    let mut content = StringMap::new();
    assert!(content.insert_checked(
        String::from("text/plain"),
        MediaType {
            schema: Some(RefOr::Item(schema(SchemaKind::Str))),
        },
    ));
    let op = Operation {
        operation_id: Some(String::from("createPet")),
        parameters: vec![],
        request_body: Some(RefOr::Item(RequestBody { content })),
        responses: Responses {
            has_default: false,
            responses: vec![(StatusCodeKey::Code(201), empty_response())],
        },
    };
    let bodies = StringMap::new();
    assert!(matches!(
        Route::with_body(
            "/pets",
            MethodWithBody::Post,
            &op,
            &schemas,
            &responses_lookup,
            &params_lookup,
            &bodies,
        ),
        Err(Error::Todo(_))
    ));
}

#[test]
fn error_variants_take_canonical_reason_phrases() {
    assert_eq!(
        error_variant_from_status_code(404).unwrap().as_str(),
        "NotFound"
    );
    assert_eq!(
        error_variant_from_status_code(500).unwrap().as_str(),
        "InternalServerError"
    );
    // no canonical phrase: the synthetic fallback
    assert_eq!(
        error_variant_from_status_code(499).unwrap().as_str(),
        "E499"
    );
}

#[test]
fn status_codes_render_in_decimal() {
    assert_eq!(hsr_codegen::status::u16_to_string(404), "404");
    assert_eq!(hsr_codegen::status::u16_to_string(0), "0");
    assert_eq!(hsr_codegen::status::u16_to_string(65535), "65535");
}
