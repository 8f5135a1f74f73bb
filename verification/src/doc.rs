//! The input boundary: an already-parsed API description.
//!
//! The core never reads raw bytes; the caller parses the description with
//! whatever parser it likes and hands over this document model, which holds
//! exactly what the semantic passes read: a components section with four
//! independently keyed lookup tables, and a paths section mapping
//! path-template strings to per-method operations.

use vstd::prelude::*;

verus! {

use crate::omap::StringMap;

/// Either a `$ref` pointer or an inline item.
#[derive(Debug, PartialEq)]
pub enum RefOr<T> {
    /// A pointer of the form `#/components/<namespace>/<Name>`.
    Reference(String),
    /// The item itself.
    Item(T),
}

/// The source metadata carried on every schema node.
#[derive(Debug, PartialEq)]
pub struct SchemaMeta {
    /// Free-text documentation.
    pub description: Option<String>,
    /// Whether the source marked the schema nullable.
    pub nullable: bool,
}

/// The property table of an object-like schema.
#[derive(Debug, PartialEq)]
pub struct ObjectSchema {
    /// Declared properties, in declared order. A name occurs at most once
    /// (the source format's object keys are unique).
    pub properties: Vec<(String, RefOr<Schema>)>,
    /// Names of the properties that must be present.
    pub required: Vec<String>,
}

/// The supported schema shapes.
#[derive(Debug, PartialEq)]
pub enum SchemaKind {
    /// A text value.
    Str,
    /// A floating-point number value.
    Number,
    /// An integer value.
    Integer,
    /// A boolean value.
    Boolean,
    /// An array of one item schema.
    Array(Box<RefOr<Schema>>),
    /// An object with declared properties.
    Object(ObjectSchema),
    /// A free-form schema: an object when it declares properties, anything
    /// otherwise.
    Any(ObjectSchema),
    /// A composite to merge ("all of").
    AllOf(Vec<RefOr<Schema>>),
    /// A shape the type model does not cover; carries its label.
    Unsupported(String),
}

/// One schema node: its metadata and its shape.
#[derive(Debug, PartialEq)]
pub struct Schema {
    pub meta: SchemaMeta,
    pub kind: SchemaKind,
}

/// One body alternative under a content type.
#[derive(Debug, PartialEq)]
pub struct MediaType {
    /// The schema of the payload, if the description gives one.
    pub schema: Option<RefOr<Schema>>,
}

/// One declared response.
#[derive(Debug, PartialEq)]
pub struct Response {
    /// Whether the response declares headers (not supported).
    pub has_headers: bool,
    /// Whether the response declares links (not supported).
    pub has_links: bool,
    /// Payloads by content type; empty for a body-less response.
    pub content: StringMap<MediaType>,
}

/// Where a parameter is carried.
#[derive(Debug, Clone, Copy, PartialEq)]
pub enum ParamLocation {
    Path,
    Query,
    Header,
    Cookie,
}

/// One declared operation parameter.
#[derive(Debug, PartialEq)]
pub struct Parameter {
    pub name: String,
    pub location: ParamLocation,
    pub required: bool,
    /// The parameter's schema; a content-typed parameter has none and is
    /// rejected.
    pub schema: Option<RefOr<Schema>>,
}

/// One declared request body.
#[derive(Debug, PartialEq)]
pub struct RequestBody {
    /// Payloads by content type.
    pub content: StringMap<MediaType>,
}

/// A response-table key: a concrete code or a `2XX`-style range.
#[derive(Debug, Clone, Copy, PartialEq)]
pub enum StatusCodeKey {
    Code(u16),
    Range(u16),
}

/// One operation's response table.
#[derive(Debug, PartialEq)]
pub struct Responses {
    /// Whether the table declares a default response (not supported).
    pub has_default: bool,
    /// Declared responses, in declared order.
    pub responses: Vec<(StatusCodeKey, RefOr<Response>)>,
}

/// One declared operation.
#[derive(Debug, PartialEq)]
pub struct Operation {
    pub operation_id: Option<String>,
    pub parameters: Vec<RefOr<Parameter>>,
    pub request_body: Option<RefOr<RequestBody>>,
    pub responses: Responses,
}

/// The operations declared under one path template.
#[derive(Debug, PartialEq)]
pub struct PathItem {
    pub get: Option<Operation>,
    pub options: Option<Operation>,
    pub head: Option<Operation>,
    pub trace: Option<Operation>,
    pub post: Option<Operation>,
    pub put: Option<Operation>,
    pub patch: Option<Operation>,
    pub delete: Option<Operation>,
}

/// The schema lookup table of the components section.
pub type SchemaLookup = StringMap<RefOr<Schema>>;

/// The response lookup table of the components section.
pub type ResponseLookup = StringMap<RefOr<Response>>;

/// The parameter lookup table of the components section.
pub type ParametersLookup = StringMap<RefOr<Parameter>>;

/// The request-body lookup table of the components section.
pub type RequestLookup = StringMap<RefOr<RequestBody>>;

/// The whole parsed description, as the compilation entry point takes it.
#[derive(Debug, PartialEq)]
pub struct ApiDocument {
    /// The description's title, used to name the generated interface.
    pub title: String,
    pub schemas: SchemaLookup,
    pub responses: ResponseLookup,
    pub parameters: ParametersLookup,
    pub request_bodies: RequestLookup,
    /// Path templates to their operations, in declared order.
    pub paths: StringMap<RefOr<PathItem>>,
}

} // verus!
