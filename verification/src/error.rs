//! The generation-time error taxonomy.
//!
//! Every failure is a typed value surfaced to the caller of the compilation
//! entry point; a failure at any stage aborts the whole run. None of these
//! errors is ever retried: they all report malformed input.

use vstd::prelude::*;

verus! {

/// Everything that can go wrong while compiling a description.
#[derive(Debug, Clone, PartialEq)]
pub enum Error {
    /// Pointer grammar violation, dangling target, or reference-depth
    /// exceeded (cycle guard). Carries the offending reference verbatim.
    BadReference(String),
    /// A reference appeared where only an inline item is allowed.
    UnexpectedReference(String),
    /// A schema shape that the type model does not cover.
    UnsupportedKind(String),
    /// An object schema with zero usable fields.
    EmptyStruct,
    /// An inline struct appeared where only a named or primitive type is
    /// allowed: the target type system has no structural typing.
    NotStructurallyTyped,
    /// A path template that fails the segment grammar.
    MalformedPath(String),
    /// An operation without the required operation id; carries the path.
    NoOperationId(String),
    /// A supported description feature that the generator rejects by policy
    /// (content types other than JSON, response headers, and the like).
    Todo(String),
    /// A string that is neither snake-cased nor mixed-cased.
    BadIdentifier(String),
    /// A string that is not its own capitalized-word-joined form.
    BadTypeName(String),
    /// A status code outside the supported success and error ranges.
    BadStatusCode(u16),
    /// Two fields or two table entries under one name.
    DuplicateName(String),
}

impl Error {
    /// A short human-readable label for the error kind, for callers that
    /// need to print a diagnostic.
    pub fn kind(&self) -> (r: &'static str)
        ensures
            r@ == self.spec_kind(),
    {
        match self {
            Error::BadReference(_) => "bad reference",
            Error::UnexpectedReference(_) => "unexpected reference",
            Error::UnsupportedKind(_) => "schema not supported",
            Error::EmptyStruct => "empty struct",
            Error::NotStructurallyTyped => "structural typing not supported",
            Error::MalformedPath(_) => "path is malformed",
            Error::NoOperationId(_) => "no operation id given for route",
            Error::Todo(_) => "not supported",
            Error::BadIdentifier(_) => "not a valid identifier",
            Error::BadTypeName(_) => "not a valid type name",
            Error::BadStatusCode(_) => "status code not supported",
            Error::DuplicateName(_) => "duplicate name",
        }
    }

    /// What `kind` returns for each variant.
    pub open spec fn spec_kind(&self) -> Seq<char> {
        match self {
            Error::BadReference(_) => "bad reference"@,
            Error::UnexpectedReference(_) => "unexpected reference"@,
            Error::UnsupportedKind(_) => "schema not supported"@,
            Error::EmptyStruct => "empty struct"@,
            Error::NotStructurallyTyped => "structural typing not supported"@,
            Error::MalformedPath(_) => "path is malformed"@,
            Error::NoOperationId(_) => "no operation id given for route"@,
            Error::Todo(_) => "not supported"@,
            Error::BadIdentifier(_) => "not a valid identifier"@,
            Error::BadTypeName(_) => "not a valid type name"@,
            Error::BadStatusCode(_) => "status code not supported"@,
            Error::DuplicateName(_) => "duplicate name"@,
        }
    }
}

} // verus!
