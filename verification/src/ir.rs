//! The type intermediate representation.
//!
//! Schema nodes become a closed, named type graph: primitives, arrays,
//! optionals, named references and inline structs, each carrying the source
//! metadata of the node it came from. Cross-references stay lazy `Named`
//! leaves resolved by lookup at emission time, so a self-referential schema
//! graph never becomes a cyclic in-memory structure. An `Optional` never
//! wraps another `Optional` directly: construction collapses them.

use vstd::prelude::*;

verus! {

use crate::doc::SchemaMeta;
use crate::error::Error;
use crate::names::Ident;
use crate::names::TypeName;
use crate::refs::clone_meta;

/// The shape of a type: a closed tagged variant, exhaustively matched by
/// every consumer.
#[derive(Debug, PartialEq)]
pub enum TypeInner {
    /// A text value, rendered `String`.
    Str,
    /// A floating-point number value, rendered `f64`.
    Number,
    /// An integer value, rendered `i64`.
    Integer,
    /// A boolean value, rendered `bool`.
    Boolean,
    /// An array of some element type.
    Array(Box<Type>),
    /// A value that may be absent.
    Optional(Box<Type>),
    /// Any value at all; usually a user error, but representable.
    Any,
    /// A type defined elsewhere, stood for by its name.
    Named(TypeName),
}

/// A type together with the source metadata of the schema node it came
/// from.
#[derive(Debug, PartialEq)]
pub struct Type {
    pub meta: SchemaMeta,
    pub typ: TypeInner,
}

/// One named field of a struct.
#[derive(Debug, PartialEq)]
pub struct Field {
    pub name: Ident,
    pub ty: Type,
}

/// A raw, unnamed record type: it only informs about its fields, and can
/// never be instantiated without first being promoted to a named type.
#[derive(Debug, PartialEq)]
pub struct Struct {
    pub fields: Vec<Field>,
}

/// What building a schema node yields: an anonymous struct or a type.
#[derive(Debug, PartialEq)]
pub enum StructOrInner {
    Struct(Struct),
    Typ(TypeInner),
}

/// A build result together with its source metadata.
#[derive(Debug, PartialEq)]
pub struct StructOrType {
    pub meta: SchemaMeta,
    pub inner: StructOrInner,
}

/// A type is well formed when every name in it is validated and no
/// `Optional` directly wraps another.
pub open spec fn type_wf(t: Type) -> bool
    decreases t,
{
    inner_wf(t.typ)
}

/// Well-formedness of a type's shape.
pub open spec fn inner_wf(ti: TypeInner) -> bool
    decreases ti,
{
    match ti {
        TypeInner::Array(b) => type_wf(*b),
        TypeInner::Optional(b) => !((*b).typ is Optional) && type_wf(*b),
        TypeInner::Named(n) => n.wf(),
        _ => true,
    }
}

/// A struct is well formed when it has at least one field and every field
/// name and type is well formed.
pub open spec fn struct_wf(s: Struct) -> bool {
    &&& s.fields@.len() > 0
    &&& forall|i: int|
        0 <= i < s.fields@.len() ==> (#[trigger] s.fields@[i]).name.wf() && type_wf(
            s.fields@[i].ty,
        )
}

/// Well-formedness of a build result.
pub open spec fn struct_or_type_wf(r: StructOrType) -> bool {
    match r.inner {
        StructOrInner::Struct(s) => struct_wf(s),
        StructOrInner::Typ(ti) => inner_wf(ti),
    }
}

/// `r` is `base` wrapped in `Optional`, collapsing a double wrap.
pub open spec fn optioned(base: Type, r: Type) -> bool {
    if base.typ is Optional {
        r == base
    } else {
        r.meta == base.meta && (r.typ matches TypeInner::Optional(b) && *b == base)
    }
}

impl Type {
    /// Wrap in `Optional`, collapsing when the type is already optional.
    pub fn to_option(self) -> (r: Type)
        ensures
            optioned(self, r),
            type_wf(self) ==> type_wf(r),
    {
        match &self.typ {
            TypeInner::Optional(_) => self,
            _ => Type { meta: clone_meta(&self.meta), typ: TypeInner::Optional(Box::new(self)) },
        }
    }
}

impl TypeInner {
    /// Attach metadata, as a non-struct build result.
    pub fn with_meta_either(self, meta: SchemaMeta) -> (r: StructOrType)
        ensures
            r.meta == meta,
            r.inner == StructOrInner::Typ(self),
    {
        StructOrType { meta, inner: StructOrInner::Typ(self) }
    }
}

impl Struct {
    /// A struct must have at least one field: structural emptiness is a
    /// generation-time error.
    pub fn new(fields: Vec<Field>) -> (r: Result<Struct, Error>)
        ensures
            fields@.len() > 0 ==> (r matches Ok(s) && s.fields@ == fields@),
            fields@.len() == 0 ==> (r matches Err(e) && e is EmptyStruct),
    {
        if fields.is_empty() {
            return Err(Error::EmptyStruct);
        }
        Ok(Struct { fields })
    }

    /// Attach metadata, as a struct build result.
    pub fn with_meta_either(self, meta: SchemaMeta) -> (r: StructOrType)
        ensures
            r.meta == meta,
            r.inner == StructOrInner::Struct(self),
    {
        StructOrType { meta, inner: StructOrInner::Struct(self) }
    }
}

impl StructOrType {
    /// Keep a type; reject an inline struct. Used wherever the target type
    /// system requires a name: array elements, parameters, bodies.
    pub fn discard_struct(self) -> (r: Result<Type, Error>)
        ensures
            self.inner matches StructOrInner::Typ(ti) ==> (r matches Ok(t) && t.meta == self.meta
                && t.typ == ti),
            self.inner is Struct ==> (r matches Err(e) && e is NotStructurallyTyped),
    {
        match self.inner {
            StructOrInner::Typ(typ) => Ok(Type { meta: self.meta, typ }),
            StructOrInner::Struct(_) => Err(Error::NotStructurallyTyped),
        }
    }
}

} // verus!
