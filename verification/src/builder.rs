//! The type graph builder: schema nodes into the type IR.
//!
//! Supported shapes map directly: the four primitive kinds to primitives,
//! arrays to `Array` of the built element, objects with properties to
//! structs, property-less free-form schemas to `Any`, bare references to
//! `Named` leaves (short-circuiting without building the target), and
//! composites to a merged struct. Everything else fails with
//! `UnsupportedKind`. Reference resolution happens strictly before array and
//! optional wrapping.

use vstd::prelude::*;

verus! {

use crate::doc::ObjectSchema;
use crate::doc::RefOr;
use crate::doc::Schema;
use crate::doc::SchemaKind;
use crate::doc::SchemaLookup;
use crate::error::Error;
use crate::ir::Field;
use crate::ir::optioned;
use crate::ir::Struct;
use crate::ir::struct_or_type_wf;
use crate::ir::struct_wf;
use crate::ir::StructOrInner;
use crate::ir::StructOrType;
use crate::ir::Type;
use crate::ir::TypeInner;
use crate::ir::type_wf;
use crate::names::Ident;
use crate::names::ident_accepted;
use crate::names::camel_of;
use crate::names::snake_of;
use crate::names::TypeName;
use crate::omap::seq_lookup;
use crate::refs::clone_meta;
use crate::refs::ref_name;
use crate::refs::schemas_ns;
use crate::refs::spec_extract;
use crate::refs::spec_resolve;
use crate::refs::validate_schema_ref;

/// Whether building this node yields an anonymous struct rather than a
/// type.
pub open spec fn yields_struct(node: RefOr<Schema>) -> bool {
    match node {
        RefOr::Reference(_) => false,
        RefOr::Item(s) => match s.kind {
            SchemaKind::Object(_) => true,
            SchemaKind::Any(o) => o.properties@.len() > 0,
            SchemaKind::AllOf(_) => true,
            _ => false,
        },
    }
}

/// `ss` holds some string whose characters are `k`.
pub open spec fn seq_contains_str(ss: Seq<String>, k: Seq<char>) -> bool {
    exists|i: int| 0 <= i < ss.len() && (#[trigger] ss[i]@) == k
}

/// The snake-cased names of an object-like schema's properties, in order.
pub open spec fn prop_names(props: Seq<(String, RefOr<Schema>)>) -> Seq<Seq<char>> {
    props.map_values(|p: (String, RefOr<Schema>)| snake_of(p.0@))
}

/// The names of a field list, in order.
pub open spec fn field_names(fs: Seq<Field>) -> Seq<Seq<char>> {
    fs.map_values(|f: Field| f.name@)
}

/// The field names an inline object-like constituent contributes to a
/// composite merge.
pub open spec fn node_prop_names(node: RefOr<Schema>) -> Seq<Seq<char>> {
    match node {
        RefOr::Item(s) => match s.kind {
            SchemaKind::Object(o) => prop_names(o.properties@),
            SchemaKind::Any(o) => prop_names(o.properties@),
            _ => Seq::empty(),
        },
        RefOr::Reference(_) => Seq::empty(),
    }
}

/// The field names of a whole composite, constituent by constituent.
pub open spec fn allof_names(cs: Seq<RefOr<Schema>>) -> Seq<Seq<char>>
    decreases cs.len(),
{
    if cs.len() == 0 {
        Seq::empty()
    } else {
        node_prop_names(cs[0]) + allof_names(cs.drop_first())
    }
}

/// The concatenation of the field lists of a run of structs.
pub open spec fn structs_fields(sts: Seq<Struct>) -> Seq<Field>
    decreases sts.len(),
{
    if sts.len() == 0 {
        Seq::empty()
    } else {
        sts[0].fields@ + structs_fields(sts.drop_first())
    }
}

/// No two equal entries.
pub open spec fn distinct_seq(s: Seq<Seq<char>>) -> bool {
    forall|i: int, j: int| 0 <= i < j < s.len() ==> s[i] != s[j]
}

/// Appending one constituent appends its names.
proof fn lemma_allof_names_push(cs: Seq<RefOr<Schema>>, c: RefOr<Schema>)
    ensures
        allof_names(cs.push(c)) == allof_names(cs) + node_prop_names(c),
    decreases cs.len(),
{
    let p = cs.push(c);
    assert(p[0] == if cs.len() == 0 {
        c
    } else {
        cs[0]
    });
    if cs.len() == 0 {
        assert(p.drop_first() =~= Seq::<RefOr<Schema>>::empty());
        assert(allof_names(p.drop_first()) == Seq::<Seq<char>>::empty());
        assert(node_prop_names(c) + Seq::<Seq<char>>::empty() =~= allof_names(cs)
            + node_prop_names(c));
    } else {
        assert(p.drop_first() =~= cs.drop_first().push(c));
        lemma_allof_names_push(cs.drop_first(), c);
        assert(node_prop_names(cs[0]) + (allof_names(cs.drop_first()) + node_prop_names(c))
            =~= (node_prop_names(cs[0]) + allof_names(cs.drop_first())) + node_prop_names(c));
    }
}

/// A composite's names split at any position.
proof fn lemma_allof_names_split(cs: Seq<RefOr<Schema>>, m: int)
    requires
        0 <= m <= cs.len(),
    ensures
        allof_names(cs) == allof_names(cs.take(m)) + allof_names(cs.skip(m)),
    decreases m,
{
    if m == 0 {
        assert(cs.take(0).len() == 0);
        assert(allof_names(cs.take(0)) == Seq::<Seq<char>>::empty());
        assert(cs.skip(0) =~= cs);
        assert(Seq::<Seq<char>>::empty() + allof_names(cs) =~= allof_names(cs));
    } else {
        let d = cs.drop_first();
        lemma_allof_names_split(d, m - 1);
        assert(cs.take(m)[0] == cs[0]);
        assert(cs.take(m).drop_first() =~= d.take(m - 1));
        assert(cs.skip(m) =~= d.skip(m - 1));
        assert(allof_names(cs.take(m)) == node_prop_names(cs[0]) + allof_names(d.take(m - 1)));
        assert(node_prop_names(cs[0]) + (allof_names(d.take(m - 1)) + allof_names(d.skip(m - 1)))
            =~= (node_prop_names(cs[0]) + allof_names(d.take(m - 1))) + allof_names(d.skip(m - 1)));
    }
}

/// Appending one struct appends its fields.
proof fn lemma_structs_fields_push(sts: Seq<Struct>, st: Struct)
    ensures
        structs_fields(sts.push(st)) == structs_fields(sts) + st.fields@,
    decreases sts.len(),
{
    let p = sts.push(st);
    assert(p[0] == if sts.len() == 0 {
        st
    } else {
        sts[0]
    });
    if sts.len() == 0 {
        assert(p.drop_first() =~= Seq::<Struct>::empty());
        assert(structs_fields(p.drop_first()) == Seq::<Field>::empty());
        assert(st.fields@ + Seq::<Field>::empty() =~= structs_fields(sts) + st.fields@);
    } else {
        assert(p.drop_first() =~= sts.drop_first().push(st));
        lemma_structs_fields_push(sts.drop_first(), st);
        assert(sts[0].fields@ + (structs_fields(sts.drop_first()) + st.fields@) =~= (sts[0].fields@
            + structs_fields(sts.drop_first())) + st.fields@);
    }
}

/// Whether one property builds: its name is a valid identifier and its
/// schema builds to something that is not an inline struct.
pub open spec fn prop_ok(lookup: Seq<(String, RefOr<Schema>)>, p: (String, RefOr<Schema>)) -> bool
    decreases p,
{
    ident_accepted(p.0@) && spec_build_ok(lookup, p.1) && !yields_struct(p.1)
}

/// Whether struct extraction succeeds on an object-like schema: at least
/// one property, and every property builds.
pub open spec fn objlike_ok(lookup: Seq<(String, RefOr<Schema>)>, o: ObjectSchema) -> bool
    decreases o,
{
    o.properties@.len() > 0 && forall|i: int|
        0 <= i < o.properties@.len() ==> prop_ok(lookup, #[trigger] o.properties@[i])
}

/// Whether a node is an inline object-like schema: the only shape a
/// composite merge accepts.
pub open spec fn node_is_object_like(node: RefOr<Schema>) -> bool {
    match node {
        RefOr::Item(s) => match s.kind {
            SchemaKind::Object(_) => true,
            SchemaKind::Any(o) => o.properties@.len() > 0,
            _ => false,
        },
        RefOr::Reference(_) => false,
    }
}

/// `x` occurs at two distinct positions of `names`.
pub open spec fn duplicated_name(names: Seq<Seq<char>>, x: Seq<char>) -> bool {
    exists|i: int, j: int| 0 <= i < j < names.len() && (#[trigger] names[i]) == x && (#[trigger] names[j]) == x
}

/// Whether one composite constituent can join a merge: it must be an
/// inline object-like schema whose struct extraction succeeds.
pub open spec fn mergeable(lookup: Seq<(String, RefOr<Schema>)>, node: RefOr<Schema>) -> bool
    decreases node,
{
    match node {
        RefOr::Item(s) => match s.kind {
            SchemaKind::Object(o) => objlike_ok(lookup, o),
            SchemaKind::Any(o) => o.properties@.len() > 0 && objlike_ok(lookup, o),
            _ => false,
        },
        RefOr::Reference(_) => false,
    }
}

/// Whether a composite merge succeeds: every constituent is mergeable, no
/// two constituents declare the same field identifier, and the merged
/// struct is non-empty.
pub open spec fn allof_ok(lookup: Seq<(String, RefOr<Schema>)>, cs: Seq<RefOr<Schema>>) -> bool
    decreases cs,
{
    &&& forall|i: int| 0 <= i < cs.len() ==> mergeable(lookup, #[trigger] cs[i])
    &&& distinct_seq(allof_names(cs))
    &&& allof_names(cs).len() > 0
}

/// Whether building a schema node succeeds.
pub open spec fn spec_build_ok(lookup: Seq<(String, RefOr<Schema>)>, node: RefOr<Schema>) -> bool
    decreases node,
{
    match node {
        RefOr::Reference(r) => spec_resolve(lookup, r@, 0) is Some,
        RefOr::Item(schema) => match schema.kind {
            SchemaKind::Str => true,
            SchemaKind::Number => true,
            SchemaKind::Integer => true,
            SchemaKind::Boolean => true,
            SchemaKind::Array(b) => spec_build_ok(lookup, *b) && !yields_struct(*b),
            SchemaKind::Object(o) => objlike_ok(lookup, o),
            SchemaKind::Any(o) => o.properties@.len() == 0 || objlike_ok(lookup, o),
            SchemaKind::AllOf(cs) => allof_ok(lookup, cs@),
            SchemaKind::Unsupported(_) => false,
        },
    }
}

/// What building a node returns, as a relation from node to result.
pub open spec fn built(
    lookup: Seq<(String, RefOr<Schema>)>,
    node: RefOr<Schema>,
    r: StructOrType,
) -> bool
    decreases node, 0int,
{
    match node {
        RefOr::Reference(refr) => match spec_resolve(lookup, refr@, 0) {
            Some(p) => r.meta == p.1 && (r.inner matches StructOrInner::Typ(ti) && (ti
                matches TypeInner::Named(t) && t@ == p.0)),
            None => false,
        },
        RefOr::Item(schema) => r.meta == schema.meta && (match schema.kind {
            SchemaKind::Str => r.inner == StructOrInner::Typ(TypeInner::Str),
            SchemaKind::Number => r.inner == StructOrInner::Typ(TypeInner::Number),
            SchemaKind::Integer => r.inner == StructOrInner::Typ(TypeInner::Integer),
            SchemaKind::Boolean => r.inner == StructOrInner::Typ(TypeInner::Boolean),
            SchemaKind::Array(b) => r.inner matches StructOrInner::Typ(ti) && (ti
                matches TypeInner::Array(bt) && built_ty(lookup, *b, *bt)),
            SchemaKind::Object(o) => r.inner matches StructOrInner::Struct(st) && struct_from(
                lookup,
                o,
                st,
            ),
            SchemaKind::Any(o) => if o.properties@.len() == 0 {
                r.inner == StructOrInner::Typ(TypeInner::Any)
            } else {
                r.inner matches StructOrInner::Struct(st) && struct_from(lookup, o, st)
            },
            SchemaKind::AllOf(cs) => r.inner matches StructOrInner::Struct(st) && merged_from(
                lookup,
                cs@,
                st,
            ),
            SchemaKind::Unsupported(_) => false,
        }),
    }
}

/// What building a node and discarding the struct case returns.
pub open spec fn built_ty(lookup: Seq<(String, RefOr<Schema>)>, node: RefOr<Schema>, t: Type) -> bool
    decreases node, 1int,
{
    built(lookup, node, StructOrType { meta: t.meta, inner: StructOrInner::Typ(t.typ) })
}

/// The metadata of an inline schema node.
pub open spec fn item_meta(node: RefOr<Schema>) -> crate::doc::SchemaMeta {
    match node {
        RefOr::Item(s) => s.meta,
        RefOr::Reference(_) => crate::doc::SchemaMeta { description: None, nullable: false },
    }
}

/// What building a mergeable constituent returns.
pub open spec fn built_struct(
    lookup: Seq<(String, RefOr<Schema>)>,
    node: RefOr<Schema>,
    st: Struct,
) -> bool
    decreases node, 1int,
{
    built(lookup, node, StructOrType { meta: item_meta(node), inner: StructOrInner::Struct(st) })
}

/// What an optional property's type is: the built base type wrapped in
/// `Optional`, with the wrap collapsed when the base is already optional.
pub open spec fn opt_built(lookup: Seq<(String, RefOr<Schema>)>, node: RefOr<Schema>, t: Type) -> bool
    decreases node, 2int,
{
    ||| (t.typ is Optional && built_ty(lookup, node, t))
    ||| (t.typ matches TypeInner::Optional(b) && built_ty(lookup, node, *b) && !((*b).typ
        is Optional) && t.meta == (*b).meta)
}

/// What one property contributes to struct extraction: the snake-cased
/// name, and the built type, `Optional`-wrapped iff the property is not
/// required.
pub open spec fn field_from(
    lookup: Seq<(String, RefOr<Schema>)>,
    required: Seq<String>,
    p: (String, RefOr<Schema>),
    f: Field,
) -> bool
    decreases p,
{
    &&& f.name@ == snake_of(p.0@)
    &&& (if seq_contains_str(required, p.0@) {
        built_ty(lookup, p.1, f.ty)
    } else {
        opt_built(lookup, p.1, f.ty)
    })
}

/// What struct extraction returns: one field per declared property, in
/// declared order.
pub open spec fn struct_from(
    lookup: Seq<(String, RefOr<Schema>)>,
    o: ObjectSchema,
    st: Struct,
) -> bool
    decreases o,
{
    &&& st.fields@.len() == o.properties@.len()
    &&& forall|i: int|
        0 <= i < o.properties@.len() ==> field_from(
            lookup,
            o.required@,
            o.properties@[i],
            #[trigger] st.fields@[i],
        )
}

/// What a composite merge returns: the constituents' structs' fields,
/// concatenated in order.
pub open spec fn merged_from(
    lookup: Seq<(String, RefOr<Schema>)>,
    cs: Seq<RefOr<Schema>>,
    st: Struct,
) -> bool
    decreases cs,
{
    exists|sts: Seq<Struct>|
        {
            &&& sts.len() == cs.len()
            &&& (forall|i: int|
                0 <= i < cs.len() ==> built_struct(lookup, cs[i], #[trigger] sts[i]))
            &&& st.fields@ == structs_fields(sts)
        }
}

/// Exhibiting one witness sequence of structs establishes a merge.
proof fn lemma_merged_from_intro(
    lookup: Seq<(String, RefOr<Schema>)>,
    cs: Seq<RefOr<Schema>>,
    st: Struct,
    sts: Seq<Struct>,
)
    requires
        sts.len() == cs.len(),
        forall|i: int| 0 <= i < cs.len() ==> built_struct(lookup, cs[i], #[trigger] sts[i]),
        st.fields@ == structs_fields(sts),
    ensures
        merged_from(lookup, cs, st),
{
    assert(merged_from(lookup, cs, st)) by {
        assert(sts.len() == cs.len() && (forall|i: int|
            0 <= i < cs.len() ==> built_struct(lookup, cs[i], #[trigger] sts[i])) && st.fields@
            == structs_fields(sts));
    }
}

/// A build result is a struct exactly for the struct-yielding nodes.
pub proof fn lemma_built_shape(
    lookup: Seq<(String, RefOr<Schema>)>,
    node: RefOr<Schema>,
    r: StructOrType,
)
    requires
        built(lookup, node, r),
    ensures
        (r.inner is Struct) == yields_struct(node),
{
}

/// Whether `v` holds a string equal to `s`.
pub fn contains_string(v: &Vec<String>, s: &String) -> (r: bool)
    ensures
        r == seq_contains_str(v@, s@),
{
    let n = v.len();
    let mut i: usize = 0;
    while i < n
        invariant
            i <= n,
            n == v@.len(),
            forall|j: int| 0 <= j < i ==> (#[trigger] v@[j]@) != s@,
        decreases n - i,
    {
        if v[i] == *s {
            return true;
        }
        i = i + 1;
    }
    false
}

impl Struct {
    /// Struct extraction: iterate the declared properties in order; build
    /// each type, wrap it in `Optional` iff the name is absent from the
    /// `required` list, and append a field. An object with no usable
    /// fields is rejected, never coerced to `Any`.
    pub fn from_objlike(obj: &ObjectSchema, schema_lookup: &SchemaLookup) -> (r: Result<
        Struct,
        Error,
    >)
        ensures
            r is Ok <==> objlike_ok(schema_lookup@, *obj),
            r matches Ok(st) ==> struct_from(schema_lookup@, *obj, st) && struct_wf(st),
            r matches Err(e) ==> !(e is NoOperationId),
            obj.properties@.len() == 0 ==> (r matches Err(e) && e is EmptyStruct),
            forall|j: int|
                (0 <= j < obj.properties@.len() && (forall|i: int|
                    0 <= i < j ==> prop_ok(schema_lookup@, #[trigger] obj.properties@[i]))
                    && spec_build_ok(schema_lookup@, (#[trigger] obj.properties@[j]).1)
                    && yields_struct(obj.properties@[j].1)) ==> (r matches Err(e) && e
                    is NotStructurallyTyped),
            forall|j: int|
                (0 <= j < obj.properties@.len() && (forall|i: int|
                    0 <= i < j ==> prop_ok(schema_lookup@, #[trigger] obj.properties@[i]))
                    && spec_build_ok(schema_lookup@, (#[trigger] obj.properties@[j]).1)
                    && !yields_struct(obj.properties@[j].1) && !ident_accepted(
                    obj.properties@[j].0@,
                )) ==> (r matches Err(e) && (e matches Error::BadIdentifier(m) && m@
                    == obj.properties@[j].0@)),
        decreases *obj,
    {
        let ghost lk = schema_lookup@;
        let mut fields: Vec<Field> = Vec::new();
        let n = obj.properties.len();
        let mut i: usize = 0;
        while i < n
            invariant
                i <= n,
                n == obj.properties@.len(),
                lk == schema_lookup@,
                fields@.len() == i,
                forall|j: int| 0 <= j < i ==> prop_ok(lk, #[trigger] obj.properties@[j]),
                forall|j: int|
                    0 <= j < i ==> field_from(
                        lk,
                        obj.required@,
                        obj.properties@[j],
                        #[trigger] fields@[j],
                    ),
                forall|j: int|
                    0 <= j < i ==> (#[trigger] fields@[j]).name.wf() && type_wf(fields@[j].ty),
            decreases n - i,
        {
            let prop = &obj.properties[i];
            let sot = match build_type(&prop.1, schema_lookup) {
                Ok(s) => s,
                Err(e) => {
                    proof {
                        assert(!prop_ok(lk, obj.properties@[i as int]));
                    }
                    return Err(e);
                },
            };
            proof {
                lemma_built_shape(lk, obj.properties@[i as int].1, sot);
            }
            let ghost sot_snap = sot;
            let base = match sot.discard_struct() {
                Ok(t) => t,
                Err(e) => {
                    proof {
                        assert(yields_struct(obj.properties@[i as int].1));
                        assert(!prop_ok(lk, obj.properties@[i as int]));
                    }
                    return Err(e);
                },
            };
            proof {
                assert(StructOrType { meta: base.meta, inner: StructOrInner::Typ(base.typ) }
                    == sot_snap);
                assert(built_ty(lk, obj.properties@[i as int].1, base));
            }
            let ghost base_snap = base;
            let required = contains_string(&obj.required, &prop.0);
            let ty = if required {
                base
            } else {
                base.to_option()
            };
            let name = match Ident::parse(prop.0.as_str()) {
                Ok(id) => id,
                Err(e) => {
                    proof {
                        assert(!ident_accepted(obj.properties@[i as int].0@));
                        assert(!prop_ok(lk, obj.properties@[i as int]));
                    }
                    return Err(e);
                },
            };
            let field = Field { name, ty };
            proof {
                assert(field_from(lk, obj.required@, obj.properties@[i as int], field)) by {
                    assert(field.name@ == snake_of(obj.properties@[i as int].0@));
                    assert(built_ty(lk, obj.properties@[i as int].1, base_snap));
                    if seq_contains_str(obj.required@, obj.properties@[i as int].0@) {
                        assert(field.ty == base_snap);
                    } else {
                        assert(optioned(base_snap, field.ty));
                        assert(opt_built(lk, obj.properties@[i as int].1, field.ty));
                    }
                }
            }
            fields.push(field);
            i = i + 1;
        }
        if fields.is_empty() {
            assert(!objlike_ok(lk, *obj));
            return Err(Error::EmptyStruct);
        }
        proof {
            assert(objlike_ok(lk, *obj));
        }
        Ok(Struct { fields })
    }
}

/// Build the type IR for one schema node. Total over the supported schema
/// shapes; unsupported kinds fail. A bare reference short-circuits to a
/// `Named` leaf after validating the pointer chain.
pub fn build_type(node: &RefOr<Schema>, schema_lookup: &SchemaLookup) -> (r: Result<
    StructOrType,
    Error,
>)
    ensures
        r is Ok <==> spec_build_ok(schema_lookup@, *node),
        r matches Ok(t) ==> built(schema_lookup@, *node, t) && struct_or_type_wf(t),
        r matches Err(e) ==> !(e is NoOperationId),
        (match *node {
            RefOr::Item(s) => match s.kind {
                SchemaKind::Unsupported(label) => r matches Err(e) && (e
                    matches Error::UnsupportedKind(m) && m@ == label@),
                _ => true,
            },
            RefOr::Reference(s2) => match spec_extract(s2@, schemas_ns()) {
                None => r matches Err(e) && (e matches Error::BadReference(m) && m@ == s2@),
                Some(nm) => if nm != camel_of(nm) {
                    r matches Err(e) && (e matches Error::BadTypeName(m) && m@ == ref_name(s2@))
                } else if seq_lookup(schema_lookup@, nm) is None {
                    r matches Err(e) && (e matches Error::BadReference(m) && m@ == s2@)
                } else {
                    true
                },
            },
        }),
    decreases *node,
{
    let ghost lk = schema_lookup@;
    let schema = match node {
        RefOr::Reference(reference) => {
            match validate_schema_ref(reference.as_str(), schema_lookup) {
                Ok(p) => {
                    return Ok(TypeInner::Named(p.0).with_meta_either(p.1));
                },
                Err(e) => {
                    return Err(e);
                },
            }
        },
        RefOr::Item(item) => item,
    };
    let meta = clone_meta(&schema.meta);
    match &schema.kind {
        SchemaKind::Str => Ok(TypeInner::Str.with_meta_either(meta)),
        SchemaKind::Number => Ok(TypeInner::Number.with_meta_either(meta)),
        SchemaKind::Integer => Ok(TypeInner::Integer.with_meta_either(meta)),
        SchemaKind::Boolean => Ok(TypeInner::Boolean.with_meta_either(meta)),
        SchemaKind::Array(items) => {
            let sot = match build_type(&**items, schema_lookup) {
                Ok(s) => s,
                Err(e) => {
                    return Err(e);
                },
            };
            proof {
                lemma_built_shape(lk, *(*items), sot);
            }
            let ghost sot_snap = sot;
            let inner = match sot.discard_struct() {
                Ok(t) => t,
                Err(e) => {
                    return Err(e);
                },
            };
            proof {
                assert(StructOrType { meta: inner.meta, inner: StructOrInner::Typ(inner.typ) }
                    == sot_snap);
                assert(built_ty(lk, *(*items), inner));
            }
            Ok(TypeInner::Array(Box::new(inner)).with_meta_either(meta))
        },
        SchemaKind::Object(obj) => {
            match Struct::from_objlike(obj, schema_lookup) {
                Ok(st) => Ok(st.with_meta_either(meta)),
                Err(e) => Err(e),
            }
        },
        SchemaKind::Any(obj) => {
            if obj.properties.len() == 0 {
                Ok(TypeInner::Any.with_meta_either(meta))
            } else {
                match Struct::from_objlike(obj, schema_lookup) {
                    Ok(st) => Ok(st.with_meta_either(meta)),
                    Err(e) => Err(e),
                }
            }
        },
        SchemaKind::AllOf(schemas) => {
            match combine_types(schemas, schema_lookup) {
                Ok(st) => Ok(st.with_meta_either(meta)),
                Err(e) => Err(e),
            }
        },
        SchemaKind::Unsupported(label) => Err(Error::UnsupportedKind(label.clone())),
    }
}

/// Extract the struct of one composite constituent, which must be an
/// inline object-like schema.
fn merge_one(node: &RefOr<Schema>, schema_lookup: &SchemaLookup) -> (r: Result<Struct, Error>)
    ensures
        r is Ok <==> mergeable(schema_lookup@, *node),
        r matches Ok(st) ==> built_struct(schema_lookup@, *node, st) && struct_wf(st)
            && field_names(st.fields@) == node_prop_names(*node),
        r matches Err(e) ==> !(e is NoOperationId),
        !node_is_object_like(*node) ==> (r matches Err(e) && (e matches Error::Todo(m) && m@
            == "Only object-like types allowed in AllOf types"@)),
    decreases *node,
{
    let ghost lk = schema_lookup@;
    match node {
        RefOr::Item(schema) => match &schema.kind {
            SchemaKind::Object(o) => {
                match Struct::from_objlike(o, schema_lookup) {
                    Ok(st) => {
                        proof {
                            assert(built(lk, *node, StructOrType {
                                meta: schema.meta,
                                inner: StructOrInner::Struct(st),
                            }));
                            assert(built_struct(lk, *node, st));
                            assert forall|i: int| 0 <= i < st.fields@.len() implies (
                            #[trigger] field_names(st.fields@)[i]) == prop_names(o.properties@)[i]
                                by {
                                assert(field_from(lk, o.required@, o.properties@[i], st.fields@[i]));
                            }
                            assert(field_names(st.fields@) =~= node_prop_names(*node));
                        }
                        Ok(st)
                    },
                    Err(e) => Err(e),
                }
            },
            SchemaKind::Any(o) => {
                if o.properties.len() == 0 {
                    return Err(
                        Error::Todo(
                            String::from_str("Only object-like types allowed in AllOf types"),
                        ),
                    );
                }
                match Struct::from_objlike(o, schema_lookup) {
                    Ok(st) => {
                        proof {
                            assert(built(lk, *node, StructOrType {
                                meta: schema.meta,
                                inner: StructOrInner::Struct(st),
                            }));
                            assert(built_struct(lk, *node, st));
                            assert forall|i: int| 0 <= i < st.fields@.len() implies (
                            #[trigger] field_names(st.fields@)[i]) == prop_names(o.properties@)[i]
                                by {
                                assert(field_from(lk, o.required@, o.properties@[i], st.fields@[i]));
                            }
                            assert(field_names(st.fields@) =~= node_prop_names(*node));
                        }
                        Ok(st)
                    },
                    Err(e) => Err(e),
                }
            },
            _ => Err(
                Error::Todo(String::from_str("Only object-like types allowed in AllOf types")),
            ),
        },
        RefOr::Reference(_) => Err(
            Error::Todo(String::from_str("Only object-like types allowed in AllOf types")),
        ),
    }
}

/// Merge the structs of a composite's constituents into one struct. Every
/// constituent must be an inline object-like schema; two constituents
/// declaring one field identifier is a duplicate-name error, and an empty
/// merge is an empty-struct error.
#[verifier::loop_isolation(false)]
pub fn combine_types(types: &Vec<RefOr<Schema>>, schema_lookup: &SchemaLookup) -> (r: Result<
    Struct,
    Error,
>)
    ensures
        r is Ok <==> allof_ok(schema_lookup@, types@),
        r matches Ok(st) ==> merged_from(schema_lookup@, types@, st) && struct_wf(st),
        r matches Err(e) ==> !(e is NoOperationId),
        types@.len() == 0 ==> (r matches Err(e) && e is EmptyStruct),
        forall|j: int|
            (0 <= j < types@.len() && (forall|i: int|
                0 <= i < j ==> mergeable(schema_lookup@, #[trigger] types@[i])) && distinct_seq(
                allof_names(types@),
            ) && !node_is_object_like(#[trigger] types@[j])) ==> (r matches Err(e) && (e
                matches Error::Todo(m) && m@ == "Only object-like types allowed in AllOf types"@)),
        ((forall|i: int| 0 <= i < types@.len() ==> mergeable(schema_lookup@, #[trigger] types@[i]))
            && !distinct_seq(allof_names(types@))) ==> (r matches Err(e) && (e
            matches Error::DuplicateName(m) && duplicated_name(allof_names(types@), m@))),
    decreases *types,
{
    let ghost lk = schema_lookup@;
    let mut fields: Vec<Field> = Vec::new();
    let ghost mut sts: Seq<Struct> = Seq::empty();
    proof {
        assert(fields@ =~= structs_fields(sts));
        assert(field_names(fields@) =~= allof_names(types@.take(0)));
    }
    let n = types.len();
    let mut k: usize = 0;
    while k < n
        invariant
            k <= n,
            n == types@.len(),
            lk == schema_lookup@,
            sts.len() == k,
            forall|i: int| 0 <= i < k ==> mergeable(lk, #[trigger] types@[i]),
            forall|i: int| 0 <= i < k ==> built_struct(lk, types@[i], #[trigger] sts[i]),
            fields@ == structs_fields(sts),
            field_names(fields@) == allof_names(types@.take(k as int)),
            distinct_seq(field_names(fields@)),
            forall|i: int|
                0 <= i < fields@.len() ==> (#[trigger] fields@[i]).name.wf() && type_wf(
                    fields@[i].ty,
                ),
        decreases n - k,
    {
        let node = &types[k];
        let st = match merge_one(node, schema_lookup) {
            Ok(s) => s,
            Err(e) => {
                proof {
                    assert(!mergeable(lk, types@[k as int]));
                }
                return Err(e);
            },
        };
        let ghost st_snap = st;
        let ghost fields_before = fields@;
        let mut fs = st.fields;
        let fs_len = fs.len();
        let ghost fs_all = fs@;
        proof {
            assert(fs_all.len() == fs_len);
            assert(fields@ =~= fields_before + fs_all.take(0));
            assert(field_names(fields@) =~= field_names(fields_before) + field_names(
                fs_all.take(0),
            ));
        }
        let mut j: usize = 0;
        while fs.len() > 0
            invariant
                j <= fs_all.len(),
                fs_all.len() <= usize::MAX,
                fs@ == fs_all.skip(j as int),
                fields@ == fields_before + fs_all.take(j as int),
                distinct_seq(field_names(fields@)),
                field_names(fields@) == field_names(fields_before) + field_names(
                    fs_all.take(j as int),
                ),
                forall|i: int|
                    0 <= i < fields@.len() ==> (#[trigger] fields@[i]).name.wf() && type_wf(
                        fields@[i].ty,
                    ),
                forall|i: int|
                    0 <= i < fs_all.len() ==> (#[trigger] fs_all[i]).name.wf() && type_wf(
                        fs_all[i].ty,
                    ),
            decreases fs@.len(),
        {
            let ghost fields_pre = fields@;
            let f = fs.remove(0);
            proof {
                assert(f == fs_all[j as int]);
                assert(fs@ =~= fs_all.skip(j as int + 1));
            }
            let m = fields.len();
            let mut x: usize = 0;
            while x < m
                invariant
                    x <= m,
                    m == fields@.len(),
                    forall|y: int| 0 <= y < x ==> (#[trigger] fields@[y]).name@ != f.name@,
                decreases m - x,
            {
                if fields[x].name.eq_name(&f.name) {
                    proof {
                        let all = allof_names(types@);
                        let base = allof_names(types@.take(k as int));
                        let names_pre = field_names(fields@);
                        let fsn = field_names(fs_all);
                        lemma_allof_names_split(types@, k as int);
                        assert(types@.skip(k as int)[0] == types@[k as int]);
                        assert(types@.skip(k as int).drop_first() =~= types@.skip(k as int + 1));
                        assert(allof_names(types@.skip(k as int)) == node_prop_names(
                            types@[k as int],
                        ) + allof_names(types@.skip(k as int + 1)));
                        assert(all == base + (fsn + allof_names(types@.skip(k as int + 1))));
                        let i2 = base.len() + j;
                        assert(fsn[j as int] == f.name@);
                        assert(all[i2 as int] == f.name@);
                        assert(names_pre.len() == base.len() + j);
                        if x < base.len() {
                            assert(all[x as int] == base[x as int]);
                            assert(names_pre[x as int] == base[x as int]);
                        } else {
                            assert(names_pre[x as int] == field_names(fs_all.take(j as int))[
                                x - base.len() as int]);
                            assert(field_names(fs_all.take(j as int))[x - base.len() as int]
                                == fsn[x - base.len() as int]);
                            assert(all[x as int] == fsn[x - base.len() as int]);
                        }
                        assert(names_pre[x as int] == f.name@);
                        assert(all[x as int] == all[i2 as int]);
                        assert(!distinct_seq(all));
                    }
                    return Err(Error::DuplicateName(f.name.to_string()));
                }
                x = x + 1;
            }
            proof {
                let old_names = field_names(fields_pre);
                let new_names = field_names(fields_pre.push(f));
                assert(new_names =~= old_names.push(f.name@));
                assert(distinct_seq(new_names)) by {
                    assert forall|a: int, b: int|
                        0 <= a < b < new_names.len() implies new_names[a] != new_names[b] by {
                        if b == new_names.len() - 1 {
                            assert(fields_pre[a].name@ != f.name@);
                        }
                    }
                }
                assert(fields_pre.push(f) =~= fields_before + fs_all.take(j as int + 1));
                assert(field_names(fs_all.take(j as int + 1)) =~= field_names(
                    fs_all.take(j as int),
                ).push(f.name@));
                assert(new_names =~= field_names(fields_before) + field_names(
                    fs_all.take(j as int + 1),
                ));
            }
            fields.push(f);
            j = j + 1;
        }
        proof {
            assert(fs_all.take(fs_all.len() as int) =~= fs_all);
            lemma_structs_fields_push(sts, st_snap);
            sts = sts.push(st_snap);
            assert(fields@ == structs_fields(sts));
            assert(types@.take(k + 1) =~= types@.take(k as int).push(types@[k as int]));
            lemma_allof_names_push(types@.take(k as int), types@[k as int]);
            assert(field_names(fields@) == allof_names(types@.take(k + 1)));
        }
        k = k + 1;
    }
    proof {
        assert(types@.take(n as int) =~= types@);
    }
    if fields.is_empty() {
        proof {
            assert(allof_names(types@).len() == 0);
            assert(!allof_ok(lk, types@));
        }
        return Err(Error::EmptyStruct);
    }
    proof {
        assert(allof_ok(lk, types@));
        let st = Struct { fields: fields };
        lemma_merged_from_intro(lk, types@, st, sts);
    }
    Ok(Struct { fields })
}

/// The compiled type map: one named entry per component schema, in
/// declared order. Built once, immutable thereafter; the emitters borrow
/// read-only views.
pub type TypeMap = Vec<(TypeName, StructOrType)>;

/// Whether the whole components section builds: every name is a valid type
/// name and every schema builds.
pub open spec fn components_ok(lookup: Seq<(String, RefOr<Schema>)>) -> bool {
    forall|i: int|
        0 <= i < lookup.len() ==> (#[trigger] lookup[i]).0@ == camel_of(lookup[i].0@)
            && spec_build_ok(lookup, lookup[i].1)
}

/// What the compiled type map holds: the validated name and the built type
/// of each component, in order.
pub open spec fn components_built(
    lookup: Seq<(String, RefOr<Schema>)>,
    tm: Seq<(TypeName, StructOrType)>,
) -> bool {
    &&& tm.len() == lookup.len()
    &&& forall|i: int|
        0 <= i < tm.len() ==> (#[trigger] tm[i]).0@ == lookup[i].0@ && tm[i].0.wf() && built(
            lookup,
            lookup[i].1,
            tm[i].1,
        ) && struct_or_type_wf(tm[i].1)
}

/// Traverse the components section and prepare one named type definition
/// per schema.
#[verifier::loop_isolation(false)]
pub fn gather_component_types(schema_lookup: &SchemaLookup) -> (r: Result<TypeMap, Error>)
    ensures
        r is Ok <==> components_ok(schema_lookup@),
        r matches Ok(tm) ==> components_built(schema_lookup@, tm@),
        r matches Err(e) ==> !(e is NoOperationId),
{
    let ghost lk = schema_lookup@;
    let mut typs: TypeMap = Vec::new();
    let n = schema_lookup.len();
    let mut i: usize = 0;
    while i < n
        invariant
            i <= n,
            n == lk.len(),
            typs@.len() == i,
            forall|j: int|
                0 <= j < i ==> (#[trigger] lk[j]).0@ == camel_of(lk[j].0@) && spec_build_ok(
                    lk,
                    lk[j].1,
                ),
            forall|j: int|
                0 <= j < i ==> (#[trigger] typs@[j]).0@ == lk[j].0@ && typs@[j].0.wf() && built(
                    lk,
                    lk[j].1,
                    typs@[j].1,
                ) && struct_or_type_wf(typs@[j].1),
        decreases n - i,
    {
        let entry = schema_lookup.entry_at(i);
        let typename = match TypeName::new(entry.0.clone()) {
            Ok(t) => t,
            Err(e) => {
                return Err(e);
            },
        };
        let typ = match build_type(&entry.1, schema_lookup) {
            Ok(t) => t,
            Err(e) => {
                return Err(e);
            },
        };
        typs.push((typename, typ));
        i = i + 1;
    }
    Ok(typs)
}

} // verus!
