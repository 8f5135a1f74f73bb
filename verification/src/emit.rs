//! The code emitters: pure functions from the IR to target-language source
//! text.
//!
//! Every emitter is total over the IR and independent of the others; the
//! operation identifier is shared verbatim across the generated interface
//! method, its dispatcher entry, the routing-table entry and the client
//! method, which is what keeps the four artifacts mutually consistent.
//! Whitespace is left to an external formatter: its absence changes only
//! layout, never meaning.

use vstd::prelude::*;

verus! {

use crate::builder::TypeMap;
use crate::doc::SchemaMeta;
use crate::ir::Field;
use crate::ir::Struct;
use crate::ir::StructOrInner;
use crate::ir::StructOrType;
use crate::ir::Type;
use crate::ir::TypeInner;
use crate::names::camel_of;
use crate::names::Ident;
use crate::names::snake_of;
use crate::names::to_camel;
use crate::names::to_snake;
use crate::names::TypeName;
use crate::omap::StringMap;
use crate::path::SegView;
use crate::path::spec_build_template;
use crate::path::spec_path_args;
use crate::routes::Method;
use crate::routes::Route;
use crate::routes::spec_verb;
use crate::routes::spec_verb_lower;
use crate::text::concat_map;
use crate::text::lemma_concat_map_push;
use crate::text::push_char;

/// What one character contributes to an escaped string literal.
pub open spec fn esc_piece(c: char) -> Seq<char> {
    if c == '"' || c == '\\' {
        seq!['\\', c]
    } else {
        seq![c]
    }
}

/// A character sequence escaped for use inside a double-quoted literal.
pub open spec fn spec_escaped(s: Seq<char>) -> Seq<char> {
    concat_map(s, |c: char| esc_piece(c))
}

/// Escape a string for embedding in a double-quoted literal.
pub fn escape_str(s: &str) -> (r: String)
    ensures
        r@ == spec_escaped(s@),
{
    proof {
        reveal_strlit("\\\"");
        reveal_strlit("\\\\");
    }
    let mut out = String::new();
    let n = s.unicode_len();
    let mut i: usize = 0;
    proof {
        assert(out@ =~= spec_escaped(s@.take(0)));
    }
    while i < n
        invariant
            i <= n,
            n == s@.len(),
            out@ == spec_escaped(s@.take(i as int)),
        decreases n - i,
    {
        let c = s.get_char(i);
        proof {
            reveal_strlit("\\\"");
            reveal_strlit("\\\\");
            assert(s@.take(i + 1) =~= s@.take(i as int).push(s@[i as int]));
            lemma_concat_map_push(s@.take(i as int), |ch: char| esc_piece(ch), s@[i as int]);
        }
        if c == '"' {
            out.append("\\\"");
            proof {
                assert("\\\""@ =~= seq!['\\', '"']);
                assert(out@ =~= spec_escaped(s@.take(i + 1)));
            }
        } else if c == '\\' {
            out.append("\\\\");
            proof {
                assert("\\\\"@ =~= seq!['\\', '\\']);
                assert(out@ =~= spec_escaped(s@.take(i + 1)));
            }
        } else {
            push_char(&mut out, c);
            proof {
                assert(out@ =~= spec_escaped(s@.take(i + 1)));
            }
        }
        i = i + 1;
    }
    proof {
        assert(s@.take(n as int) =~= s@);
    }
    out
}

/// The doc attribute a node's description contributes, if it has one.
pub open spec fn spec_doc(meta: SchemaMeta) -> Seq<char> {
    match meta.description {
        Some(m) => "#[doc = \""@ + spec_escaped(m@) + "\"]\n"@,
        None => Seq::empty(),
    }
}

/// Render the doc attribute of a node's description.
pub fn doc_comment(meta: &SchemaMeta) -> (r: String)
    ensures
        r@ == spec_doc(*meta),
{
    let mut out = String::new();
    match &meta.description {
        Some(m) => {
            out.append("#[doc = \"");
            out.append(escape_str(m.as_str()).as_str());
            out.append("\"]\n");
            proof {
                assert(out@ =~= spec_doc(*meta));
            }
        },
        None => {
            proof {
                assert(out@ =~= spec_doc(*meta));
            }
        },
    }
    out
}

/// The derive list every emitted data type carries.
pub open spec fn spec_derives() -> Seq<char> {
    "#[derive(Debug, Clone, PartialEq, PartialOrd, hsr::Serialize, hsr::Deserialize)]\n"@
}

/// Render the derive list.
pub fn get_derive_tokens() -> (r: String)
    ensures
        r@ == spec_derives(),
{
    String::from_str("#[derive(Debug, Clone, PartialEq, PartialOrd, hsr::Serialize, hsr::Deserialize)]\n")
}

/// The text of a type's shape. A free-form `Any` renders to the runtime's
/// unit-like catch-all so that emission stays total over the IR.
pub open spec fn spec_render_inner(ti: TypeInner) -> Seq<char>
    decreases ti,
{
    match ti {
        TypeInner::Str => "String"@,
        TypeInner::Number => "f64"@,
        TypeInner::Integer => "i64"@,
        TypeInner::Boolean => "bool"@,
        TypeInner::Array(b) => "Vec<"@ + spec_render_inner((*b).typ) + ">"@,
        TypeInner::Optional(b) => "Option<"@ + spec_render_inner((*b).typ) + ">"@,
        TypeInner::Named(n) => n@,
        TypeInner::Any => "Void"@,
    }
}

/// The text of a type.
pub open spec fn spec_render_type(t: Type) -> Seq<char> {
    spec_render_inner(t.typ)
}

/// Render a type's shape.
pub fn render_inner(ti: &TypeInner) -> (r: String)
    ensures
        r@ == spec_render_inner(*ti),
    decreases *ti,
{
    match ti {
        TypeInner::Str => String::from_str("String"),
        TypeInner::Number => String::from_str("f64"),
        TypeInner::Integer => String::from_str("i64"),
        TypeInner::Boolean => String::from_str("bool"),
        TypeInner::Array(b) => {
            let mut out = String::from_str("Vec<");
            out.append(render_inner(&b.typ).as_str());
            out.append(">");
            proof {
                assert(out@ =~= spec_render_inner(*ti));
            }
            out
        },
        TypeInner::Optional(b) => {
            let mut out = String::from_str("Option<");
            out.append(render_inner(&b.typ).as_str());
            out.append(">");
            proof {
                assert(out@ =~= spec_render_inner(*ti));
            }
            out
        },
        TypeInner::Named(n) => n.to_string(),
        TypeInner::Any => String::from_str("Void"),
    }
}

/// Render a type.
pub fn render_type(t: &Type) -> (r: String)
    ensures
        r@ == spec_render_type(*t),
{
    render_inner(&t.typ)
}

/// The text of one struct field: its doc, its name, its type.
pub open spec fn spec_field_def(f: Field) -> Seq<char> {
    spec_doc(f.ty.meta) + "    pub "@ + f.name@ + ": "@ + spec_render_type(f.ty) + ",\n"@
}

/// The text of a struct definition.
pub open spec fn spec_struct_def(name: Seq<char>, meta: SchemaMeta, st: Struct) -> Seq<char> {
    spec_derives() + spec_doc(meta) + "pub struct "@ + name + " {\n"@ + concat_map(
        st.fields@,
        |f: Field| spec_field_def(f),
    ) + "}\n"@
}

/// Generate a struct definition for a named object type.
#[verifier::loop_isolation(false)]
pub fn generate_struct_def(name: &TypeName, meta: &SchemaMeta, st: &Struct) -> (r: String)
    ensures
        r@ == spec_struct_def(name@, *meta, *st),
{
    let mut out = get_derive_tokens();
    out.append(doc_comment(meta).as_str());
    out.append("pub struct ");
    out.append(name.as_str());
    out.append(" {\n");
    let ghost head = out@;
    let n = st.fields.len();
    let mut i: usize = 0;
    proof {
        assert(out@ =~= head + concat_map(st.fields@.take(0), |f: Field| spec_field_def(f)));
    }
    while i < n
        invariant
            i <= n,
            n == st.fields@.len(),
            out@ == head + concat_map(st.fields@.take(i as int), |f: Field| spec_field_def(f)),
        decreases n - i,
    {
        let f = &st.fields[i];
        proof {
            assert(st.fields@.take(i + 1) =~= st.fields@.take(i as int).push(
                st.fields@[i as int],
            ));
            lemma_concat_map_push(
                st.fields@.take(i as int),
                |g: Field| spec_field_def(g),
                st.fields@[i as int],
            );
        }
        out.append(doc_comment(&f.ty.meta).as_str());
        out.append("    pub ");
        out.append(f.name.as_str());
        out.append(": ");
        out.append(render_type(&f.ty).as_str());
        out.append(",\n");
        proof {
            assert(out@ =~= head + concat_map(
                st.fields@.take(i + 1),
                |g: Field| spec_field_def(g),
            ));
        }
        i = i + 1;
    }
    out.append("}\n");
    proof {
        assert(st.fields@.take(n as int) =~= st.fields@);
        assert(out@ =~= spec_struct_def(name@, *meta, *st));
    }
    out
}

/// The text one component contributes: a struct definition or a type
/// alias.
pub open spec fn spec_component_def(e: (TypeName, StructOrType)) -> Seq<char> {
    match e.1.inner {
        StructOrInner::Struct(st) => spec_struct_def(e.0@, e.1.meta, st),
        StructOrInner::Typ(ti) => spec_doc(e.1.meta) + "pub type "@ + e.0@ + " = "@
            + spec_render_inner(ti) + ";\n"@,
    }
}

/// The text of the whole component-type section.
pub open spec fn spec_component_types(tm: Seq<(TypeName, StructOrType)>) -> Seq<char> {
    concat_map(tm, |e: (TypeName, StructOrType)| spec_component_def(e))
}

/// Generate a `struct` or `type` alias definition for each named type of
/// the components section.
#[verifier::loop_isolation(false)]
pub fn generate_rust_component_types(typs: &TypeMap) -> (r: String)
    ensures
        r@ == spec_component_types(typs@),
{
    let mut out = String::new();
    let n = typs.len();
    let mut i: usize = 0;
    proof {
        assert(out@ =~= spec_component_types(typs@.take(0)));
    }
    while i < n
        invariant
            i <= n,
            n == typs@.len(),
            out@ == spec_component_types(typs@.take(i as int)),
        decreases n - i,
    {
        let entry = &typs[i];
        proof {
            assert(typs@.take(i + 1) =~= typs@.take(i as int).push(typs@[i as int]));
            lemma_concat_map_push(
                typs@.take(i as int),
                |e: (TypeName, StructOrType)| spec_component_def(e),
                typs@[i as int],
            );
        }
        match &entry.1.inner {
            StructOrInner::Struct(st) => {
                out.append(generate_struct_def(&entry.0, &entry.1.meta, st).as_str());
            },
            StructOrInner::Typ(ti) => {
                out.append(doc_comment(&entry.1.meta).as_str());
                out.append("pub type ");
                out.append(entry.0.as_str());
                out.append(" = ");
                out.append(render_inner(ti).as_str());
                out.append(";\n");
            },
        }
        proof {
            assert(out@ =~= spec_component_types(typs@.take(i + 1)));
        }
        i = i + 1;
    }
    proof {
        assert(typs@.take(n as int) =~= typs@);
    }
    out
}

/// One signature parameter: `, name: Type`.
pub open spec fn spec_param(p: (Ident, Type)) -> Seq<char> {
    ", "@ + p.0@ + ": "@ + spec_render_type(p.1)
}

/// A run of signature parameters.
pub open spec fn spec_params(ps: Seq<(Ident, Type)>) -> Seq<char> {
    concat_map(ps, |p: (Ident, Type)| spec_param(p))
}

/// Render a run of signature parameters.
#[verifier::loop_isolation(false)]
fn params_sig(ps: &Vec<(Ident, Type)>) -> (r: String)
    ensures
        r@ == spec_params(ps@),
{
    let mut out = String::new();
    let n = ps.len();
    let mut i: usize = 0;
    proof {
        assert(out@ =~= spec_params(ps@.take(0)));
    }
    while i < n
        invariant
            i <= n,
            n == ps@.len(),
            out@ == spec_params(ps@.take(i as int)),
        decreases n - i,
    {
        proof {
            assert(ps@.take(i + 1) =~= ps@.take(i as int).push(ps@[i as int]));
            lemma_concat_map_push(
                ps@.take(i as int),
                |p: (Ident, Type)| spec_param(p),
                ps@[i as int],
            );
        }
        let p = &ps[i];
        out.append(", ");
        out.append(p.0.as_str());
        out.append(": ");
        out.append(render_type(&p.1).as_str());
        proof {
            assert(out@ =~= spec_params(ps@.take(i + 1)));
        }
        i = i + 1;
    }
    proof {
        assert(ps@.take(n as int) =~= ps@);
    }
    out
}

/// The success payload's text, or the unit type for a body-less success.
pub open spec fn spec_success_text(rt: Route) -> Seq<char> {
    match rt.success.1 {
        Some(t) => spec_render_type(t),
        None => "()"@,
    }
}

/// The name of a route's error taxonomy type.
pub open spec fn spec_err_name(rt: Route) -> Seq<char> {
    camel_of(rt.operation_id@) + "Error"@
}

/// The name of a route's query-parameter bag type.
pub open spec fn spec_query_name(rt: Route) -> Seq<char> {
    camel_of(rt.operation_id@) + "Query"@
}

/// The return type of a route's method: the success type alone, or a
/// result tagged with the error taxonomy when error variants exist.
pub open spec fn spec_ret(rt: Route) -> Seq<char> {
    if rt.errors@.len() == 0 {
        spec_success_text(rt)
    } else {
        "std::result::Result<"@ + spec_success_text(rt) + ", "@ + spec_err_name(rt) + ">"@
    }
}

/// The trailing body parameter, when the method carries a payload.
pub open spec fn spec_body_param(rt: Route) -> Seq<char> {
    match rt.method {
        Method::WithBody { body_type: Some(t), .. } => ", payload: "@ + spec_render_type(t),
        _ => Seq::empty(),
    }
}

/// One interface method: path parameters, then query parameters, then the
/// optional body.
pub open spec fn spec_signature(rt: Route) -> Seq<char> {
    "    async fn "@ + rt.operation_id@ + "(&self"@ + spec_params(rt.path_params@) + spec_params(
        rt.query_params@,
    ) + spec_body_param(rt) + ") -> "@ + spec_ret(rt) + ";\n"@
}

/// Render the success text.
fn success_text(rt: &Route) -> (r: String)
    ensures
        r@ == spec_success_text(*rt),
{
    match &rt.success.1 {
        Some(t) => render_type(t),
        None => String::from_str("()"),
    }
}

/// Render the error-taxonomy type name.
fn err_name(rt: &Route) -> (r: String)
    ensures
        r@ == spec_err_name(*rt),
{
    let mut out = to_camel(rt.operation_id.as_str());
    out.append("Error");
    out
}

/// Render the query-bag type name.
fn query_name(rt: &Route) -> (r: String)
    ensures
        r@ == spec_query_name(*rt),
{
    let mut out = to_camel(rt.operation_id.as_str());
    out.append("Query");
    out
}

/// Render the return type.
fn ret_text(rt: &Route) -> (r: String)
    ensures
        r@ == spec_ret(*rt),
{
    if rt.errors.len() == 0 {
        success_text(rt)
    } else {
        let mut out = String::from_str("std::result::Result<");
        out.append(success_text(rt).as_str());
        out.append(", ");
        out.append(err_name(rt).as_str());
        out.append(">");
        proof {
            assert(out@ =~= spec_ret(*rt));
        }
        out
    }
}

/// Render the body parameter.
fn body_param(rt: &Route) -> (r: String)
    ensures
        r@ == spec_body_param(*rt),
{
    let mut out = String::new();
    match &rt.method {
        Method::WithBody { body_type: Some(t), .. } => {
            out.append(", payload: ");
            out.append(render_type(t).as_str());
            proof {
                assert(out@ =~= spec_body_param(*rt));
            }
        },
        _ => {
            proof {
                assert(out@ =~= spec_body_param(*rt));
            }
        },
    }
    out
}

/// Render one interface method signature.
fn route_signature(rt: &Route) -> (r: String)
    ensures
        r@ == spec_signature(*rt),
{
    let mut out = String::from_str("    async fn ");
    out.append(rt.operation_id.as_str());
    out.append("(&self");
    out.append(params_sig(&rt.path_params).as_str());
    out.append(params_sig(&rt.query_params).as_str());
    out.append(body_param(rt).as_str());
    out.append(") -> ");
    out.append(ret_text(rt).as_str());
    out.append(";\n");
    proof {
        assert(out@ =~= spec_signature(*rt));
    }
    out
}

/// One error variant: its name, carrying its body type when it has one.
pub open spec fn spec_error_variant_def(e: (u16, Option<Type>, TypeName)) -> Seq<char> {
    "    "@ + e.2@ + (match e.1 {
        Some(t) => "("@ + spec_render_type(t) + ")"@,
        None => Seq::empty(),
    }) + ",\n"@
}

/// A route's error enum, when it declares error responses.
pub open spec fn spec_error_enum(rt: Route) -> Seq<char> {
    if rt.errors@.len() == 0 {
        Seq::empty()
    } else {
        "#[derive(Debug, hsr::Serialize, hsr::Deserialize)]\npub enum "@ + spec_err_name(rt)
            + " {\n"@ + concat_map(
            rt.errors@,
            |e: (u16, Option<Type>, TypeName)| spec_error_variant_def(e),
        ) + "}\n"@
    }
}

/// A route's query-parameter bag, when it declares query parameters.
pub open spec fn spec_query_struct(rt: Route) -> Seq<char> {
    if rt.query_params@.len() == 0 {
        Seq::empty()
    } else {
        spec_derives() + "pub struct "@ + spec_query_name(rt) + " {\n"@ + concat_map(
            rt.query_params@,
            |p: (Ident, Type)| "    pub "@ + p.0@ + ": "@ + spec_render_type(p.1) + ",\n"@,
        ) + "}\n"@
    }
}

/// The per-route auxiliary types.
pub open spec fn spec_route_types_one(rt: Route) -> Seq<char> {
    spec_error_enum(rt) + spec_query_struct(rt)
}

/// The auxiliary types of a run of routes.
pub open spec fn spec_routes_types(routes: Seq<Route>) -> Seq<char> {
    concat_map(routes, |rt: Route| spec_route_types_one(rt))
}

/// The auxiliary types of the whole route table.
pub open spec fn spec_route_types(table: Seq<(String, Vec<Route>)>) -> Seq<char> {
    concat_map(table, |e: (String, Vec<Route>)| spec_routes_types(e.1@))
}

/// Render one route's auxiliary types.
#[verifier::loop_isolation(false)]
fn route_types_one(rt: &Route) -> (r: String)
    ensures
        r@ == spec_route_types_one(*rt),
{
    let mut out = String::new();
    if rt.errors.len() > 0 {
        out.append("#[derive(Debug, hsr::Serialize, hsr::Deserialize)]\npub enum ");
        out.append(err_name(rt).as_str());
        out.append(" {\n");
        let ghost head = out@;
        let n = rt.errors.len();
        let mut i: usize = 0;
        proof {
            assert(out@ =~= head + concat_map(
                rt.errors@.take(0),
                |e: (u16, Option<Type>, TypeName)| spec_error_variant_def(e),
            ));
        }
        while i < n
            invariant
                i <= n,
                n == rt.errors@.len(),
                out@ == head + concat_map(
                    rt.errors@.take(i as int),
                    |e: (u16, Option<Type>, TypeName)| spec_error_variant_def(e),
                ),
            decreases n - i,
        {
            proof {
                assert(rt.errors@.take(i + 1) =~= rt.errors@.take(i as int).push(
                    rt.errors@[i as int],
                ));
                lemma_concat_map_push(
                    rt.errors@.take(i as int),
                    |e: (u16, Option<Type>, TypeName)| spec_error_variant_def(e),
                    rt.errors@[i as int],
                );
            }
            let e = &rt.errors[i];
            out.append("    ");
            out.append(e.2.as_str());
            match &e.1 {
                Some(t) => {
                    out.append("(");
                    out.append(render_type(t).as_str());
                    out.append(")");
                },
                None => {},
            }
            out.append(",\n");
            proof {
                assert(out@ =~= head + concat_map(
                    rt.errors@.take(i + 1),
                    |e: (u16, Option<Type>, TypeName)| spec_error_variant_def(e),
                ));
            }
            i = i + 1;
        }
        out.append("}\n");
        proof {
            assert(rt.errors@.take(n as int) =~= rt.errors@);
            assert(out@ =~= spec_error_enum(*rt));
        }
    } else {
        proof {
            assert(out@ =~= spec_error_enum(*rt));
        }
    }
    let ghost enum_text = out@;
    if rt.query_params.len() > 0 {
        out.append(get_derive_tokens().as_str());
        out.append("pub struct ");
        out.append(query_name(rt).as_str());
        out.append(" {\n");
        let ghost head = out@;
        let n = rt.query_params.len();
        let mut i: usize = 0;
        proof {
            assert(out@ =~= head + concat_map(
                rt.query_params@.take(0),
                |p: (Ident, Type)| "    pub "@ + p.0@ + ": "@ + spec_render_type(p.1) + ",\n"@,
            ));
        }
        while i < n
            invariant
                i <= n,
                n == rt.query_params@.len(),
                out@ == head + concat_map(
                    rt.query_params@.take(i as int),
                    |p: (Ident, Type)| "    pub "@ + p.0@ + ": "@ + spec_render_type(p.1) + ",\n"@,
                ),
            decreases n - i,
        {
            proof {
                assert(rt.query_params@.take(i + 1) =~= rt.query_params@.take(i as int).push(
                    rt.query_params@[i as int],
                ));
                lemma_concat_map_push(
                    rt.query_params@.take(i as int),
                    |p: (Ident, Type)| "    pub "@ + p.0@ + ": "@ + spec_render_type(p.1) + ",\n"@,
                    rt.query_params@[i as int],
                );
            }
            let p = &rt.query_params[i];
            out.append("    pub ");
            out.append(p.0.as_str());
            out.append(": ");
            out.append(render_type(&p.1).as_str());
            out.append(",\n");
            proof {
                assert(out@ =~= head + concat_map(
                    rt.query_params@.take(i + 1),
                    |p: (Ident, Type)| "    pub "@ + p.0@ + ": "@ + spec_render_type(p.1) + ",\n"@,
                ));
            }
            i = i + 1;
        }
        out.append("}\n");
        proof {
            assert(rt.query_params@.take(n as int) =~= rt.query_params@);
            assert(out@ =~= enum_text + spec_query_struct(*rt));
        }
    } else {
        proof {
            assert(out@ =~= enum_text + spec_query_struct(*rt));
        }
    }
    proof {
        assert(out@ =~= spec_route_types_one(*rt));
    }
    out
}

/// Render the auxiliary types of a run of routes.
#[verifier::loop_isolation(false)]
fn routes_types(routes: &Vec<Route>) -> (r: String)
    ensures
        r@ == spec_routes_types(routes@),
{
    let mut out = String::new();
    let n = routes.len();
    let mut i: usize = 0;
    proof {
        assert(out@ =~= spec_routes_types(routes@.take(0)));
    }
    while i < n
        invariant
            i <= n,
            n == routes@.len(),
            out@ == spec_routes_types(routes@.take(i as int)),
        decreases n - i,
    {
        proof {
            assert(routes@.take(i + 1) =~= routes@.take(i as int).push(routes@[i as int]));
            lemma_concat_map_push(
                routes@.take(i as int),
                |rt: Route| spec_route_types_one(rt),
                routes@[i as int],
            );
        }
        out.append(route_types_one(&routes[i]).as_str());
        proof {
            assert(out@ =~= spec_routes_types(routes@.take(i + 1)));
        }
        i = i + 1;
    }
    proof {
        assert(routes@.take(n as int) =~= routes@);
    }
    out
}

/// Generate the per-route auxiliary types: each route's error enum and
/// query-parameter bag.
#[verifier::loop_isolation(false)]
pub fn generate_rust_route_types(routemap: &StringMap<Vec<Route>>) -> (r: String)
    ensures
        r@ == spec_route_types(routemap@),
{
    let mut out = String::new();
    let n = routemap.len();
    let mut i: usize = 0;
    proof {
        assert(out@ =~= spec_route_types(routemap@.take(0)));
    }
    while i < n
        invariant
            i <= n,
            n == routemap@.len(),
            out@ == spec_route_types(routemap@.take(i as int)),
        decreases n - i,
    {
        proof {
            assert(routemap@.take(i + 1) =~= routemap@.take(i as int).push(routemap@[i as int]));
            lemma_concat_map_push(
                routemap@.take(i as int),
                |e: (String, Vec<Route>)| spec_routes_types(e.1@),
                routemap@[i as int],
            );
        }
        let entry = routemap.entry_at(i);
        out.append(routes_types(&entry.1).as_str());
        proof {
            assert(out@ =~= spec_route_types(routemap@.take(i + 1)));
        }
        i = i + 1;
    }
    proof {
        assert(routemap@.take(n as int) =~= routemap@);
    }
    out
}

/// The method signatures of a run of routes.
pub open spec fn spec_signatures(routes: Seq<Route>) -> Seq<char> {
    concat_map(routes, |rt: Route| spec_signature(rt))
}

/// The whole interface: one method per route, sharing the operation
/// identifier verbatim with the other artifacts.
pub open spec fn spec_interface(
    table: Seq<(String, Vec<Route>)>,
    title: Seq<char>,
    tn: Seq<char>,
) -> Seq<char> {
    "#[doc = \"Api generated from '"@ + spec_escaped(title) + "' spec\"]\n"@
        + "#[hsr::async_trait::async_trait(?Send)]\npub trait "@ + tn
        + ": 'static {\n    type Error: HasStatusCode;\n    fn new(host: Url) -> Self;\n"@
        + concat_map(table, |e: (String, Vec<Route>)| spec_signatures(e.1@)) + "}\n"@
}

/// Render the method signatures of a run of routes.
#[verifier::loop_isolation(false)]
fn routes_signatures(routes: &Vec<Route>) -> (r: String)
    ensures
        r@ == spec_signatures(routes@),
{
    let mut out = String::new();
    let n = routes.len();
    let mut i: usize = 0;
    proof {
        assert(out@ =~= spec_signatures(routes@.take(0)));
    }
    while i < n
        invariant
            i <= n,
            n == routes@.len(),
            out@ == spec_signatures(routes@.take(i as int)),
        decreases n - i,
    {
        proof {
            assert(routes@.take(i + 1) =~= routes@.take(i as int).push(routes@[i as int]));
            lemma_concat_map_push(
                routes@.take(i as int),
                |rt: Route| spec_signature(rt),
                routes@[i as int],
            );
        }
        out.append(route_signature(&routes[i]).as_str());
        proof {
            assert(out@ =~= spec_signatures(routes@.take(i + 1)));
        }
        i = i + 1;
    }
    proof {
        assert(routes@.take(n as int) =~= routes@);
    }
    out
}

/// Generate the service interface trait.
#[verifier::loop_isolation(false)]
pub fn generate_rust_interface(
    routes: &StringMap<Vec<Route>>,
    title: &str,
    trait_name: &TypeName,
) -> (r: String)
    ensures
        r@ == spec_interface(routes@, title@, trait_name@),
{
    let mut out = String::from_str("#[doc = \"Api generated from '");
    out.append(escape_str(title).as_str());
    out.append("' spec\"]\n");
    out.append("#[hsr::async_trait::async_trait(?Send)]\npub trait ");
    out.append(trait_name.as_str());
    out.append(": 'static {\n    type Error: HasStatusCode;\n    fn new(host: Url) -> Self;\n");
    let ghost head = out@;
    let n = routes.len();
    let mut i: usize = 0;
    proof {
        assert(out@ =~= head + concat_map(
            routes@.take(0),
            |e: (String, Vec<Route>)| spec_signatures(e.1@),
        ));
    }
    while i < n
        invariant
            i <= n,
            n == routes@.len(),
            out@ == head + concat_map(
                routes@.take(i as int),
                |e: (String, Vec<Route>)| spec_signatures(e.1@),
            ),
        decreases n - i,
    {
        proof {
            assert(routes@.take(i + 1) =~= routes@.take(i as int).push(routes@[i as int]));
            lemma_concat_map_push(
                routes@.take(i as int),
                |e: (String, Vec<Route>)| spec_signatures(e.1@),
                routes@[i as int],
            );
        }
        let entry = routes.entry_at(i);
        out.append(routes_signatures(&entry.1).as_str());
        proof {
            assert(out@ =~= head + concat_map(
                routes@.take(i + 1),
                |e: (String, Vec<Route>)| spec_signatures(e.1@),
            ));
        }
        i = i + 1;
    }
    out.append("}\n");
    proof {
        assert(routes@.take(n as int) =~= routes@);
        assert(out@ =~= spec_interface(routes@, title@, trait_name@));
    }
    out
}

/// The dispatcher's path-extractor parameter, for routes with path
/// parameters.
pub open spec fn spec_disp_path_part(rt: Route) -> Seq<char> {
    if rt.path_params@.len() == 0 {
        Seq::empty()
    } else {
        ", path: AxPath<("@ + concat_map(
            rt.path_params@,
            |p: (Ident, Type)| spec_render_type(p.1) + ", "@,
        ) + ")>"@
    }
}

/// The dispatcher's query-extractor parameter, for routes with query
/// parameters.
pub open spec fn spec_disp_query_part(rt: Route) -> Seq<char> {
    if rt.query_params@.len() == 0 {
        Seq::empty()
    } else {
        ", query: AxQuery<"@ + spec_query_name(rt) + ">"@
    }
}

/// The dispatcher's body-extractor parameter, for routes with a payload.
pub open spec fn spec_disp_body_part(rt: Route) -> Seq<char> {
    match rt.method {
        Method::WithBody { body_type: Some(t), .. } => ", body: AxJson<"@ + spec_render_type(t)
            + ">"@,
        _ => Seq::empty(),
    }
}

/// The unpacking statements at the head of a dispatcher body.
pub open spec fn spec_disp_unpack(rt: Route) -> Seq<char> {
    (if rt.path_params@.len() == 0 {
        Seq::empty()
    } else {
        "    let ("@ + concat_map(rt.path_params@, |p: (Ident, Type)| p.0@ + ", "@)
            + ") = path.into_inner();\n"@
    }) + (if rt.query_params@.len() == 0 {
        Seq::<char>::empty()
    } else {
        "    let query = query.into_inner();\n"@
    })
}

/// The arguments the dispatcher hands to the interface method.
pub open spec fn spec_disp_args(rt: Route) -> Seq<char> {
    concat_map(rt.path_params@, |p: (Ident, Type)| p.0@ + ", "@) + concat_map(
        rt.query_params@,
        |p: (Ident, Type)| "query."@ + p.0@ + ", "@,
    ) + (match rt.method {
        Method::WithBody { body_type: Some(_), .. } => "body.into_inner(), "@,
        _ => Seq::empty(),
    })
}

/// One dispatcher: extract the route's inputs, call the interface method,
/// respond with the success code.
pub open spec fn spec_dispatcher(rt: Route, tn: Seq<char>) -> Seq<char> {
    "#[allow(unused_variables)]\nasync fn "@ + rt.operation_id@ + "<A: "@ + tn
        + " + Send + Sync>(data: AxData<A>"@ + spec_disp_path_part(rt) + spec_disp_query_part(rt)
        + spec_disp_body_part(rt) + ") -> HttpResponse {\n"@ + spec_disp_unpack(rt)
        + "    let rtn = data."@ + rt.operation_id@ + "("@ + spec_disp_args(rt)
        + ").await;\n    HttpResponse::build(StatusCode::from_u16("@ + crate::status::dec_str(
        rt.success.0 as nat,
    ) + ").unwrap()).json(rtn)\n}\n"@
}

/// The dispatchers of a run of routes.
pub open spec fn spec_route_dispatchers(routes: Seq<Route>, tn: Seq<char>) -> Seq<char>
    decreases routes.len(),
{
    if routes.len() == 0 {
        Seq::empty()
    } else {
        spec_dispatcher(routes[0], tn) + spec_route_dispatchers(routes.drop_first(), tn)
    }
}

/// The dispatchers of the whole route table.
pub open spec fn spec_dispatchers(table: Seq<(String, Vec<Route>)>, tn: Seq<char>) -> Seq<char>
    decreases table.len(),
{
    if table.len() == 0 {
        Seq::empty()
    } else {
        spec_route_dispatchers(table[0].1@, tn) + spec_dispatchers(table.drop_first(), tn)
    }
}

/// Appending one route appends its dispatcher.
proof fn lemma_route_dispatchers_push(routes: Seq<Route>, tn: Seq<char>, x: Route)
    ensures
        spec_route_dispatchers(routes.push(x), tn) == spec_route_dispatchers(routes, tn)
            + spec_dispatcher(x, tn),
    decreases routes.len(),
{
    let p = routes.push(x);
    assert(p[0] == if routes.len() == 0 {
        x
    } else {
        routes[0]
    });
    if routes.len() == 0 {
        assert(p.drop_first() =~= Seq::<Route>::empty());
        assert(spec_route_dispatchers(p.drop_first(), tn) == Seq::<char>::empty());
        assert(spec_dispatcher(x, tn) + Seq::<char>::empty() =~= spec_route_dispatchers(routes, tn)
            + spec_dispatcher(x, tn));
    } else {
        assert(p.drop_first() =~= routes.drop_first().push(x));
        lemma_route_dispatchers_push(routes.drop_first(), tn, x);
        assert(spec_dispatcher(routes[0], tn) + (spec_route_dispatchers(routes.drop_first(), tn)
            + spec_dispatcher(x, tn)) =~= (spec_dispatcher(routes[0], tn)
            + spec_route_dispatchers(routes.drop_first(), tn)) + spec_dispatcher(x, tn));
    }
}

/// Appending one table entry appends its dispatchers.
proof fn lemma_dispatchers_push(table: Seq<(String, Vec<Route>)>, tn: Seq<char>, x: (String, Vec<Route>))
    ensures
        spec_dispatchers(table.push(x), tn) == spec_dispatchers(table, tn)
            + spec_route_dispatchers(x.1@, tn),
    decreases table.len(),
{
    let p = table.push(x);
    assert(p[0] == if table.len() == 0 {
        x
    } else {
        table[0]
    });
    if table.len() == 0 {
        assert(p.drop_first() =~= Seq::<(String, Vec<Route>)>::empty());
        assert(spec_dispatchers(p.drop_first(), tn) == Seq::<char>::empty());
        assert(spec_route_dispatchers(x.1@, tn) + Seq::<char>::empty() =~= spec_dispatchers(
            table,
            tn,
        ) + spec_route_dispatchers(x.1@, tn));
    } else {
        assert(p.drop_first() =~= table.drop_first().push(x));
        lemma_dispatchers_push(table.drop_first(), tn, x);
        assert(spec_route_dispatchers(table[0].1@, tn) + (spec_dispatchers(table.drop_first(), tn)
            + spec_route_dispatchers(x.1@, tn)) =~= (spec_route_dispatchers(table[0].1@, tn)
            + spec_dispatchers(table.drop_first(), tn)) + spec_route_dispatchers(x.1@, tn));
    }
}

/// Render a comma-terminated run of parameter names.
#[verifier::loop_isolation(false)]
fn names_args(ps: &Vec<(Ident, Type)>) -> (r: String)
    ensures
        r@ == concat_map(ps@, |p: (Ident, Type)| p.0@ + ", "@),
{
    let mut out = String::new();
    let n = ps.len();
    let mut i: usize = 0;
    proof {
        assert(out@ =~= concat_map(ps@.take(0), |p: (Ident, Type)| p.0@ + ", "@));
    }
    while i < n
        invariant
            i <= n,
            n == ps@.len(),
            out@ == concat_map(ps@.take(i as int), |p: (Ident, Type)| p.0@ + ", "@),
        decreases n - i,
    {
        proof {
            assert(ps@.take(i + 1) =~= ps@.take(i as int).push(ps@[i as int]));
            lemma_concat_map_push(
                ps@.take(i as int),
                |p: (Ident, Type)| p.0@ + ", "@,
                ps@[i as int],
            );
        }
        out.append(ps[i].0.as_str());
        out.append(", ");
        proof {
            assert(out@ =~= concat_map(ps@.take(i + 1), |p: (Ident, Type)| p.0@ + ", "@));
        }
        i = i + 1;
    }
    proof {
        assert(ps@.take(n as int) =~= ps@);
    }
    out
}

/// Render a comma-terminated run of parameter types.
#[verifier::loop_isolation(false)]
fn types_args(ps: &Vec<(Ident, Type)>) -> (r: String)
    ensures
        r@ == concat_map(ps@, |p: (Ident, Type)| spec_render_type(p.1) + ", "@),
{
    let mut out = String::new();
    let n = ps.len();
    let mut i: usize = 0;
    proof {
        assert(out@ =~= concat_map(ps@.take(0), |p: (Ident, Type)| spec_render_type(p.1) + ", "@));
    }
    while i < n
        invariant
            i <= n,
            n == ps@.len(),
            out@ == concat_map(ps@.take(i as int), |p: (Ident, Type)| spec_render_type(p.1) + ", "@),
        decreases n - i,
    {
        proof {
            assert(ps@.take(i + 1) =~= ps@.take(i as int).push(ps@[i as int]));
            lemma_concat_map_push(
                ps@.take(i as int),
                |p: (Ident, Type)| spec_render_type(p.1) + ", "@,
                ps@[i as int],
            );
        }
        out.append(render_type(&ps[i].1).as_str());
        out.append(", ");
        proof {
            assert(out@ =~= concat_map(
                ps@.take(i + 1),
                |p: (Ident, Type)| spec_render_type(p.1) + ", "@,
            ));
        }
        i = i + 1;
    }
    proof {
        assert(ps@.take(n as int) =~= ps@);
    }
    out
}

/// Render a comma-terminated run of query accesses.
#[verifier::loop_isolation(false)]
fn query_args(ps: &Vec<(Ident, Type)>) -> (r: String)
    ensures
        r@ == concat_map(ps@, |p: (Ident, Type)| "query."@ + p.0@ + ", "@),
{
    let mut out = String::new();
    let n = ps.len();
    let mut i: usize = 0;
    proof {
        assert(out@ =~= concat_map(ps@.take(0), |p: (Ident, Type)| "query."@ + p.0@ + ", "@));
    }
    while i < n
        invariant
            i <= n,
            n == ps@.len(),
            out@ == concat_map(ps@.take(i as int), |p: (Ident, Type)| "query."@ + p.0@ + ", "@),
        decreases n - i,
    {
        proof {
            assert(ps@.take(i + 1) =~= ps@.take(i as int).push(ps@[i as int]));
            lemma_concat_map_push(
                ps@.take(i as int),
                |p: (Ident, Type)| "query."@ + p.0@ + ", "@,
                ps@[i as int],
            );
        }
        out.append("query.");
        out.append(ps[i].0.as_str());
        out.append(", ");
        proof {
            assert(out@ =~= concat_map(ps@.take(i + 1), |p: (Ident, Type)| "query."@ + p.0@ + ", "@));
        }
        i = i + 1;
    }
    proof {
        assert(ps@.take(n as int) =~= ps@);
    }
    out
}

/// Render one dispatcher.
#[verifier::rlimit(100)]
#[verifier::spinoff_prover]
fn dispatcher_one(rt: &Route, trait_name: &TypeName) -> (r: String)
    ensures
        r@ == spec_dispatcher(*rt, trait_name@),
{
    let mut out = String::from_str("#[allow(unused_variables)]\nasync fn ");
    out.append(rt.operation_id.as_str());
    out.append("<A: ");
    out.append(trait_name.as_str());
    out.append(" + Send + Sync>(data: AxData<A>");
    if rt.path_params.len() > 0 {
        out.append(", path: AxPath<(");
        out.append(types_args(&rt.path_params).as_str());
        out.append(")>");
    }
    proof {
        assert(out@ =~= "#[allow(unused_variables)]\nasync fn "@ + rt.operation_id@ + "<A: "@
            + trait_name@ + " + Send + Sync>(data: AxData<A>"@ + spec_disp_path_part(*rt));
    }
    if rt.query_params.len() > 0 {
        out.append(", query: AxQuery<");
        out.append(query_name(rt).as_str());
        out.append(">");
    }
    match &rt.method {
        Method::WithBody { body_type: Some(t), .. } => {
            out.append(", body: AxJson<");
            out.append(render_type(t).as_str());
            out.append(">");
        },
        _ => {},
    }
    out.append(") -> HttpResponse {\n");
    if rt.path_params.len() > 0 {
        out.append("    let (");
        out.append(names_args(&rt.path_params).as_str());
        out.append(") = path.into_inner();\n");
    }
    if rt.query_params.len() > 0 {
        out.append("    let query = query.into_inner();\n");
    }
    out.append("    let rtn = data.");
    out.append(rt.operation_id.as_str());
    out.append("(");
    out.append(names_args(&rt.path_params).as_str());
    out.append(query_args(&rt.query_params).as_str());
    match &rt.method {
        Method::WithBody { body_type: Some(_), .. } => {
            out.append("body.into_inner(), ");
        },
        _ => {},
    }
    out.append(").await;\n    HttpResponse::build(StatusCode::from_u16(");
    out.append(crate::status::u16_to_string(rt.success.0).as_str());
    out.append(").unwrap()).json(rtn)\n}\n");
    proof {
        assert(out@ =~= spec_dispatcher(*rt, trait_name@));
    }
    out
}

/// Generate the dispatchers: one request handler per operation, calling
/// the interface method of the same name.
#[verifier::loop_isolation(false)]
pub fn generate_rust_dispatchers(routes: &StringMap<Vec<Route>>, trait_name: &TypeName) -> (r:
    String)
    ensures
        r@ == spec_dispatchers(routes@, trait_name@),
{
    let mut out = String::new();
    let n = routes.len();
    let mut i: usize = 0;
    proof {
        assert(routes@.take(0) =~= Seq::<(String, Vec<Route>)>::empty());
        assert(out@ =~= spec_dispatchers(routes@.take(0), trait_name@));
    }
    while i < n
        invariant
            i <= n,
            n == routes@.len(),
            out@ == spec_dispatchers(routes@.take(i as int), trait_name@),
        decreases n - i,
    {
        proof {
            assert(routes@.take(i + 1) =~= routes@.take(i as int).push(routes@[i as int]));
            lemma_dispatchers_push(routes@.take(i as int), trait_name@, routes@[i as int]);
        }
        let entry = routes.entry_at(i);
        let rts = &entry.1;
        let m = rts.len();
        let mut j: usize = 0;
        proof {
            assert(rts@.take(0) =~= Seq::<Route>::empty());
            assert(out@ =~= spec_dispatchers(routes@.take(i as int), trait_name@)
                + spec_route_dispatchers(rts@.take(0), trait_name@));
        }
        while j < m
            invariant
                j <= m,
                m == rts@.len(),
                out@ == spec_dispatchers(routes@.take(i as int), trait_name@)
                    + spec_route_dispatchers(rts@.take(j as int), trait_name@),
            decreases m - j,
        {
            proof {
                assert(rts@.take(j + 1) =~= rts@.take(j as int).push(rts@[j as int]));
                lemma_route_dispatchers_push(rts@.take(j as int), trait_name@, rts@[j as int]);
            }
            out.append(dispatcher_one(&rts[j], trait_name).as_str());
            proof {
                assert(out@ =~= spec_dispatchers(routes@.take(i as int), trait_name@)
                    + spec_route_dispatchers(rts@.take(j + 1), trait_name@));
            }
            j = j + 1;
        }
        proof {
            assert(rts@.take(m as int) =~= rts@);
            assert(out@ =~= spec_dispatchers(routes@.take(i + 1), trait_name@));
        }
        i = i + 1;
    }
    proof {
        assert(routes@.take(n as int) =~= routes@);
    }
    out
}

/// One routing-table resource: the path template with its ordered
/// (verb, operation) bindings.
pub open spec fn spec_resource(e: (String, Vec<Route>)) -> Seq<char> {
    "web::resource(\""@ + spec_escaped(e.0@) + "\")"@ + concat_map(
        e.1@,
        |rt: Route| ".route(web::"@ + spec_verb_lower(rt.method) + "().to("@ + rt.operation_id@
            + "::<A>))"@,
    )
}

/// The service registrations of the whole table.
pub open spec fn spec_services(table: Seq<(String, Vec<Route>)>) -> Seq<char> {
    concat_map(table, |e: (String, Vec<Route>)| ".service("@ + spec_resource(e) + ")"@)
}

/// The server bootstrap module.
pub open spec fn spec_server(table: Seq<(String, Vec<Route>)>, tn: Seq<char>) -> Seq<char> {
    "#[allow(dead_code)]\npub mod server {\n    use super::*;\n\n    fn configure_hsr<A: "@ + tn
        + " + Send + Sync>(cfg: &mut actix_web::web::ServiceConfig) {\n        cfg"@
        + spec_services(table)
        + ";\n    }\n\n    pub async fn serve<A: "@ + tn
        + " + Send + Sync>(cfg: hsr::Config) -> std::io::Result<()> {\n        let api = AxData::new(A::new(cfg.host.clone()));\n        let server = HttpServer::new(move || {\n            App::new()\n                .app_data(api.clone())\n                .wrap(Logger::default())\n                .configure(|cfg| hsr::configure_spec(cfg, JSON_SPEC, UI_TEMPLATE))\n                .configure(configure_hsr::<A>)\n        });\n        let server = if let Some(ssl) = cfg.ssl {\n            server.bind_openssl((cfg.host.host_str().unwrap(), cfg.host.port().unwrap()), ssl)\n        } else {\n            server.bind((cfg.host.host_str().unwrap(), cfg.host.port().unwrap()))\n        }?;\n        server.run().await\n    }\n}\n"@
}

/// Render one resource registration.
#[verifier::loop_isolation(false)]
fn resource_one(entry: &(String, Vec<Route>)) -> (r: String)
    ensures
        r@ == spec_resource(*entry),
{
    let mut out = String::from_str("web::resource(\"");
    out.append(escape_str(entry.0.as_str()).as_str());
    out.append("\")");
    let ghost head = out@;
    let rts = &entry.1;
    let m = rts.len();
    let mut j: usize = 0;
    proof {
        assert(out@ =~= head + concat_map(
            rts@.take(0),
            |rt: Route| ".route(web::"@ + spec_verb_lower(rt.method) + "().to("@ + rt.operation_id@
                + "::<A>))"@,
        ));
    }
    while j < m
        invariant
            j <= m,
            m == rts@.len(),
            out@ == head + concat_map(
                rts@.take(j as int),
                |rt: Route| ".route(web::"@ + spec_verb_lower(rt.method) + "().to("@
                    + rt.operation_id@ + "::<A>))"@,
            ),
        decreases m - j,
    {
        proof {
            assert(rts@.take(j + 1) =~= rts@.take(j as int).push(rts@[j as int]));
            lemma_concat_map_push(
                rts@.take(j as int),
                |rt: Route| ".route(web::"@ + spec_verb_lower(rt.method) + "().to("@
                    + rt.operation_id@ + "::<A>))"@,
                rts@[j as int],
            );
        }
        let rt = &rts[j];
        out.append(".route(web::");
        out.append(rt.method.as_lower_str());
        out.append("().to(");
        out.append(rt.operation_id.as_str());
        out.append("::<A>))");
        proof {
            assert(out@ =~= head + concat_map(
                rts@.take(j + 1),
                |rt: Route| ".route(web::"@ + spec_verb_lower(rt.method) + "().to("@
                    + rt.operation_id@ + "::<A>))"@,
            ));
        }
        j = j + 1;
    }
    proof {
        assert(rts@.take(m as int) =~= rts@);
    }
    out
}

/// Generate the server bootstrap: the routing table of path templates to
/// (verb, operation) bindings, and the serve entry point.
#[verifier::loop_isolation(false)]
pub fn generate_rust_server(routemap: &StringMap<Vec<Route>>, trait_name: &TypeName) -> (r: String)
    ensures
        r@ == spec_server(routemap@, trait_name@),
{
    let mut out = String::from_str("#[allow(dead_code)]\npub mod server {\n    use super::*;\n\n    fn configure_hsr<A: ");
    out.append(trait_name.as_str());
    out.append(" + Send + Sync>(cfg: &mut actix_web::web::ServiceConfig) {\n        cfg");
    let ghost head = out@;
    let n = routemap.len();
    let mut i: usize = 0;
    proof {
        assert(out@ =~= head + spec_services(routemap@.take(0)));
    }
    while i < n
        invariant
            i <= n,
            n == routemap@.len(),
            out@ == head + spec_services(routemap@.take(i as int)),
        decreases n - i,
    {
        proof {
            assert(routemap@.take(i + 1) =~= routemap@.take(i as int).push(routemap@[i as int]));
            lemma_concat_map_push(
                routemap@.take(i as int),
                |e: (String, Vec<Route>)| ".service("@ + spec_resource(e) + ")"@,
                routemap@[i as int],
            );
        }
        let entry = routemap.entry_at(i);
        out.append(".service(");
        out.append(resource_one(entry).as_str());
        out.append(")");
        proof {
            assert(out@ =~= head + spec_services(routemap@.take(i + 1)));
        }
        i = i + 1;
    }
    out.append(";\n    }\n\n    pub async fn serve<A: ");
    out.append(trait_name.as_str());
    out.append(" + Send + Sync>(cfg: hsr::Config) -> std::io::Result<()> {\n        let api = AxData::new(A::new(cfg.host.clone()));\n        let server = HttpServer::new(move || {\n            App::new()\n                .app_data(api.clone())\n                .wrap(Logger::default())\n                .configure(|cfg| hsr::configure_spec(cfg, JSON_SPEC, UI_TEMPLATE))\n                .configure(configure_hsr::<A>)\n        });\n        let server = if let Some(ssl) = cfg.ssl {\n            server.bind_openssl((cfg.host.host_str().unwrap(), cfg.host.port().unwrap()), ssl)\n        } else {\n            server.bind((cfg.host.host_str().unwrap(), cfg.host.port().unwrap()))\n        }?;\n        server.run().await\n    }\n}\n");
    proof {
        assert(routemap@.take(n as int) =~= routemap@);
        assert(out@ =~= spec_server(routemap@, trait_name@));
    }
    out
}

/// The positional arguments the client substitutes into the path template,
/// in path order.
pub open spec fn spec_url_args(segs: Seq<SegView>) -> Seq<char> {
    concat_map(spec_path_args(segs), |nm: Seq<char>| snake_of(nm) + ", "@)
}

/// Render the client's url arguments.
#[verifier::loop_isolation(false)]
fn url_args(path: &crate::path::RoutePath) -> (r: String)
    ensures
        r@ == spec_url_args(path@),
{
    let mut out = String::new();
    let n = path.segments.len();
    let mut i: usize = 0;
    proof {
        assert(path@.take(0) =~= Seq::<SegView>::empty());
        assert(out@ =~= spec_url_args(path@.take(0)));
    }
    while i < n
        invariant
            i <= n,
            n == path@.len(),
            out@ == spec_url_args(path@.take(i as int)),
        decreases n - i,
    {
        proof {
            assert(path@.take(i + 1) =~= path@.take(i as int).push(path@[i as int]));
            crate::path::lemma_path_args_push(path@.take(i as int), path@[i as int]);
        }
        match &path.segments[i] {
            crate::path::PathSegment::Parameter(name) => {
                proof {
                    lemma_concat_map_push(
                        spec_path_args(path@.take(i as int)),
                        |nm: Seq<char>| snake_of(nm) + ", "@,
                        name@,
                    );
                    assert(spec_path_args(path@.take(i + 1)) =~= spec_path_args(
                        path@.take(i as int),
                    ).push(name@));
                }
                out.append(to_snake(name.as_str()).as_str());
                out.append(", ");
                proof {
                    assert(out@ =~= spec_url_args(path@.take(i + 1)));
                }
            },
            crate::path::PathSegment::Literal(_) => {
                proof {
                    assert(spec_path_args(path@.take(i + 1)) =~= spec_path_args(
                        path@.take(i as int),
                    ));
                    assert(out@ =~= spec_url_args(path@.take(i + 1)));
                }
            },
        }
        i = i + 1;
    }
    proof {
        assert(path@.take(n as int) =~= path@);
    }
    out
}

/// One client method: the interface signature, a url built from the
/// positional template, and the request over the wire.
pub open spec fn spec_client_method(rt: Route) -> Seq<char> {
    "    async fn "@ + rt.operation_id@ + "(&self"@ + spec_params(rt.path_params@) + spec_params(
        rt.query_params@,
    ) + spec_body_param(rt) + ") -> "@ + spec_ret(rt)
        + " {\n        let url = self.domain.join(&format!(\""@ + spec_build_template(rt.path@)
        + "\", "@ + spec_url_args(rt.path@)
        + ")).unwrap();\n        let request = self.inner.request(Method::from_bytes(b\""@
        + spec_verb(rt.method) + "\").unwrap(), url.as_str());\n        hsr::send_request(request"@
        + (match rt.method {
        Method::WithBody { body_type: Some(_), .. } => ", &payload"@,
        _ => Seq::empty(),
    }) + ").await\n    }\n"@
}

/// The client methods of a run of routes.
pub open spec fn spec_client_methods(routes: Seq<Route>) -> Seq<char> {
    concat_map(routes, |rt: Route| spec_client_method(rt))
}

/// The whole client module: a wire-backed implementation of the same
/// interface.
pub open spec fn spec_client(table: Seq<(String, Vec<Route>)>, tn: Seq<char>) -> Seq<char> {
    "#[allow(dead_code)]\n#[allow(unused_imports)]\npub mod client {\n    use super::*;\n    use hsr::actix_http::http::Method;\n    use hsr::awc::Client as ActixClient;\n    use hsr::ClientError;\n\n    pub struct Client {\n        domain: Url,\n        inner: ActixClient,\n    }\n\n    #[hsr::async_trait::async_trait(?Send)]\n    impl "@
        + tn
        + " for Client {\n        type Error = ClientError;\n        fn new(domain: Url) -> Self {\n            Client { domain: domain, inner: ActixClient::new() }\n        }\n\n"@
        + concat_map(table, |e: (String, Vec<Route>)| spec_client_methods(e.1@)) + "    }\n}\n"@
}

/// Render one client method.
#[verifier::rlimit(100)]
#[verifier::spinoff_prover]
fn client_method_one(rt: &Route) -> (r: String)
    ensures
        r@ == spec_client_method(*rt),
{
    let mut out = String::from_str("    async fn ");
    out.append(rt.operation_id.as_str());
    out.append("(&self");
    out.append(params_sig(&rt.path_params).as_str());
    out.append(params_sig(&rt.query_params).as_str());
    out.append(body_param(rt).as_str());
    out.append(") -> ");
    out.append(ret_text(rt).as_str());
    out.append(" {\n        let url = self.domain.join(&format!(\"");
    out.append(rt.path.build_template().as_str());
    out.append("\", ");
    out.append(url_args(&rt.path).as_str());
    out.append(")).unwrap();\n        let request = self.inner.request(Method::from_bytes(b\"");
    out.append(rt.method.as_str());
    out.append("\").unwrap(), url.as_str());\n        hsr::send_request(request");
    match &rt.method {
        Method::WithBody { body_type: Some(_), .. } => {
            out.append(", &payload");
        },
        _ => {},
    }
    out.append(").await\n    }\n");
    proof {
        assert(out@ =~= spec_client_method(*rt));
    }
    out
}

/// Render the client methods of a run of routes.
#[verifier::loop_isolation(false)]
fn client_methods(routes: &Vec<Route>) -> (r: String)
    ensures
        r@ == spec_client_methods(routes@),
{
    let mut out = String::new();
    let n = routes.len();
    let mut i: usize = 0;
    proof {
        assert(out@ =~= spec_client_methods(routes@.take(0)));
    }
    while i < n
        invariant
            i <= n,
            n == routes@.len(),
            out@ == spec_client_methods(routes@.take(i as int)),
        decreases n - i,
    {
        proof {
            assert(routes@.take(i + 1) =~= routes@.take(i as int).push(routes@[i as int]));
            lemma_concat_map_push(
                routes@.take(i as int),
                |rt: Route| spec_client_method(rt),
                routes@[i as int],
            );
        }
        out.append(client_method_one(&routes[i]).as_str());
        proof {
            assert(out@ =~= spec_client_methods(routes@.take(i + 1)));
        }
        i = i + 1;
    }
    proof {
        assert(routes@.take(n as int) =~= routes@);
    }
    out
}

/// Generate the client: a struct implementing the same interface over the
/// wire.
#[verifier::loop_isolation(false)]
pub fn generate_rust_client(routes: &StringMap<Vec<Route>>, trait_name: &TypeName) -> (r: String)
    ensures
        r@ == spec_client(routes@, trait_name@),
{
    let mut out = String::from_str("#[allow(dead_code)]\n#[allow(unused_imports)]\npub mod client {\n    use super::*;\n    use hsr::actix_http::http::Method;\n    use hsr::awc::Client as ActixClient;\n    use hsr::ClientError;\n\n    pub struct Client {\n        domain: Url,\n        inner: ActixClient,\n    }\n\n    #[hsr::async_trait::async_trait(?Send)]\n    impl ");
    out.append(trait_name.as_str());
    out.append(" for Client {\n        type Error = ClientError;\n        fn new(domain: Url) -> Self {\n            Client { domain: domain, inner: ActixClient::new() }\n        }\n\n");
    let ghost head = out@;
    let n = routes.len();
    let mut i: usize = 0;
    proof {
        assert(out@ =~= head + concat_map(
            routes@.take(0),
            |e: (String, Vec<Route>)| spec_client_methods(e.1@),
        ));
    }
    while i < n
        invariant
            i <= n,
            n == routes@.len(),
            out@ == head + concat_map(
                routes@.take(i as int),
                |e: (String, Vec<Route>)| spec_client_methods(e.1@),
            ),
        decreases n - i,
    {
        proof {
            assert(routes@.take(i + 1) =~= routes@.take(i as int).push(routes@[i as int]));
            lemma_concat_map_push(
                routes@.take(i as int),
                |e: (String, Vec<Route>)| spec_client_methods(e.1@),
                routes@[i as int],
            );
        }
        let entry = routes.entry_at(i);
        out.append(client_methods(&entry.1).as_str());
        proof {
            assert(out@ =~= head + concat_map(
                routes@.take(i + 1),
                |e: (String, Vec<Route>)| spec_client_methods(e.1@),
            ));
        }
        i = i + 1;
    }
    out.append("    }\n}\n");
    proof {
        assert(routes@.take(n as int) =~= routes@);
        assert(out@ =~= spec_client(routes@, trait_name@));
    }
    out
}

} // verus!
