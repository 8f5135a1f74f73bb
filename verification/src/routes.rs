//! The route analyzer: path templates, parameter lists and response tables
//! into a validated, typed operation model.
//!
//! Methods partition into body-less (GET, HEAD, OPTIONS, TRACE) and
//! body-carrying (POST, PUT, PATCH, DELETE). A path parameter must be
//! declared required and is bound to the path's placeholders; a query
//! parameter's type is `Optional`-wrapped iff its schema marks it
//! non-required. No partially valid route is ever observable: construction
//! fails fast.

use vstd::prelude::*;

verus! {

use crate::builder::build_type;
use crate::builder::built_ty;
use crate::builder::contains_string;
use crate::builder::seq_contains_str;
use crate::builder::lemma_built_shape;
use crate::builder::opt_built;
use crate::builder::spec_build_ok;
use crate::builder::yields_struct;
use crate::doc::Operation;
use crate::doc::Parameter;
use crate::doc::ParametersLookup;
use crate::doc::ParamLocation;
use crate::doc::PathItem;
use crate::doc::RefOr;
use crate::doc::RequestBody;
use crate::doc::RequestLookup;
use crate::doc::ResponseLookup;
use crate::doc::Schema;
use crate::doc::SchemaLookup;
use crate::error::Error;
use crate::ir::StructOrInner;
use crate::ir::StructOrType;
use crate::ir::Type;
use crate::ir::type_wf;
use crate::names::Ident;
use crate::names::ident_accepted;
use crate::names::snake_of;
use crate::names::TypeName;
use crate::omap::StringMap;
use crate::path::path_wf;
use crate::path::RoutePath;
use crate::path::spec_analyse;
use crate::path::spec_path_args;
use crate::refs::dereference;
use crate::refs::spec_deref;
use crate::refs::unwrap_ref;
use crate::responses::classify_responses;
use crate::responses::code_is_error;
use crate::responses::code_is_success;
use crate::responses::error_entries;
use crate::responses::json_content_ok;
use crate::responses::response_type_of;
use crate::responses::responses_ok;
use crate::responses::success_entry;
use crate::status::spec_error_variant;

/// The methods which cannot take a body.
#[derive(Debug, Clone, Copy, PartialEq, Eq, Structural)]
pub enum MethodWithoutBody {
    Get,
    Head,
    Options,
    Trace,
}

/// The methods which may take a body.
#[derive(Debug, Clone, Copy, PartialEq, Eq, Structural)]
pub enum MethodWithBody {
    Post,
    Delete,
    Put,
    Patch,
}

/// One operation's method: body-less, or body-carrying with the expected
/// payload type, if any.
#[derive(Debug, PartialEq)]
pub enum Method {
    WithoutBody(MethodWithoutBody),
    WithBody { method: MethodWithBody, body_type: Option<Type> },
}

/// The verb in upper case, as the wire shows it.
pub open spec fn spec_verb(m: Method) -> Seq<char> {
    match m {
        Method::WithoutBody(MethodWithoutBody::Get) => "GET"@,
        Method::WithoutBody(MethodWithoutBody::Head) => "HEAD"@,
        Method::WithoutBody(MethodWithoutBody::Options) => "OPTIONS"@,
        Method::WithoutBody(MethodWithoutBody::Trace) => "TRACE"@,
        Method::WithBody { method: MethodWithBody::Post, .. } => "POST"@,
        Method::WithBody { method: MethodWithBody::Delete, .. } => "DELETE"@,
        Method::WithBody { method: MethodWithBody::Put, .. } => "PUT"@,
        Method::WithBody { method: MethodWithBody::Patch, .. } => "PATCH"@,
    }
}

/// The verb in lower case, as the server wiring names its routing helpers.
pub open spec fn spec_verb_lower(m: Method) -> Seq<char> {
    match m {
        Method::WithoutBody(MethodWithoutBody::Get) => "get"@,
        Method::WithoutBody(MethodWithoutBody::Head) => "head"@,
        Method::WithoutBody(MethodWithoutBody::Options) => "options"@,
        Method::WithoutBody(MethodWithoutBody::Trace) => "trace"@,
        Method::WithBody { method: MethodWithBody::Post, .. } => "post"@,
        Method::WithBody { method: MethodWithBody::Delete, .. } => "delete"@,
        Method::WithBody { method: MethodWithBody::Put, .. } => "put"@,
        Method::WithBody { method: MethodWithBody::Patch, .. } => "patch"@,
    }
}

impl Method {
    /// The expected body payload, if any: only a body-carrying method has
    /// one.
    pub fn body_type(&self) -> (r: Option<&Type>)
        ensures
            match self {
                Method::WithoutBody(_) => r is None,
                Method::WithBody { body_type, .. } => match body_type {
                    Some(t) => r matches Some(v) && *v == t,
                    None => r is None,
                },
            },
    {
        match self {
            Method::WithoutBody(_) => None,
            Method::WithBody { body_type: None, .. } => None,
            Method::WithBody { body_type: Some(body_ty), .. } => Some(body_ty),
        }
    }

    /// The verb in upper case.
    pub fn as_str(&self) -> (r: &'static str)
        ensures
            r@ == spec_verb(*self),
    {
        match self {
            Method::WithoutBody(MethodWithoutBody::Get) => "GET",
            Method::WithoutBody(MethodWithoutBody::Head) => "HEAD",
            Method::WithoutBody(MethodWithoutBody::Options) => "OPTIONS",
            Method::WithoutBody(MethodWithoutBody::Trace) => "TRACE",
            Method::WithBody { method: MethodWithBody::Post, .. } => "POST",
            Method::WithBody { method: MethodWithBody::Delete, .. } => "DELETE",
            Method::WithBody { method: MethodWithBody::Put, .. } => "PUT",
            Method::WithBody { method: MethodWithBody::Patch, .. } => "PATCH",
        }
    }

    /// The verb in lower case.
    pub fn as_lower_str(&self) -> (r: &'static str)
        ensures
            r@ == spec_verb_lower(*self),
    {
        match self {
            Method::WithoutBody(MethodWithoutBody::Get) => "get",
            Method::WithoutBody(MethodWithoutBody::Head) => "head",
            Method::WithoutBody(MethodWithoutBody::Options) => "options",
            Method::WithoutBody(MethodWithoutBody::Trace) => "trace",
            Method::WithBody { method: MethodWithBody::Post, .. } => "post",
            Method::WithBody { method: MethodWithBody::Delete, .. } => "delete",
            Method::WithBody { method: MethodWithBody::Put, .. } => "put",
            Method::WithBody { method: MethodWithBody::Patch, .. } => "patch",
        }
    }
}

/// Whether one declared parameter is usable: it dereferences, its name is
/// a valid identifier, its schema builds to a non-struct type, and it is a
/// path parameter declared required, or a query parameter.
pub open spec fn param_ok(
    pl: Seq<(String, RefOr<Parameter>)>,
    sl: Seq<(String, RefOr<Schema>)>,
    node: RefOr<Parameter>,
) -> bool {
    match spec_deref(pl, node, "parameters"@) {
        None => false,
        Some(p) => {
            &&& ident_accepted(p.name@)
            &&& (p.schema matches Some(sn) && spec_build_ok(sl, sn) && !yields_struct(sn))
            &&& match p.location {
                ParamLocation::Path => p.required,
                ParamLocation::Query => true,
                ParamLocation::Header => false,
                ParamLocation::Cookie => false,
            }
        },
    }
}

/// The declared parameters that dereference to path parameters, in order.
pub open spec fn path_nodes(
    pl: Seq<(String, RefOr<Parameter>)>,
    params: Seq<RefOr<Parameter>>,
) -> Seq<RefOr<Parameter>>
    decreases params.len(),
{
    if params.len() == 0 {
        Seq::empty()
    } else {
        let rest = path_nodes(pl, params.drop_first());
        match spec_deref(pl, params[0], "parameters"@) {
            Some(p) => if p.location is Path {
                seq![params[0]] + rest
            } else {
                rest
            },
            None => rest,
        }
    }
}

/// The declared parameters that dereference to query parameters, in order.
pub open spec fn query_nodes(
    pl: Seq<(String, RefOr<Parameter>)>,
    params: Seq<RefOr<Parameter>>,
) -> Seq<RefOr<Parameter>>
    decreases params.len(),
{
    if params.len() == 0 {
        Seq::empty()
    } else {
        let rest = query_nodes(pl, params.drop_first());
        match spec_deref(pl, params[0], "parameters"@) {
            Some(p) => if p.location is Query {
                seq![params[0]] + rest
            } else {
                rest
            },
            None => rest,
        }
    }
}

/// The raw declared names of the path parameters, in order.
pub open spec fn path_raw_names(
    pl: Seq<(String, RefOr<Parameter>)>,
    params: Seq<RefOr<Parameter>>,
) -> Seq<Seq<char>>
    decreases params.len(),
{
    if params.len() == 0 {
        Seq::empty()
    } else {
        let rest = path_raw_names(pl, params.drop_first());
        match spec_deref(pl, params[0], "parameters"@) {
            Some(p) => if p.location is Path {
                seq![p.name@] + rest
            } else {
                rest
            },
            None => rest,
        }
    }
}

/// Appending one declared parameter extends the three projections in the
/// evident way.
proof fn lemma_param_filters_push(
    pl: Seq<(String, RefOr<Parameter>)>,
    params: Seq<RefOr<Parameter>>,
    x: RefOr<Parameter>,
)
    ensures
        path_nodes(pl, params.push(x)) == path_nodes(pl, params) + (match spec_deref(
            pl,
            x,
            "parameters"@,
        ) {
            Some(p) => if p.location is Path {
                seq![x]
            } else {
                Seq::empty()
            },
            None => Seq::empty(),
        }),
        query_nodes(pl, params.push(x)) == query_nodes(pl, params) + (match spec_deref(
            pl,
            x,
            "parameters"@,
        ) {
            Some(p) => if p.location is Query {
                seq![x]
            } else {
                Seq::empty()
            },
            None => Seq::empty(),
        }),
        path_raw_names(pl, params.push(x)) == path_raw_names(pl, params) + (match spec_deref(
            pl,
            x,
            "parameters"@,
        ) {
            Some(p) => if p.location is Path {
                seq![p.name@]
            } else {
                Seq::empty()
            },
            None => Seq::empty(),
        }),
    decreases params.len(),
{
    let q = params.push(x);
    assert(q[0] == if params.len() == 0 {
        x
    } else {
        params[0]
    });
    if params.len() == 0 {
        assert(q.drop_first() =~= Seq::<RefOr<Parameter>>::empty());
        assert(path_nodes(pl, Seq::<RefOr<Parameter>>::empty()) == Seq::<RefOr<Parameter>>::empty());
        assert(query_nodes(pl, Seq::<RefOr<Parameter>>::empty()) == Seq::<
            RefOr<Parameter>,
        >::empty());
        assert(path_raw_names(pl, Seq::<RefOr<Parameter>>::empty()) == Seq::<Seq<char>>::empty());
        assert(path_nodes(pl, q) =~= path_nodes(pl, params) + (match spec_deref(
            pl,
            x,
            "parameters"@,
        ) {
            Some(p) => if p.location is Path {
                seq![x]
            } else {
                Seq::<RefOr<Parameter>>::empty()
            },
            None => Seq::<RefOr<Parameter>>::empty(),
        }));
        assert(query_nodes(pl, q) =~= query_nodes(pl, params) + (match spec_deref(
            pl,
            x,
            "parameters"@,
        ) {
            Some(p) => if p.location is Query {
                seq![x]
            } else {
                Seq::<RefOr<Parameter>>::empty()
            },
            None => Seq::<RefOr<Parameter>>::empty(),
        }));
        assert(path_raw_names(pl, q) =~= path_raw_names(pl, params) + (match spec_deref(
            pl,
            x,
            "parameters"@,
        ) {
            Some(p) => if p.location is Path {
                seq![p.name@]
            } else {
                Seq::<Seq<char>>::empty()
            },
            None => Seq::<Seq<char>>::empty(),
        }));
    } else {
        assert(q.drop_first() =~= params.drop_first().push(x));
        lemma_param_filters_push(pl, params.drop_first(), x);
        let piece_path = (match spec_deref(pl, x, "parameters"@) {
            Some(p) => if p.location is Path {
                seq![x]
            } else {
                Seq::<RefOr<Parameter>>::empty()
            },
            None => Seq::<RefOr<Parameter>>::empty(),
        });
        let piece_query = (match spec_deref(pl, x, "parameters"@) {
            Some(p) => if p.location is Query {
                seq![x]
            } else {
                Seq::<RefOr<Parameter>>::empty()
            },
            None => Seq::<RefOr<Parameter>>::empty(),
        });
        let piece_raw = (match spec_deref(pl, x, "parameters"@) {
            Some(p) => if p.location is Path {
                seq![p.name@]
            } else {
                Seq::<Seq<char>>::empty()
            },
            None => Seq::<Seq<char>>::empty(),
        });
        match spec_deref(pl, params[0], "parameters"@) {
            Some(p0) => {
                if p0.location is Path {
                    assert(seq![params[0]] + (path_nodes(pl, params.drop_first()) + piece_path)
                        =~= (seq![params[0]] + path_nodes(pl, params.drop_first())) + piece_path);
                    assert(seq![p0.name@] + (path_raw_names(pl, params.drop_first()) + piece_raw)
                        =~= (seq![p0.name@] + path_raw_names(pl, params.drop_first())) + piece_raw);
                }
                if p0.location is Query {
                    assert(seq![params[0]] + (query_nodes(pl, params.drop_first()) + piece_query)
                        =~= (seq![params[0]] + query_nodes(pl, params.drop_first())) + piece_query);
                }
            },
            None => {},
        }
    }
}

/// What one path parameter contributes: its snake-cased name and its built
/// type (always required, never wrapped).
pub open spec fn path_param_of(
    pl: Seq<(String, RefOr<Parameter>)>,
    sl: Seq<(String, RefOr<Schema>)>,
    node: RefOr<Parameter>,
    out: (Ident, Type),
) -> bool {
    match spec_deref(pl, node, "parameters"@) {
        Some(p) => {
            &&& p.location is Path && p.required
            &&& out.0@ == snake_of(p.name@)
            &&& (p.schema matches Some(sn) && built_ty(sl, sn, out.1))
        },
        None => false,
    }
}

/// What one query parameter contributes: its snake-cased name and its
/// built type, `Optional`-wrapped iff the schema marks it non-required.
pub open spec fn query_param_of(
    pl: Seq<(String, RefOr<Parameter>)>,
    sl: Seq<(String, RefOr<Schema>)>,
    node: RefOr<Parameter>,
    out: (Ident, Type),
) -> bool {
    match spec_deref(pl, node, "parameters"@) {
        Some(p) => {
            &&& p.location is Query
            &&& out.0@ == snake_of(p.name@)
            &&& (p.schema matches Some(sn) && (if p.required {
                built_ty(sl, sn, out.1)
            } else {
                opt_built(sl, sn, out.1)
            }))
        },
        None => false,
    }
}

/// What parameter extraction returns: the path parameters (with their raw
/// declared names) and the query parameters, each list in declaration
/// order.
pub open spec fn params_extracted(
    pl: Seq<(String, RefOr<Parameter>)>,
    sl: Seq<(String, RefOr<Schema>)>,
    params: Seq<RefOr<Parameter>>,
    path_out: Seq<(Ident, Type)>,
    raws: Seq<String>,
    query_out: Seq<(Ident, Type)>,
) -> bool {
    &&& path_out.len() == path_nodes(pl, params).len()
    &&& raws.len() == path_out.len()
    &&& forall|k: int|
        0 <= k < path_out.len() ==> path_param_of(
            pl,
            sl,
            path_nodes(pl, params)[k],
            #[trigger] path_out[k],
        )
    &&& forall|k: int| 0 <= k < raws.len() ==> (#[trigger] raws[k]@) == path_raw_names(pl, params)[k]
    &&& query_out.len() == query_nodes(pl, params).len()
    &&& forall|k: int|
        0 <= k < query_out.len() ==> query_param_of(
            pl,
            sl,
            query_nodes(pl, params)[k],
            #[trigger] query_out[k],
        )
}

/// Well-formedness of a parameter list: validated names, built types.
pub open spec fn params_wf(ps: Seq<(Ident, Type)>) -> bool {
    forall|k: int| 0 <= k < ps.len() ==> (#[trigger] ps[k]).0.wf() && type_wf(ps[k].1)
}

/// Extract the typed path and query parameters of one operation, in
/// declaration order.
#[verifier::loop_isolation(false)]
fn extract_params(
    params: &Vec<RefOr<Parameter>>,
    param_lookup: &ParametersLookup,
    schema_lookup: &SchemaLookup,
) -> (r: Result<(Vec<(Ident, Type)>, Vec<String>, Vec<(Ident, Type)>), Error>)
    ensures
        r is Ok <==> (forall|i: int|
            0 <= i < params@.len() ==> param_ok(param_lookup@, schema_lookup@, #[trigger] params@[i])),
        r matches Err(e) ==> !(e is NoOperationId),
        r matches Ok(t) ==> params_extracted(
            param_lookup@,
            schema_lookup@,
            params@,
            t.0@,
            t.1@,
            t.2@,
        ) && params_wf(t.0@) && params_wf(t.2@),
{
    let ghost pl = param_lookup@;
    let ghost sl = schema_lookup@;
    let mut path_out: Vec<(Ident, Type)> = Vec::new();
    let mut raws: Vec<String> = Vec::new();
    let mut query_out: Vec<(Ident, Type)> = Vec::new();
    let n = params.len();
    let mut i: usize = 0;
    proof {
        assert(params@.take(0) =~= Seq::<RefOr<Parameter>>::empty());
    }
    while i < n
        invariant
            i <= n,
            n == params@.len(),
            forall|k: int| 0 <= k < i ==> param_ok(pl, sl, #[trigger] params@[k]),
            params_extracted(pl, sl, params@.take(i as int), path_out@, raws@, query_out@),
            params_wf(path_out@),
            params_wf(query_out@),
        decreases n - i,
    {
        let node = &params[i];
        proof {
            assert(params@.take(i + 1) =~= params@.take(i as int).push(params@[i as int]));
            lemma_param_filters_push(pl, params@.take(i as int), params@[i as int]);
            lemma_raw_names_len(pl, params@.take(i as int));
            lemma_raw_names_len(pl, params@.take(i + 1));
        }
        let p = match dereference(node, param_lookup, "parameters") {
            Ok(p) => p,
            Err(e) => {
                proof {
                    assert(!param_ok(pl, sl, params@[i as int]));
                }
                return Err(e);
            },
        };
        let sn = match &p.schema {
            Some(sn) => sn,
            None => {
                proof {
                    assert(!param_ok(pl, sl, params@[i as int]));
                }
                return Err(Error::Todo(String::from_str("parameter content not supported")));
            },
        };
        let sot = match build_type(sn, schema_lookup) {
            Ok(s) => s,
            Err(e) => {
                proof {
                    assert(!param_ok(pl, sl, params@[i as int]));
                }
                return Err(e);
            },
        };
        proof {
            lemma_built_shape(sl, spec_deref(pl, params@[i as int], "parameters"@)->Some_0.schema->Some_0, sot);
        }
        let ghost sot_snap = sot;
        let base = match sot.discard_struct() {
            Ok(t) => t,
            Err(e) => {
                proof {
                    assert(!param_ok(pl, sl, params@[i as int]));
                }
                return Err(e);
            },
        };
        proof {
            assert(StructOrType { meta: base.meta, inner: StructOrInner::Typ(base.typ) }
                == sot_snap);
        }
        let ghost base_snap = base;
        let name = match Ident::parse(p.name.as_str()) {
            Ok(id) => id,
            Err(e) => {
                proof {
                    assert(!param_ok(pl, sl, params@[i as int]));
                }
                return Err(e);
            },
        };
        let ghost node_i = params@[i as int];
        let ghost old_path = path_out@;
        let ghost old_raws = raws@;
        let ghost old_query = query_out@;
        match p.location {
            ParamLocation::Path => {
                if !p.required {
                    proof {
                        assert(!param_ok(pl, sl, params@[i as int]));
                    }
                    return Err(
                        Error::Todo(String::from_str("path parameter must be declared required")),
                    );
                }
                let pair = (name, base);
                let ghost pair_snap = pair;
                path_out.push(pair);
                raws.push(p.name.clone());
                proof {
                    assert(path_param_of(pl, sl, node_i, pair_snap)) by {
                        assert(spec_deref(pl, node_i, "parameters"@) == Some(*p));
                        assert(built_ty(sl, p.schema->Some_0, pair_snap.1));
                    }
                    let pn_new = path_nodes(pl, params@.take(i + 1));
                    let rn_new = path_raw_names(pl, params@.take(i + 1));
                    assert(pn_new =~= path_nodes(pl, params@.take(i as int)).push(node_i));
                    assert(rn_new =~= path_raw_names(pl, params@.take(i as int)).push(p.name@));
                    assert(query_nodes(pl, params@.take(i + 1)) =~= query_nodes(
                        pl,
                        params@.take(i as int),
                    ));
                    assert forall|k: int|
                        0 <= k < path_out@.len() implies path_param_of(
                        pl,
                        sl,
                        pn_new[k],
                        #[trigger] path_out@[k],
                    ) by {
                        if k < path_out@.len() - 1 {
                            assert(path_out@[k] == old_path[k]);
                            assert(pn_new[k] == path_nodes(pl, params@.take(i as int))[k]);
                        } else {
                            assert(path_out@[k] == pair_snap);
                            assert(pn_new[k] == node_i);
                        }
                    }
                    assert forall|k: int|
                        0 <= k < raws@.len() implies (#[trigger] raws@[k]@) == rn_new[k] by {
                        if k < raws@.len() - 1 {
                            assert(raws@[k] == old_raws[k]);
                            assert(rn_new[k] == path_raw_names(pl, params@.take(i as int))[k]);
                        } else {
                            assert(rn_new[k] == p.name@);
                        }
                    }
                }
            },
            ParamLocation::Query => {
                let ty = if p.required {
                    base
                } else {
                    base.to_option()
                };
                let pair = (name, ty);
                let ghost pair_snap = pair;
                query_out.push(pair);
                proof {
                    assert(query_param_of(pl, sl, node_i, pair_snap)) by {
                        assert(spec_deref(pl, node_i, "parameters"@) == Some(*p));
                        if p.required {
                            assert(built_ty(sl, p.schema->Some_0, pair_snap.1));
                        } else {
                            assert(crate::ir::optioned(base_snap, pair_snap.1));
                            assert(opt_built(sl, p.schema->Some_0, pair_snap.1));
                        }
                    }
                    let qn_new = query_nodes(pl, params@.take(i + 1));
                    assert(qn_new =~= query_nodes(pl, params@.take(i as int)).push(node_i));
                    assert(path_nodes(pl, params@.take(i + 1)) =~= path_nodes(
                        pl,
                        params@.take(i as int),
                    ));
                    assert(path_raw_names(pl, params@.take(i + 1)) =~= path_raw_names(
                        pl,
                        params@.take(i as int),
                    ));
                    assert forall|k: int|
                        0 <= k < query_out@.len() implies query_param_of(
                        pl,
                        sl,
                        qn_new[k],
                        #[trigger] query_out@[k],
                    ) by {
                        if k < query_out@.len() - 1 {
                            assert(query_out@[k] == old_query[k]);
                            assert(qn_new[k] == query_nodes(pl, params@.take(i as int))[k]);
                        } else {
                            assert(query_out@[k] == pair_snap);
                            assert(qn_new[k] == node_i);
                        }
                    }
                }
            },
            ParamLocation::Header => {
                proof {
                    assert(!param_ok(pl, sl, params@[i as int]));
                }
                return Err(Error::Todo(String::from_str("parameter location not supported")));
            },
            ParamLocation::Cookie => {
                proof {
                    assert(!param_ok(pl, sl, params@[i as int]));
                }
                return Err(Error::Todo(String::from_str("parameter location not supported")));
            },
        }
        i = i + 1;
    }
    proof {
        assert(params@.take(n as int) =~= params@);
    }
    Ok((path_out, raws, query_out))
}

/// Whether a request-body reference is usable: it dereferences to exactly
/// one JSON payload whose schema builds to a non-struct type.
pub open spec fn body_type_ok(
    bl: Seq<(String, RefOr<RequestBody>)>,
    sl: Seq<(String, RefOr<Schema>)>,
    node: RefOr<RequestBody>,
) -> bool {
    match spec_deref(bl, node, "requestBodies"@) {
        None => false,
        Some(rb) => json_content_ok(rb.content@) && (rb.content@[0].1.schema matches Some(sn)
            && spec_build_ok(sl, sn) && !yields_struct(sn)),
    }
}

/// What the built body type of a request-body reference is.
pub open spec fn body_type_of(
    bl: Seq<(String, RefOr<RequestBody>)>,
    sl: Seq<(String, RefOr<Schema>)>,
    node: RefOr<RequestBody>,
    t: Type,
) -> bool {
    match spec_deref(bl, node, "requestBodies"@) {
        None => false,
        Some(rb) => if rb.content@.len() > 0 {
            match rb.content@[0].1.schema {
                Some(sn) => built_ty(sl, sn, t),
                None => false,
            }
        } else {
            false
        },
    }
}

/// Build the payload type of one declared request body, which must carry
/// exactly one JSON media type.
fn get_type_of_request_body(
    node: &RefOr<RequestBody>,
    req_body_lookup: &RequestLookup,
    schema_lookup: &SchemaLookup,
) -> (r: Result<Type, Error>)
    ensures
        r is Ok <==> body_type_ok(req_body_lookup@, schema_lookup@, *node),
        r matches Ok(t) ==> body_type_of(req_body_lookup@, schema_lookup@, *node, t) && type_wf(t),
        r matches Err(e) ==> !(e is NoOperationId),
        (match spec_deref(req_body_lookup@, *node, "requestBodies"@) {
            None => r matches Err(e) && (e matches Error::BadReference(m) && (node
                matches RefOr::Reference(s) && m@ == s@)),
            Some(rb) => if !(rb.content@.len() == 1 && rb.content@[0].0@ == "application/json"@) {
                r matches Err(e) && (e matches Error::Todo(m) && m@
                    == "content type must be 'application/json'"@)
            } else if rb.content@[0].1.schema is None {
                r matches Err(e) && (e matches Error::Todo(m) && m@
                    == "media type does not contain schema"@)
            } else {
                (match rb.content@[0].1.schema {
                    Some(sn) => spec_build_ok(schema_lookup@, sn) && yields_struct(sn) ==> (r
                        matches Err(e) && e is NotStructurallyTyped),
                    None => true,
                })
            },
        }),
{
    let ghost bl = req_body_lookup@;
    let ghost sl = schema_lookup@;
    let rb = match dereference(node, req_body_lookup, "requestBodies") {
        Ok(rb) => rb,
        Err(e) => {
            return Err(e);
        },
    };
    let clen = rb.content.len();
    if clen != 1 {
        return Err(Error::Todo(String::from_str("content type must be 'application/json'")));
    }
    let entry = rb.content.entry_at(0);
    let json_key = String::from_str("application/json");
    if !(entry.0 == json_key) {
        return Err(Error::Todo(String::from_str("content type must be 'application/json'")));
    }
    let sn = match &entry.1.schema {
        Some(sn) => sn,
        None => {
            return Err(Error::Todo(String::from_str("media type does not contain schema")));
        },
    };
    let sot = match build_type(sn, schema_lookup) {
        Ok(s) => s,
        Err(e) => {
            return Err(e);
        },
    };
    proof {
        lemma_built_shape(sl, rb.content@[0].1.schema->Some_0, sot);
    }
    let ghost sot_snap = sot;
    match sot.discard_struct() {
        Ok(t) => {
            proof {
                assert(StructOrType { meta: t.meta, inner: StructOrInner::Typ(t.typ) } == sot_snap);
            }
            Ok(t)
        },
        Err(e) => Err(e),
    }
}

/// One validated HTTP operation: everything downstream code emission
/// needs, internally consistent by construction.
#[derive(Debug)]
pub struct Route {
    /// The operation identifier, unique across the whole route table.
    pub operation_id: Ident,
    /// The method, carrying the body type when one is declared.
    pub method: Method,
    /// The analysed path.
    pub path: RoutePath,
    /// The typed path parameters, in declaration order; always required.
    pub path_params: Vec<(Ident, Type)>,
    /// The typed query parameters, in declaration order.
    pub query_params: Vec<(Ident, Type)>,
    /// The one success response: its code and its body type, if any.
    pub success: (u16, Option<Type>),
    /// The error responses, in declared order, each with its variant name.
    pub errors: Vec<(u16, Option<Type>, TypeName)>,
}

impl Route {
    /// A constructed route is internally consistent: names validated,
    /// types well formed, status codes in their ranges, and as many path
    /// parameters as the path has placeholders.
    pub open spec fn wf(&self) -> bool {
        &&& self.operation_id.wf()
        &&& path_wf(self.path@)
        &&& code_is_success(self.success.0)
        &&& (self.success.1 matches Some(t) ==> type_wf(t))
        &&& forall|i: int|
            0 <= i < self.errors@.len() ==> code_is_error((#[trigger] self.errors@[i]).0)
                && self.errors@[i].2.wf() && (self.errors@[i].1 matches Some(t) ==> type_wf(t))
        &&& params_wf(self.path_params@)
        &&& params_wf(self.query_params@)
        &&& self.path_params@.len() == spec_path_args(self.path@).len()
        &&& forall|k: int|
            0 <= k < spec_path_args(self.path@).len() ==> ident_accepted(
                #[trigger] spec_path_args(self.path@)[k],
            )
        &&& (self.method matches Method::WithBody { body_type: Some(t), .. } ==> type_wf(t))
    }
}

/// Whether every path placeholder is bound by a declared path parameter:
/// the counts agree and every placeholder name is declared.
pub open spec fn params_bound(
    pl: Seq<(String, RefOr<Parameter>)>,
    params: Seq<RefOr<Parameter>>,
    segs: Seq<crate::path::SegView>,
) -> bool {
    &&& path_raw_names(pl, params).len() == spec_path_args(segs).len()
    &&& forall|k: int|
        0 <= k < spec_path_args(segs).len() ==> path_raw_names(pl, params).contains(
            #[trigger] spec_path_args(segs)[k],
        )
}

/// Whether one operation validates, body questions aside.
pub open spec fn op_core_ok(
    sl: Seq<(String, RefOr<Schema>)>,
    rl: Seq<(String, RefOr<crate::doc::Response>)>,
    pl: Seq<(String, RefOr<Parameter>)>,
    path: Seq<char>,
    op: Operation,
) -> bool {
    &&& spec_analyse(path) is Some
    &&& op.operation_id matches Some(oid) && ident_accepted(oid@)
    &&& forall|i: int| 0 <= i < op.parameters@.len() ==> param_ok(pl, sl, #[trigger] op.parameters@[i])
    &&& (spec_analyse(path) matches Some(segs) && params_bound(pl, op.parameters@, segs))
    &&& responses_ok(rl, sl, op.responses)
}

/// What the route built from one operation holds, body aside.
pub open spec fn route_core_of(
    sl: Seq<(String, RefOr<Schema>)>,
    rl: Seq<(String, RefOr<crate::doc::Response>)>,
    pl: Seq<(String, RefOr<Parameter>)>,
    path: Seq<char>,
    op: Operation,
    rt: Route,
) -> bool {
    &&& (op.operation_id matches Some(oid) && rt.operation_id@ == snake_of(oid@))
    &&& spec_analyse(path) == Some(rt.path@)
    &&& rt.path_params@.len() == path_nodes(pl, op.parameters@).len()
    &&& forall|k: int|
        0 <= k < rt.path_params@.len() ==> path_param_of(
            pl,
            sl,
            path_nodes(pl, op.parameters@)[k],
            #[trigger] rt.path_params@[k],
        )
    &&& rt.query_params@.len() == query_nodes(pl, op.parameters@).len()
    &&& forall|k: int|
        0 <= k < rt.query_params@.len() ==> query_param_of(
            pl,
            sl,
            query_nodes(pl, op.parameters@)[k],
            #[trigger] rt.query_params@[k],
        )
    &&& (success_entry(op.responses.responses@) matches Some(se) && rt.success.0 == se.0
        && response_type_of(rl, sl, se.1, rt.success.1))
    &&& rt.errors@.len() == error_entries(op.responses.responses@).len()
    &&& forall|k: int|
        0 <= k < rt.errors@.len() ==> {
            let ee = error_entries(op.responses.responses@)[k];
            let out = #[trigger] rt.errors@[k];
            out.0 == ee.0 && response_type_of(rl, sl, ee.1, out.1) && Some(out.2@)
                == spec_error_variant(ee.0)
        }
}

/// The binding condition over the extracted raw names: as many names as
/// placeholders, and every placeholder name declared.
pub open spec fn bound_ok_names(raws: Seq<String>, segs: Seq<crate::path::SegView>) -> bool {
    &&& raws.len() == spec_path_args(segs).len()
    &&& forall|k: int|
        0 <= k < spec_path_args(segs).len() ==> seq_contains_str(
            raws,
            #[trigger] spec_path_args(segs)[k],
        )
}

/// Check that every placeholder of the path is declared as a path
/// parameter, 1:1.
#[verifier::loop_isolation(false)]
fn check_binding(path: &RoutePath, raws: &Vec<String>) -> (r: bool)
    ensures
        r == bound_ok_names(raws@, path@),
{
    let args = path.path_args();
    proof {
        assert(args.deep_view().len() == args@.len());
        assert forall|k: int|
            0 <= k < args@.len() implies (#[trigger] args@[k]@) == spec_path_args(path@)[k] by {
            assert(args.deep_view()[k] == args@[k].deep_view());
        }
    }
    if args.len() != raws.len() {
        return false;
    }
    let n = args.len();
    let mut k: usize = 0;
    while k < n
        invariant
            k <= n,
            forall|j: int| 0 <= j < k ==> seq_contains_str(raws@, #[trigger] spec_path_args(path@)[j]),
        decreases n - k,
    {
        if !contains_string(raws, &args[k]) {
            proof {
                assert(args@[k as int]@ == spec_path_args(path@)[k as int]);
            }
            return false;
        }
        proof {
            assert(args@[k as int]@ == spec_path_args(path@)[k as int]);
        }
        k = k + 1;
    }
    true
}

/// Containment over owned strings agrees with containment over their
/// characters.
proof fn lemma_contains_transfer(raws: Seq<String>, names: Seq<Seq<char>>, x: Seq<char>)
    requires
        raws.len() == names.len(),
        forall|k: int| 0 <= k < raws.len() ==> (#[trigger] raws[k]@) == names[k],
    ensures
        seq_contains_str(raws, x) == names.contains(x),
{
    if seq_contains_str(raws, x) {
        let i = choose|i: int| 0 <= i < raws.len() && (#[trigger] raws[i]@) == x;
        assert(names[i] == x);
        assert(names.contains(x));
    }
    if names.contains(x) {
        let i = choose|i: int| 0 <= i < names.len() && #[trigger] names[i] == x;
        assert(raws[i]@ == x);
        assert(seq_contains_str(raws, x));
    }
}

/// The two faces of the binding condition agree when the raw names match.
proof fn lemma_bound_equiv(raws: Seq<String>, names: Seq<Seq<char>>, segs: Seq<crate::path::SegView>)
    requires
        raws.len() == names.len(),
        forall|k: int| 0 <= k < raws.len() ==> (#[trigger] raws[k]@) == names[k],
    ensures
        bound_ok_names(raws, segs) == (names.len() == spec_path_args(segs).len() && forall|k: int|
            0 <= k < spec_path_args(segs).len() ==> names.contains(#[trigger] spec_path_args(segs)[k])),
{
    let args = spec_path_args(segs);
    assert forall|k: int|
        0 <= k < args.len() implies (seq_contains_str(raws, #[trigger] args[k]) == names.contains(
        args[k],
    )) by {
        lemma_contains_transfer(raws, names, args[k]);
    }
}

/// Every raw path-parameter name of a list of usable parameters is an
/// accepted identifier.
proof fn lemma_raw_names_accepted(
    pl: Seq<(String, RefOr<Parameter>)>,
    sl: Seq<(String, RefOr<Schema>)>,
    params: Seq<RefOr<Parameter>>,
)
    requires
        forall|i: int| 0 <= i < params.len() ==> param_ok(pl, sl, #[trigger] params[i]),
    ensures
        forall|m: int|
            0 <= m < path_raw_names(pl, params).len() ==> ident_accepted(
                #[trigger] path_raw_names(pl, params)[m],
            ),
    decreases params.len(),
{
    if params.len() == 0 {
    } else {
        let d = params.drop_first();
        assert forall|i: int| 0 <= i < d.len() implies param_ok(pl, sl, #[trigger] d[i]) by {
            assert(d[i] == params[i + 1]);
        }
        lemma_raw_names_accepted(pl, sl, d);
        assert(param_ok(pl, sl, params[0]));
        assert forall|m: int|
            0 <= m < path_raw_names(pl, params).len() implies ident_accepted(
            #[trigger] path_raw_names(pl, params)[m],
        ) by {
            match spec_deref(pl, params[0], "parameters"@) {
                Some(p) => {
                    if p.location is Path {
                        if m == 0 {
                            assert(path_raw_names(pl, params)[m] == p.name@);
                        } else {
                            assert(path_raw_names(pl, params)[m] == path_raw_names(pl, d)[m - 1]);
                        }
                    } else {
                        assert(path_raw_names(pl, params)[m] == path_raw_names(pl, d)[m]);
                    }
                },
                None => {
                    assert(path_raw_names(pl, params)[m] == path_raw_names(pl, d)[m]);
                },
            }
        }
    }
}

/// The raw-name and node projections of the path parameters run in step.
proof fn lemma_raw_names_len(pl: Seq<(String, RefOr<Parameter>)>, params: Seq<RefOr<Parameter>>)
    ensures
        path_raw_names(pl, params).len() == path_nodes(pl, params).len(),
    decreases params.len(),
{
    if params.len() > 0 {
        lemma_raw_names_len(pl, params.drop_first());
    }
}

impl Route {
    /// Analyse and validate one body-less operation.
    pub fn without_body(
        path: &str,
        method: MethodWithoutBody,
        op: &Operation,
        schema_lookup: &SchemaLookup,
        response_lookup: &ResponseLookup,
        param_lookup: &ParametersLookup,
    ) -> (r: Result<Route, Error>)
        ensures
            r is Ok <==> op_core_ok(
                schema_lookup@,
                response_lookup@,
                param_lookup@,
                path@,
                *op,
            ),
            r matches Err(e) ==> (e matches Error::NoOperationId(m) ==> m@ == path@),
            (spec_analyse(path@) is Some && op.operation_id is None) ==> (r matches Err(e) && (e
                matches Error::NoOperationId(m) && m@ == path@)),
            r matches Ok(rt) ==> route_core_of(
                schema_lookup@,
                response_lookup@,
                param_lookup@,
                path@,
                *op,
                rt,
            ) && rt.wf() && rt.method == Method::WithoutBody(method),
    {
        let core = route_core(path, op, schema_lookup, response_lookup, param_lookup);
        match core {
            Ok(rt_parts) => {
                let (operation_id, route_path, path_params, query_params, success, errors) =
                    rt_parts;
                Ok(
                    Route {
                        operation_id,
                        method: Method::WithoutBody(method),
                        path: route_path,
                        path_params,
                        query_params,
                        success,
                        errors,
                    },
                )
            },
            Err(e) => Err(e),
        }
    }

    /// Analyse and validate one body-carrying operation; its request body,
    /// if declared, must be one JSON payload.
    pub fn with_body(
        path: &str,
        method: MethodWithBody,
        op: &Operation,
        schema_lookup: &SchemaLookup,
        response_lookup: &ResponseLookup,
        param_lookup: &ParametersLookup,
        req_body_lookup: &RequestLookup,
    ) -> (r: Result<Route, Error>)
        ensures
            r is Ok <==> op_core_ok(schema_lookup@, response_lookup@, param_lookup@, path@, *op)
                && (op.request_body matches Some(n) ==> body_type_ok(
                req_body_lookup@,
                schema_lookup@,
                n,
            )),
            r matches Err(e) ==> (e matches Error::NoOperationId(m) ==> m@ == path@),
            ((op.request_body matches Some(n2) ==> body_type_ok(
                req_body_lookup@,
                schema_lookup@,
                n2,
            )) && spec_analyse(path@) is Some && op.operation_id is None) ==> (r matches Err(e)
                && (e matches Error::NoOperationId(m) && m@ == path@)),
            r matches Ok(rt) ==> route_core_of(
                schema_lookup@,
                response_lookup@,
                param_lookup@,
                path@,
                *op,
                rt,
            ) && rt.wf() && (rt.method matches Method::WithBody { method: m, body_type: bt } && m
                == method && (match op.request_body {
                Some(n) => bt matches Some(t) && body_type_of(req_body_lookup@, schema_lookup@, n, t),
                None => bt is None,
            })),
    {
        let body_type = match &op.request_body {
            Some(node) => {
                match get_type_of_request_body(node, req_body_lookup, schema_lookup) {
                    Ok(t) => Some(t),
                    Err(e) => {
                        return Err(e);
                    },
                }
            },
            None => None,
        };
        let core = route_core(path, op, schema_lookup, response_lookup, param_lookup);
        match core {
            Ok(rt_parts) => {
                let (operation_id, route_path, path_params, query_params, success, errors) =
                    rt_parts;
                Ok(
                    Route {
                        operation_id,
                        method: Method::WithBody { method, body_type },
                        path: route_path,
                        path_params,
                        query_params,
                        success,
                        errors,
                    },
                )
            },
            Err(e) => Err(e),
        }
    }
}

/// The shared core of route construction: operation id, path analysis,
/// parameter extraction and binding, response classification.
fn route_core(
    path: &str,
    op: &Operation,
    schema_lookup: &SchemaLookup,
    response_lookup: &ResponseLookup,
    param_lookup: &ParametersLookup,
) -> (r: Result<
    (Ident, RoutePath, Vec<(Ident, Type)>, Vec<(Ident, Type)>, (u16, Option<Type>), Vec<
        (u16, Option<Type>, TypeName),
    >),
    Error,
>)
    ensures
        r is Ok <==> op_core_ok(schema_lookup@, response_lookup@, param_lookup@, path@, *op),
        r matches Err(e) ==> (e matches Error::NoOperationId(m) ==> m@ == path@),
        (spec_analyse(path@) is Some && op.operation_id is None) ==> (r matches Err(e) && (e
            matches Error::NoOperationId(m) && m@ == path@)),
        r matches Ok(t) ==> {
            let rt = Route {
                operation_id: t.0,
                method: Method::WithoutBody(MethodWithoutBody::Get),
                path: t.1,
                path_params: t.2,
                query_params: t.3,
                success: t.4,
                errors: t.5,
            };
            route_core_of(schema_lookup@, response_lookup@, param_lookup@, path@, *op, rt)
                && rt.wf()
        },
{
    let ghost sl = schema_lookup@;
    let ghost rl = response_lookup@;
    let ghost pl = param_lookup@;
    let route_path = match RoutePath::analyse(path) {
        Ok(rp) => rp,
        Err(e) => {
            return Err(e);
        },
    };
    let oid_raw = match &op.operation_id {
        Some(oid) => oid,
        None => {
            return Err(Error::NoOperationId(String::from_str(path)));
        },
    };
    let operation_id = match Ident::parse(oid_raw.as_str()) {
        Ok(id) => id,
        Err(e) => {
            return Err(e);
        },
    };
    let parts = match extract_params(&op.parameters, param_lookup, schema_lookup) {
        Ok(t) => t,
        Err(e) => {
            return Err(e);
        },
    };
    let (path_params, raws, query_params) = parts;
    proof {
        lemma_raw_names_len(pl, op.parameters@);
        lemma_bound_equiv(raws@, path_raw_names(pl, op.parameters@), route_path@);
        assert(bound_ok_names(raws@, route_path@) == params_bound(pl, op.parameters@, route_path@));
    }
    if !check_binding(&route_path, &raws) {
        return Err(
            Error::Todo(String::from_str("path parameters do not match path placeholders")),
        );
    }
    proof {
        lemma_raw_names_accepted(pl, sl, op.parameters@);
        assert forall|k: int|
            0 <= k < spec_path_args(route_path@).len() implies ident_accepted(
            #[trigger] spec_path_args(route_path@)[k],
        ) by {
            assert(seq_contains_str(raws@, spec_path_args(route_path@)[k]));
            let m = choose|m: int|
                0 <= m < raws@.len() && (#[trigger] raws@[m]@) == spec_path_args(route_path@)[k];
            assert(raws@[m]@ == path_raw_names(pl, op.parameters@)[m]);
            assert(ident_accepted(path_raw_names(pl, op.parameters@)[m]));
        }
    }
    let classified = match classify_responses(&op.responses, response_lookup, schema_lookup) {
        Ok(c) => c,
        Err(e) => {
            return Err(e);
        },
    };
    let (success, errors) = classified;
    Ok((operation_id, route_path, path_params, query_params, success, errors))
}

/// One present operation slot of a path item, with its verb.
pub enum OpSlot {
    Bodyless(MethodWithoutBody, Operation),
    Bodied(MethodWithBody, Operation),
}

/// The slot a body-less verb contributes when its operation is present.
pub open spec fn opt_slot_wo(o: Option<Operation>, m: MethodWithoutBody) -> Seq<OpSlot> {
    match o {
        Some(op) => seq![OpSlot::Bodyless(m, op)],
        None => Seq::empty(),
    }
}

/// The slot a body-carrying verb contributes when its operation is
/// present.
pub open spec fn opt_slot_wb(o: Option<Operation>, m: MethodWithBody) -> Seq<OpSlot> {
    match o {
        Some(op) => seq![OpSlot::Bodied(m, op)],
        None => Seq::empty(),
    }
}

/// The present operations of a path item, in the fixed method order the
/// analyzer walks them.
pub open spec fn item_ops(it: PathItem) -> Seq<OpSlot> {
    opt_slot_wo(it.get, MethodWithoutBody::Get) + opt_slot_wo(it.options, MethodWithoutBody::Options)
        + opt_slot_wo(it.head, MethodWithoutBody::Head) + opt_slot_wo(
        it.trace,
        MethodWithoutBody::Trace,
    ) + opt_slot_wb(it.post, MethodWithBody::Post) + opt_slot_wb(it.put, MethodWithBody::Put)
        + opt_slot_wb(it.patch, MethodWithBody::Patch) + opt_slot_wb(
        it.delete,
        MethodWithBody::Delete,
    )
}

/// Whether one slot's operation validates.
pub open spec fn slot_ok(
    sl: Seq<(String, RefOr<Schema>)>,
    rl: Seq<(String, RefOr<crate::doc::Response>)>,
    pl: Seq<(String, RefOr<Parameter>)>,
    bl: Seq<(String, RefOr<RequestBody>)>,
    path: Seq<char>,
    slot: OpSlot,
) -> bool {
    match slot {
        OpSlot::Bodyless(_, op) => op_core_ok(sl, rl, pl, path, op),
        OpSlot::Bodied(_, op) => op_core_ok(sl, rl, pl, path, op) && (op.request_body
            matches Some(n) ==> body_type_ok(bl, sl, n)),
    }
}

/// What the route built from one slot holds.
pub open spec fn route_of_slot(
    sl: Seq<(String, RefOr<Schema>)>,
    rl: Seq<(String, RefOr<crate::doc::Response>)>,
    pl: Seq<(String, RefOr<Parameter>)>,
    bl: Seq<(String, RefOr<RequestBody>)>,
    path: Seq<char>,
    slot: OpSlot,
    rt: Route,
) -> bool {
    match slot {
        OpSlot::Bodyless(m, op) => route_core_of(sl, rl, pl, path, op, rt) && rt.method
            == Method::WithoutBody(m),
        OpSlot::Bodied(m, op) => route_core_of(sl, rl, pl, path, op, rt) && (rt.method
            matches Method::WithBody { method: m2, body_type: bt } && m2 == m && (match
        op.request_body {
            Some(n) => bt matches Some(t) && body_type_of(bl, sl, n, t),
            None => bt is None,
        })),
    }
}

/// Whether every operation under one path item validates.
pub open spec fn pathitem_ok(
    sl: Seq<(String, RefOr<Schema>)>,
    rl: Seq<(String, RefOr<crate::doc::Response>)>,
    pl: Seq<(String, RefOr<Parameter>)>,
    bl: Seq<(String, RefOr<RequestBody>)>,
    path: Seq<char>,
    it: PathItem,
) -> bool {
    forall|k: int| 0 <= k < item_ops(it).len() ==> slot_ok(sl, rl, pl, bl, path, #[trigger] item_ops(it)[k])
}

/// What the route list of one path item holds: one well-formed route per
/// present operation, in the fixed method order.
pub open spec fn routes_of_item(
    sl: Seq<(String, RefOr<Schema>)>,
    rl: Seq<(String, RefOr<crate::doc::Response>)>,
    pl: Seq<(String, RefOr<Parameter>)>,
    bl: Seq<(String, RefOr<RequestBody>)>,
    path: Seq<char>,
    it: PathItem,
    routes: Seq<Route>,
) -> bool {
    &&& routes.len() == item_ops(it).len()
    &&& forall|k: int|
        0 <= k < routes.len() ==> route_of_slot(sl, rl, pl, bl, path, item_ops(it)[k], #[trigger] routes[k])
            && routes[k].wf()
}

/// A verb of either kind.
#[derive(Debug, Clone, Copy, PartialEq)]
enum Verb {
    Wo(MethodWithoutBody),
    Wb(MethodWithBody),
}

/// Whether an exec slot entry mirrors a spec slot.
spec fn slot_matches(e: (Verb, Operation), s: OpSlot) -> bool {
    match s {
        OpSlot::Bodyless(m, op) => e.0 == Verb::Wo(m) && e.1 == op,
        OpSlot::Bodied(m, op) => e.0 == Verb::Wb(m) && e.1 == op,
    }
}

/// Collect the present operations of one path item, in the fixed method
/// order, with their verbs.
#[verifier::rlimit(100)]
#[verifier::spinoff_prover]
fn collect_ops<'a>(it: &'a PathItem) -> (ops: Vec<(Verb, &'a Operation)>)
    ensures
        ops@.len() == item_ops(*it).len(),
        forall|k: int|
            0 <= k < ops@.len() ==> slot_matches(
                ((#[trigger] ops@[k]).0, *ops@[k].1),
                item_ops(*it)[k],
            ),
{
    let mut ops: Vec<(Verb, &'a Operation)> = Vec::new();
    if let Some(op) = &it.get {
        ops.push((Verb::Wo(MethodWithoutBody::Get), op));
    }
    if let Some(op) = &it.options {
        ops.push((Verb::Wo(MethodWithoutBody::Options), op));
    }
    if let Some(op) = &it.head {
        ops.push((Verb::Wo(MethodWithoutBody::Head), op));
    }
    if let Some(op) = &it.trace {
        ops.push((Verb::Wo(MethodWithoutBody::Trace), op));
    }
    if let Some(op) = &it.post {
        ops.push((Verb::Wb(MethodWithBody::Post), op));
    }
    if let Some(op) = &it.put {
        ops.push((Verb::Wb(MethodWithBody::Put), op));
    }
    if let Some(op) = &it.patch {
        ops.push((Verb::Wb(MethodWithBody::Patch), op));
    }
    if let Some(op) = &it.delete {
        ops.push((Verb::Wb(MethodWithBody::Delete), op));
    }
    proof {
        assert(ops@.len() == item_ops(*it).len() && forall|k: int|
            0 <= k < ops@.len() ==> slot_matches(
                (ops@[k].0, *ops@[k].1),
                #[trigger] item_ops(*it)[k],
            )) by {
            assert(item_ops(*it) == opt_slot_wo(it.get, MethodWithoutBody::Get) + opt_slot_wo(
                it.options,
                MethodWithoutBody::Options,
            ) + opt_slot_wo(it.head, MethodWithoutBody::Head) + opt_slot_wo(
                it.trace,
                MethodWithoutBody::Trace,
            ) + opt_slot_wb(it.post, MethodWithBody::Post) + opt_slot_wb(
                it.put,
                MethodWithBody::Put,
            ) + opt_slot_wb(it.patch, MethodWithBody::Patch) + opt_slot_wb(
                it.delete,
                MethodWithBody::Delete,
            ));
        }
    }
    ops
}

/// Analyse every operation declared under one path template.
#[verifier::loop_isolation(false)]
#[verifier::rlimit(100)]
#[verifier::spinoff_prover]
fn gather_item(
    path: &String,
    it: &PathItem,
    schema_lookup: &SchemaLookup,
    response_lookup: &ResponseLookup,
    param_lookup: &ParametersLookup,
    req_body_lookup: &RequestLookup,
) -> (r: Result<Vec<Route>, Error>)
    ensures
        r is Ok <==> pathitem_ok(
            schema_lookup@,
            response_lookup@,
            param_lookup@,
            req_body_lookup@,
            path@,
            *it,
        ),
        r matches Err(e) ==> (e matches Error::NoOperationId(m) ==> m@ == path@),
        r matches Ok(routes) ==> routes_of_item(
            schema_lookup@,
            response_lookup@,
            param_lookup@,
            req_body_lookup@,
            path@,
            *it,
            routes@,
        ),
{
    let ghost sl = schema_lookup@;
    let ghost rl = response_lookup@;
    let ghost pl = param_lookup@;
    let ghost bl = req_body_lookup@;
    let ops = collect_ops(it);
    let mut routes: Vec<Route> = Vec::new();
    let n = ops.len();
    let mut k: usize = 0;
    while k < n
        invariant
            k <= n,
            routes@.len() == k,
            forall|j: int| 0 <= j < k ==> slot_ok(sl, rl, pl, bl, path@, #[trigger] item_ops(*it)[j]),
            forall|j: int|
                0 <= j < k ==> route_of_slot(sl, rl, pl, bl, path@, item_ops(*it)[j], #[trigger] routes@[j])
                    && routes@[j].wf(),
        decreases n - k,
    {
        let entry = &ops[k];
        let route = match entry.0 {
            Verb::Wo(m) => {
                match Route::without_body(
                    path.as_str(),
                    m,
                    entry.1,
                    schema_lookup,
                    response_lookup,
                    param_lookup,
                ) {
                    Ok(rt) => rt,
                    Err(e) => {
                        proof {
                            assert(!slot_ok(sl, rl, pl, bl, path@, item_ops(*it)[k as int]));
                        }
                        return Err(e);
                    },
                }
            },
            Verb::Wb(m) => {
                match Route::with_body(
                    path.as_str(),
                    m,
                    entry.1,
                    schema_lookup,
                    response_lookup,
                    param_lookup,
                    req_body_lookup,
                ) {
                    Ok(rt) => rt,
                    Err(e) => {
                        proof {
                            assert(!slot_ok(sl, rl, pl, bl, path@, item_ops(*it)[k as int]));
                        }
                        return Err(e);
                    },
                }
            },
        };
        proof {
            assert(route_of_slot(sl, rl, pl, bl, path@, item_ops(*it)[k as int], route));
        }
        routes.push(route);
        k = k + 1;
    }
    Ok(routes)
}

/// Whether the whole paths section gathers: every path item is inline and
/// every operation under it validates.
pub open spec fn paths_ok(
    sl: Seq<(String, RefOr<Schema>)>,
    rl: Seq<(String, RefOr<crate::doc::Response>)>,
    pl: Seq<(String, RefOr<Parameter>)>,
    bl: Seq<(String, RefOr<RequestBody>)>,
    paths: Seq<(String, RefOr<PathItem>)>,
) -> bool {
    forall|i: int|
        0 <= i < paths.len() ==> ((#[trigger] paths[i]).1 matches RefOr::Item(it) && pathitem_ok(
            sl,
            rl,
            pl,
            bl,
            paths[i].0@,
            it,
        ))
}

/// Traverse the paths section and build the route table: one ordered route
/// list per path template, keyed by the template string.
#[verifier::loop_isolation(false)]
pub fn gather_routes(
    paths: &StringMap<RefOr<PathItem>>,
    schema_lookup: &SchemaLookup,
    response_lookup: &ResponseLookup,
    param_lookup: &ParametersLookup,
    req_body_lookup: &RequestLookup,
) -> (r: Result<StringMap<Vec<Route>>, Error>)
    requires
        paths.wf(),
    ensures
        r is Ok <==> paths_ok(
            schema_lookup@,
            response_lookup@,
            param_lookup@,
            req_body_lookup@,
            paths@,
        ),
        r matches Err(e) ==> (e matches Error::NoOperationId(m) ==> exists|i: int|
            0 <= i < paths@.len() && (#[trigger] paths@[i]).0@ == m@),
        r matches Ok(table) ==> {
            &&& table@.len() == paths@.len()
            &&& table.wf()
            &&& forall|i: int|
                0 <= i < paths@.len() ==> (#[trigger] table@[i]).0@ == paths@[i].0@ && (paths@[i].1
                    matches RefOr::Item(it) && routes_of_item(
                    schema_lookup@,
                    response_lookup@,
                    param_lookup@,
                    req_body_lookup@,
                    paths@[i].0@,
                    it,
                    table@[i].1@,
                ))
        },
{
    let ghost sl = schema_lookup@;
    let ghost rl = response_lookup@;
    let ghost pl = param_lookup@;
    let ghost bl = req_body_lookup@;
    let mut table: StringMap<Vec<Route>> = StringMap::new();
    let n = paths.len();
    let mut i: usize = 0;
    while i < n
        invariant
            i <= n,
            n == paths@.len(),
            table.wf(),
            table@.len() == i,
            forall|j: int|
                0 <= j < i ==> ((#[trigger] paths@[j]).1 matches RefOr::Item(it) && pathitem_ok(
                    sl,
                    rl,
                    pl,
                    bl,
                    paths@[j].0@,
                    it,
                )),
            forall|j: int|
                0 <= j < i ==> (#[trigger] table@[j]).0@ == paths@[j].0@ && (paths@[j].1
                    matches RefOr::Item(it) && routes_of_item(
                    sl,
                    rl,
                    pl,
                    bl,
                    paths@[j].0@,
                    it,
                    table@[j].1@,
                )),
        decreases n - i,
    {
        let entry = paths.entry_at(i);
        let pathitem = match unwrap_ref(&entry.1) {
            Ok(item) => item,
            Err(e) => {
                proof {
                    assert(!(paths@[i as int].1 is Item));
                }
                return Err(e);
            },
        };
        let pathroutes = match gather_item(
            &entry.0,
            pathitem,
            schema_lookup,
            response_lookup,
            param_lookup,
            req_body_lookup,
        ) {
            Ok(rs) => rs,
            Err(e) => {
                return Err(e);
            },
        };
        proof {
            assert(!table.spec_has(paths@[i as int].0@)) by {
                if table.spec_has(paths@[i as int].0@) {
                    let j = choose|j: int|
                        0 <= j < table@.len() && #[trigger] table@[j].0@ == paths@[i as int].0@;
                    assert(paths@[j].0@ == paths@[i as int].0@);
                }
            }
        }
        table.push(entry.0.clone(), pathroutes);
        i = i + 1;
    }
    Ok(table)
}

} // verus!