//! The compilation entry point: one validated semantic model, then five
//! text artifacts.
//!
//! The pipeline gathers the named type graph and the route table from the
//! parsed description, then emits the type definitions, the per-route
//! types, the service interface, the dispatchers, the server bootstrap and
//! the client, concatenated into one unit. A failure at any stage aborts
//! the whole run; there is no partial output.

use vstd::prelude::*;

verus! {

use crate::builder::components_built;
use crate::builder::components_ok;
use crate::builder::gather_component_types;
use crate::builder::TypeMap;
use crate::doc::ApiDocument;
use crate::doc::Parameter;
use crate::doc::PathItem;
use crate::doc::RefOr;
use crate::doc::RequestBody;
use crate::doc::Response;
use crate::doc::Schema;
use crate::emit::generate_rust_client;
use crate::emit::generate_rust_component_types;
use crate::emit::generate_rust_dispatchers;
use crate::emit::generate_rust_interface;
use crate::emit::generate_rust_route_types;
use crate::emit::generate_rust_server;
use crate::emit::escape_str;
use crate::emit::spec_client;
use crate::emit::spec_component_types;
use crate::emit::spec_dispatchers;
use crate::emit::spec_escaped;
use crate::emit::spec_interface;
use crate::emit::spec_route_types;
use crate::emit::spec_server;
use crate::error::Error;
use crate::ir::StructOrType;
use crate::names::camel_of;
use crate::names::to_camel;
use crate::names::TypeName;
use crate::routes::gather_routes;
use crate::routes::paths_ok;
use crate::routes::Route;
use crate::routes::item_ops;
use crate::routes::OpSlot;
use crate::routes::routes_of_item;
use crate::builder::distinct_seq;
use crate::names::snake_of;

/// The name of the generated interface trait: the camel-cased title,
/// suffixed.
pub open spec fn trait_name_text(title: Seq<char>) -> Seq<char> {
    camel_of(title) + "Api"@
}

/// Name the generated interface after the description's title. The name
/// must come out in capitalized-word-joined form.
pub fn api_trait_name(title: &str) -> (r: Result<TypeName, Error>)
    ensures
        r is Ok <==> trait_name_text(title@) == camel_of(trait_name_text(title@)),
        r matches Ok(t) ==> t@ == trait_name_text(title@) && t.wf(),
        r matches Err(e) ==> (e matches Error::BadTypeName(m) && m@ == trait_name_text(title@)),
{
    let mut name = to_camel(title);
    name.append("Api");
    TypeName::new(name)
}

/// The fixed head of the output: the embedded description, the ui
/// template, and the import prelude of the generated module.
pub open spec fn spec_prelude(json_spec: Seq<char>, ui: Seq<char>) -> Seq<char> {
    "#[allow(dead_code)]\nconst JSON_SPEC: &'static str = \""@ + spec_escaped(json_spec)
        + "\";\nconst UI_TEMPLATE: &'static str = \""@ + spec_escaped(ui) + "\";\n"@
        + "mod __imports {\n    pub use hsr::{HasStatusCode, Void};\n    pub use hsr::actix_web::{\n        self, App, HttpServer, HttpRequest, HttpResponse, Responder, Either as AxEither,\n        web::{self, Json as AxJson, Query as AxQuery, Path as AxPath, Data as AxData, ServiceConfig},\n        middleware::Logger\n    };\n    pub use hsr::url::Url;\n    pub use hsr::actix_http::http::StatusCode;\n    pub use hsr::futures::future::{Future, FutureExt, TryFutureExt, Ready, ok as fut_ok};\n    pub use hsr::{Serialize, Deserialize};\n}\n#[allow(dead_code)]\nuse __imports::*;\n"@
}

/// The whole output for a gathered type map and route table.
pub open spec fn spec_output(
    tm: Seq<(TypeName, StructOrType)>,
    table: Seq<(String, Vec<Route>)>,
    title: Seq<char>,
    tn: Seq<char>,
    json_spec: Seq<char>,
    ui: Seq<char>,
) -> Seq<char> {
    spec_prelude(json_spec, ui) + spec_component_types(tm) + spec_route_types(table)
        + spec_interface(table, title, tn) + spec_dispatchers(table, tn) + spec_server(table, tn)
        + spec_client(table, tn)
}

/// What the gathered route table holds, entry by entry.
pub open spec fn table_built(
    sl: Seq<(String, RefOr<Schema>)>,
    rl: Seq<(String, RefOr<Response>)>,
    pl: Seq<(String, RefOr<Parameter>)>,
    bl: Seq<(String, RefOr<RequestBody>)>,
    paths: Seq<(String, RefOr<PathItem>)>,
    table: Seq<(String, Vec<Route>)>,
) -> bool {
    &&& table.len() == paths.len()
    &&& forall|i: int|
        0 <= i < paths.len() ==> (#[trigger] table[i]).0@ == paths[i].0@ && (paths[i].1
            matches RefOr::Item(it) && routes_of_item(sl, rl, pl, bl, paths[i].0@, it, table[i].1@))
}

/// Compile one parsed description into the concatenated text artifacts.
///
/// Succeeds exactly when the title names the interface cleanly, every
/// component schema builds, and every declared operation validates.
pub fn generate(doc: &ApiDocument, json_spec: &str, ui_template: &str) -> (r: Result<String, Error>)
    requires
        doc.paths.wf(),
    ensures
        r is Ok <==> {
            &&& trait_name_text(doc.title@) == camel_of(trait_name_text(doc.title@))
            &&& components_ok(doc.schemas@)
            &&& paths_ok(doc.schemas@, doc.responses@, doc.parameters@, doc.request_bodies@, doc.paths@)
            &&& distinct_seq(doc_op_ids(doc.paths@))
        },
        r matches Err(e) ==> (e matches Error::NoOperationId(m) ==> exists|i: int|
            0 <= i < doc.paths@.len() && (#[trigger] doc.paths@[i]).0@ == m@),
        r matches Ok(code) ==> exists|tm: Seq<(TypeName, StructOrType)>, table: Seq<(String, Vec<Route>)>|
            {
                &&& #[trigger] components_built(doc.schemas@, tm)
                &&& #[trigger] table_built(
                    doc.schemas@,
                    doc.responses@,
                    doc.parameters@,
                    doc.request_bodies@,
                    doc.paths@,
                    table,
                )
                &&& code@ == spec_output(
                    tm,
                    table,
                    doc.title@,
                    trait_name_text(doc.title@),
                    json_spec@,
                    ui_template@,
                )
            },
{
    let trait_name = match api_trait_name(doc.title.as_str()) {
        Ok(t) => t,
        Err(e) => {
            return Err(e);
        },
    };
    let typs = match gather_component_types(&doc.schemas) {
        Ok(tm) => tm,
        Err(e) => {
            return Err(e);
        },
    };
    let table = match gather_routes(
        &doc.paths,
        &doc.schemas,
        &doc.responses,
        &doc.parameters,
        &doc.request_bodies,
    ) {
        Ok(t) => t,
        Err(e) => {
            return Err(e);
        },
    };
    proof {
        lemma_ids_match(
            doc.schemas@,
            doc.responses@,
            doc.parameters@,
            doc.request_bodies@,
            doc.paths@,
            table@,
        );
    }
    match check_unique_op_ids(&table) {
        Some(name) => {
            return Err(Error::DuplicateName(name));
        },
        None => {},
    }
    let mut code = String::from_str("#[allow(dead_code)]\nconst JSON_SPEC: &'static str = \"");
    code.append(escape_str(json_spec).as_str());
    code.append("\";\nconst UI_TEMPLATE: &'static str = \"");
    code.append(escape_str(ui_template).as_str());
    code.append("\";\n");
    code.append("mod __imports {\n    pub use hsr::{HasStatusCode, Void};\n    pub use hsr::actix_web::{\n        self, App, HttpServer, HttpRequest, HttpResponse, Responder, Either as AxEither,\n        web::{self, Json as AxJson, Query as AxQuery, Path as AxPath, Data as AxData, ServiceConfig},\n        middleware::Logger\n    };\n    pub use hsr::url::Url;\n    pub use hsr::actix_http::http::StatusCode;\n    pub use hsr::futures::future::{Future, FutureExt, TryFutureExt, Ready, ok as fut_ok};\n    pub use hsr::{Serialize, Deserialize};\n}\n#[allow(dead_code)]\nuse __imports::*;\n");
    proof {
        assert(code@ =~= spec_prelude(json_spec@, ui_template@));
    }
    code.append(generate_rust_component_types(&typs).as_str());
    code.append(generate_rust_route_types(&table).as_str());
    code.append(generate_rust_interface(&table, doc.title.as_str(), &trait_name).as_str());
    code.append(generate_rust_dispatchers(&table, &trait_name).as_str());
    code.append(generate_rust_server(&table, &trait_name).as_str());
    code.append(generate_rust_client(&table, &trait_name).as_str());
    proof {
        assert(code@ =~= spec_output(
            typs@,
            table@,
            doc.title@,
            trait_name_text(doc.title@),
            json_spec@,
            ui_template@,
        ));
        assert(components_built(doc.schemas@, typs@));
        assert(table_built(
            doc.schemas@,
            doc.responses@,
            doc.parameters@,
            doc.request_bodies@,
            doc.paths@,
            table@,
        ));
    }
    Ok(code)
}

/// The canonical identifier a slot's operation declares, or nothing.
pub open spec fn slot_id_text(slot: OpSlot) -> Seq<char> {
    match slot {
        OpSlot::Bodyless(_, op) => match op.operation_id {
            Some(oid) => snake_of(oid@),
            None => Seq::empty(),
        },
        OpSlot::Bodied(_, op) => match op.operation_id {
            Some(oid) => snake_of(oid@),
            None => Seq::empty(),
        },
    }
}

/// The canonical operation identifiers one path item declares, in order.
pub open spec fn item_op_ids(it: PathItem) -> Seq<Seq<char>> {
    item_ops(it).map_values(|s: OpSlot| slot_id_text(s))
}

/// The canonical operation identifiers the whole description declares, in
/// order.
pub open spec fn doc_op_ids(paths: Seq<(String, RefOr<PathItem>)>) -> Seq<Seq<char>>
    decreases paths.len(),
{
    if paths.len() == 0 {
        Seq::empty()
    } else {
        (match paths[0].1 {
            RefOr::Item(it) => item_op_ids(it),
            RefOr::Reference(_) => Seq::empty(),
        }) + doc_op_ids(paths.drop_first())
    }
}

/// The operation identifiers of a route list.
pub open spec fn route_ids(routes: Seq<Route>) -> Seq<Seq<char>> {
    routes.map_values(|rt: Route| rt.operation_id@)
}

/// The operation identifiers of the whole route table, in order.
pub open spec fn table_op_ids(table: Seq<(String, Vec<Route>)>) -> Seq<Seq<char>>
    decreases table.len(),
{
    if table.len() == 0 {
        Seq::empty()
    } else {
        route_ids(table[0].1@) + table_op_ids(table.drop_first())
    }
}

/// A gathered table carries exactly the identifiers the description
/// declares.
proof fn lemma_ids_match(
    sl: Seq<(String, RefOr<Schema>)>,
    rl: Seq<(String, RefOr<Response>)>,
    pl: Seq<(String, RefOr<Parameter>)>,
    bl: Seq<(String, RefOr<RequestBody>)>,
    paths: Seq<(String, RefOr<PathItem>)>,
    table: Seq<(String, Vec<Route>)>,
)
    requires
        table_built(sl, rl, pl, bl, paths, table),
    ensures
        table_op_ids(table) == doc_op_ids(paths),
    decreases paths.len(),
{
    if paths.len() == 0 {
    } else {
        match paths[0].1 {
            RefOr::Item(it) => {
                assert(routes_of_item(sl, rl, pl, bl, paths[0].0@, it, table[0].1@));
                assert forall|k: int|
                    0 <= k < table[0].1@.len() implies (#[trigger] route_ids(table[0].1@)[k])
                    == item_op_ids(it)[k] by {
                    assert(crate::routes::route_of_slot(
                        sl,
                        rl,
                        pl,
                        bl,
                        paths[0].0@,
                        item_ops(it)[k],
                        table[0].1@[k],
                    ));
                }
                assert(route_ids(table[0].1@) =~= item_op_ids(it));
            },
            RefOr::Reference(_) => {
                assert(false);
            },
        }
        assert(table_built(sl, rl, pl, bl, paths.drop_first(), table.drop_first())) by {
            assert forall|i: int|
                0 <= i < paths.drop_first().len() implies (#[trigger] table.drop_first()[i]).0@
                == paths.drop_first()[i].0@ && (paths.drop_first()[i].1 matches RefOr::Item(it)
                && routes_of_item(
                sl,
                rl,
                pl,
                bl,
                paths.drop_first()[i].0@,
                it,
                table.drop_first()[i].1@,
            )) by {
                assert(table.drop_first()[i] == table[i + 1]);
                assert(paths.drop_first()[i] == paths[i + 1]);
            }
        }
        lemma_ids_match(sl, rl, pl, bl, paths.drop_first(), table.drop_first());
        assert(table_op_ids(table) =~= doc_op_ids(paths));
    }
}

/// Appending one table entry appends its route identifiers.
proof fn lemma_table_op_ids_push(table: Seq<(String, Vec<Route>)>, x: (String, Vec<Route>))
    ensures
        table_op_ids(table.push(x)) == table_op_ids(table) + route_ids(x.1@),
    decreases table.len(),
{
    let p = table.push(x);
    assert(p[0] == if table.len() == 0 {
        x
    } else {
        table[0]
    });
    if table.len() == 0 {
        assert(p.drop_first() =~= Seq::<(String, Vec<Route>)>::empty());
        assert(table_op_ids(p.drop_first()) == Seq::<Seq<char>>::empty());
        assert(route_ids(x.1@) + Seq::<Seq<char>>::empty() =~= table_op_ids(table) + route_ids(
            x.1@,
        ));
    } else {
        assert(p.drop_first() =~= table.drop_first().push(x));
        lemma_table_op_ids_push(table.drop_first(), x);
        assert(route_ids(table[0].1@) + (table_op_ids(table.drop_first()) + route_ids(x.1@)) =~= (
        route_ids(table[0].1@) + table_op_ids(table.drop_first())) + route_ids(x.1@));
    }
}

/// Whether a run of owned strings is pairwise distinct by characters.
pub open spec fn strings_distinct(ids: Seq<String>) -> bool {
    forall|i: int, j: int| 0 <= i < j < ids.len() ==> (#[trigger] ids[i]@) != (#[trigger] ids[j]@)
}

/// Scan a string list for a duplicate.
#[verifier::loop_isolation(false)]
fn find_duplicate(ids: &Vec<String>) -> (r: Option<String>)
    ensures
        r is None <==> strings_distinct(ids@),
{
    let n = ids.len();
    let mut i: usize = 0;
    while i < n
        invariant
            i <= n,
            forall|a: int, b: int| 0 <= a < b < n && a < i ==> (#[trigger] ids@[a]@) != (#[trigger] ids@[b]@),
        decreases n - i,
    {
        let mut j: usize = i + 1;
        while j < n
            invariant
                i < j <= n,
                forall|b: int| i < b < j ==> (#[trigger] ids@[b]@) != ids@[i as int]@,
            decreases n - j,
        {
            if ids[i] == ids[j] {
                return Some(ids[i].clone());
            }
            j = j + 1;
        }
        i = i + 1;
    }
    None
}

/// Collect every operation identifier of the table, in order.
#[verifier::loop_isolation(false)]
fn collect_op_ids(table: &crate::omap::StringMap<Vec<Route>>) -> (r: Vec<String>)
    ensures
        r@.len() == table_op_ids(table@).len(),
        forall|k: int| 0 <= k < r@.len() ==> (#[trigger] r@[k]@) == table_op_ids(table@)[k],
{
    let mut ids: Vec<String> = Vec::new();
    let n = table.len();
    let mut i: usize = 0;
    proof {
        assert(table@.take(0) =~= Seq::<(String, Vec<Route>)>::empty());
    }
    while i < n
        invariant
            i <= n,
            n == table@.len(),
            ids@.len() == table_op_ids(table@.take(i as int)).len(),
            forall|k: int|
                0 <= k < ids@.len() ==> (#[trigger] ids@[k]@) == table_op_ids(table@.take(i as int))[k],
        decreases n - i,
    {
        proof {
            assert(table@.take(i + 1) =~= table@.take(i as int).push(table@[i as int]));
            lemma_table_op_ids_push(table@.take(i as int), table@[i as int]);
        }
        let entry = table.entry_at(i);
        let rts = &entry.1;
        let m = rts.len();
        let mut j: usize = 0;
        let ghost base = table_op_ids(table@.take(i as int));
        while j < m
            invariant
                j <= m,
                m == rts@.len(),
                ids@.len() == base.len() + j,
                forall|k: int| 0 <= k < base.len() ==> (#[trigger] ids@[k]@) == base[k],
                forall|k: int|
                    base.len() <= k < ids@.len() ==> (#[trigger] ids@[k]@) == route_ids(rts@)[
                    k - base.len()],
            decreases m - j,
        {
            ids.push(rts[j].operation_id.to_string());
            j = j + 1;
        }
        proof {
            assert forall|k: int|
                0 <= k < ids@.len() implies (#[trigger] ids@[k]@) == table_op_ids(
                table@.take(i + 1),
            )[k] by {
                if k < base.len() {
                } else {
                    assert(ids@[k]@ == route_ids(rts@)[k - base.len()]);
                }
            }
        }
        i = i + 1;
    }
    proof {
        assert(table@.take(n as int) =~= table@);
    }
    ids
}

/// Check that the operation identifier of every route is unique across the
/// whole table, and hand back an offender when not.
pub fn check_unique_op_ids(table: &crate::omap::StringMap<Vec<Route>>) -> (r: Option<String>)
    ensures
        r is None <==> distinct_seq(table_op_ids(table@)),
{
    let ids = collect_op_ids(table);
    let dup = find_duplicate(&ids);
    proof {
        let tids = table_op_ids(table@);
        if strings_distinct(ids@) {
            assert forall|a: int, b: int| 0 <= a < b < tids.len() implies tids[a] != tids[b] by {
                assert(ids@[a]@ == tids[a]);
                assert(ids@[b]@ == tids[b]);
            }
        }
        if distinct_seq(tids) {
            assert forall|a: int, b: int|
                0 <= a < b < ids@.len() implies (#[trigger] ids@[a]@) != (#[trigger] ids@[b]@) by {
                assert(ids@[a]@ == tids[a]);
                assert(ids@[b]@ == tids[b]);
            }
        }
    }
    dup
}

} // verus!
