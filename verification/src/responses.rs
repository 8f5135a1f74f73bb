//! Response classification.
//!
//! A response table yields exactly one success response, with its status
//! code in the closed range 200 to 300, and zero or more error responses
//! with codes in the closed range 400 to 500; anything else, or more than
//! one success code, is a generation-time error. A response body is either
//! absent or exactly one `application/json` payload.

use vstd::prelude::*;

verus! {

use crate::builder::build_type;
use crate::builder::built_ty;
use crate::builder::spec_build_ok;
use crate::builder::yields_struct;
use crate::doc::MediaType;
use crate::doc::RefOr;
use crate::doc::Response;
use crate::doc::ResponseLookup;
use crate::doc::Responses;
use crate::doc::Schema;
use crate::doc::SchemaLookup;
use crate::doc::StatusCodeKey;
use crate::error::Error;
use crate::ir::Type;
use crate::ir::type_wf;
use crate::names::TypeName;
use crate::refs::dereference;
use crate::refs::spec_deref;
use crate::status::error_variant_from_status_code;
use crate::status::spec_error_variant;

/// The codes accepted as the success response.
pub open spec fn code_is_success(c: u16) -> bool {
    200 <= c <= 300
}

/// The codes accepted as error variants.
pub open spec fn code_is_error(c: u16) -> bool {
    400 <= c <= 500
}

/// A content table carrying exactly one JSON payload with a schema.
pub open spec fn json_content_ok(content: Seq<(String, MediaType)>) -> bool {
    content.len() == 1 && content[0].0@ == "application/json"@ && content[0].1.schema is Some
}

/// Whether a response reference yields a usable body: it dereferences, has
/// no headers or links, and its content is empty or one JSON payload whose
/// schema builds to a non-struct type.
pub open spec fn response_type_ok(
    rl: Seq<(String, RefOr<Response>)>,
    sl: Seq<(String, RefOr<Schema>)>,
    node: RefOr<Response>,
) -> bool {
    match spec_deref(rl, node, "responses"@) {
        None => false,
        Some(resp) => !resp.has_headers && !resp.has_links && (resp.content@.len() == 0 || (
        json_content_ok(resp.content@) && (resp.content@[0].1.schema matches Some(sn)
            && spec_build_ok(sl, sn) && !yields_struct(sn)))),
    }
}

/// What the body type of a response is: nothing for an empty content
/// table, else the built JSON schema type.
pub open spec fn response_type_of(
    rl: Seq<(String, RefOr<Response>)>,
    sl: Seq<(String, RefOr<Schema>)>,
    node: RefOr<Response>,
    t: Option<Type>,
) -> bool {
    match spec_deref(rl, node, "responses"@) {
        None => false,
        Some(resp) => if resp.content@.len() == 0 {
            t is None
        } else {
            match resp.content@[0].1.schema {
                Some(sn) => t matches Some(ty) && built_ty(sl, sn, ty),
                None => false,
            }
        },
    }
}

/// Build the body type of one response reference.
pub fn get_type_of_response(
    ref_or_resp: &RefOr<Response>,
    response_lookup: &ResponseLookup,
    schema_lookup: &SchemaLookup,
) -> (r: Result<Option<Type>, Error>)
    ensures
        r is Ok <==> response_type_ok(response_lookup@, schema_lookup@, *ref_or_resp),
        r matches Ok(t) ==> response_type_of(response_lookup@, schema_lookup@, *ref_or_resp, t) && (
        t matches Some(ty) ==> type_wf(ty)),
        r matches Err(e) ==> !(e is NoOperationId),
        (match spec_deref(response_lookup@, *ref_or_resp, "responses"@) {
            None => r matches Err(e) && (e matches Error::BadReference(m) && (ref_or_resp
                matches RefOr::Reference(s) && m@ == s@)),
            Some(resp) => if resp.has_headers {
                r matches Err(e) && (e matches Error::Todo(m) && m@
                    == "response headers not supported"@)
            } else if resp.has_links {
                r matches Err(e) && (e matches Error::Todo(m) && m@
                    == "response links not supported"@)
            } else if resp.content@.len() == 0 {
                true
            } else if !(resp.content@.len() == 1 && resp.content@[0].0@ == "application/json"@) {
                r matches Err(e) && (e matches Error::Todo(m) && m@
                    == "content type must be 'application/json'"@)
            } else if resp.content@[0].1.schema is None {
                r matches Err(e) && (e matches Error::Todo(m) && m@
                    == "media type does not contain schema"@)
            } else {
                (match resp.content@[0].1.schema {
                    Some(sn) => spec_build_ok(schema_lookup@, sn) && yields_struct(sn) ==> (r
                        matches Err(e) && e is NotStructurallyTyped),
                    None => true,
                })
            },
        }),
{
    let ghost rl = response_lookup@;
    let ghost sl = schema_lookup@;
    let resp = match dereference(ref_or_resp, response_lookup, "responses") {
        Ok(resp) => resp,
        Err(e) => {
            return Err(e);
        },
    };
    if resp.has_headers {
        return Err(Error::Todo(String::from_str("response headers not supported")));
    }
    if resp.has_links {
        return Err(Error::Todo(String::from_str("response links not supported")));
    }
    let clen = resp.content.len();
    if clen == 0 {
        return Ok(None);
    }
    if clen != 1 {
        return Err(Error::Todo(String::from_str("content type must be 'application/json'")));
    }
    let entry = resp.content.entry_at(0);
    let json_key = String::from_str("application/json");
    if !(entry.0 == json_key) {
        return Err(Error::Todo(String::from_str("content type must be 'application/json'")));
    }
    let node = match &entry.1.schema {
        Some(node) => node,
        None => {
            return Err(Error::Todo(String::from_str("media type does not contain schema")));
        },
    };
    let sot = match build_type(node, schema_lookup) {
        Ok(s) => s,
        Err(e) => {
            return Err(e);
        },
    };
    proof {
        crate::builder::lemma_built_shape(sl, resp.content@[0].1.schema->Some_0, sot);
    }
    let ghost sot_snap = sot;
    match sot.discard_struct() {
        Ok(t) => {
            proof {
                assert(crate::ir::StructOrType {
                    meta: t.meta,
                    inner: crate::ir::StructOrInner::Typ(t.typ),
                } == sot_snap);
            }
            Ok(Some(t))
        },
        Err(e) => Err(e),
    }
}

/// Whether one response-table entry is acceptable: a concrete code in one
/// of the two ranges, a usable body, and (for an error code) a nameable
/// variant.
pub open spec fn entry_ok(
    rl: Seq<(String, RefOr<Response>)>,
    sl: Seq<(String, RefOr<Schema>)>,
    e: (StatusCodeKey, RefOr<Response>),
) -> bool {
    &&& e.0 matches StatusCodeKey::Code(c) && (code_is_success(c) || code_is_error(c)) && (
    code_is_error(c) ==> spec_error_variant(c) is Some)
    &&& response_type_ok(rl, sl, e.1)
}

/// How many entries carry a success code.
pub open spec fn count_success(entries: Seq<(StatusCodeKey, RefOr<Response>)>) -> nat
    decreases entries.len(),
{
    if entries.len() == 0 {
        0
    } else {
        (if entries[0].0 matches StatusCodeKey::Code(c) && code_is_success(c) {
            1nat
        } else {
            0nat
        }) + count_success(entries.drop_first())
    }
}

/// The first success-coded entry, if any.
pub open spec fn success_entry(entries: Seq<(StatusCodeKey, RefOr<Response>)>) -> Option<
    (u16, RefOr<Response>),
>
    decreases entries.len(),
{
    if entries.len() == 0 {
        None
    } else if entries[0].0 matches StatusCodeKey::Code(c) && code_is_success(c) {
        match entries[0].0 {
            StatusCodeKey::Code(c) => Some((c, entries[0].1)),
            StatusCodeKey::Range(_) => None,
        }
    } else {
        success_entry(entries.drop_first())
    }
}

/// The error-coded entries, in declared order.
pub open spec fn error_entries(entries: Seq<(StatusCodeKey, RefOr<Response>)>) -> Seq<
    (u16, RefOr<Response>),
>
    decreases entries.len(),
{
    if entries.len() == 0 {
        Seq::empty()
    } else {
        let rest = error_entries(entries.drop_first());
        match entries[0].0 {
            StatusCodeKey::Code(c) => if code_is_error(c) {
                seq![(c, entries[0].1)] + rest
            } else {
                rest
            },
            StatusCodeKey::Range(_) => rest,
        }
    }
}

/// Whether a whole response table classifies: no default response, every
/// entry acceptable, and exactly one success code.
pub open spec fn responses_ok(
    rl: Seq<(String, RefOr<Response>)>,
    sl: Seq<(String, RefOr<Schema>)>,
    resps: Responses,
) -> bool {
    &&& !resps.has_default
    &&& forall|i: int| 0 <= i < resps.responses@.len() ==> entry_ok(rl, sl, #[trigger] resps.responses@[i])
    &&& count_success(resps.responses@) == 1
}

/// Appending an entry extends the success count, the first success and the
/// error list in the evident way.
proof fn lemma_classify_push(
    entries: Seq<(StatusCodeKey, RefOr<Response>)>,
    x: (StatusCodeKey, RefOr<Response>),
)
    ensures
        count_success(entries.push(x)) == count_success(entries) + (
        if x.0 matches StatusCodeKey::Code(c) && code_is_success(c) {
            1nat
        } else {
            0nat
        }),
        success_entry(entries.push(x)) == (if success_entry(entries) is Some {
            success_entry(entries)
        } else {
            match x.0 {
                StatusCodeKey::Code(c) => if code_is_success(c) {
                    Some((c, x.1))
                } else {
                    None
                },
                StatusCodeKey::Range(_) => None,
            }
        }),
        error_entries(entries.push(x)) == error_entries(entries) + (match x.0 {
            StatusCodeKey::Code(c) => if code_is_error(c) {
                seq![(c, x.1)]
            } else {
                Seq::empty()
            },
            StatusCodeKey::Range(_) => Seq::empty(),
        }),
    decreases entries.len(),
{
    let p = entries.push(x);
    assert(p[0] == if entries.len() == 0 {
        x
    } else {
        entries[0]
    });
    let tailpiece = (match x.0 {
        StatusCodeKey::Code(c) => if code_is_error(c) {
            seq![(c, x.1)]
        } else {
            Seq::<(u16, RefOr<Response>)>::empty()
        },
        StatusCodeKey::Range(_) => Seq::<(u16, RefOr<Response>)>::empty(),
    });
    if entries.len() == 0 {
        assert(p.drop_first() =~= Seq::<(StatusCodeKey, RefOr<Response>)>::empty());
        assert(error_entries(Seq::<(StatusCodeKey, RefOr<Response>)>::empty()) =~= Seq::<
            (u16, RefOr<Response>),
        >::empty());
        assert(count_success(Seq::<(StatusCodeKey, RefOr<Response>)>::empty()) == 0);
        assert(success_entry(Seq::<(StatusCodeKey, RefOr<Response>)>::empty()) is None);
        assert(error_entries(p) =~= error_entries(entries) + tailpiece);
        assert(count_success(p) == count_success(entries) + (
        if x.0 matches StatusCodeKey::Code(c) && code_is_success(c) {
            1nat
        } else {
            0nat
        }));
    } else {
        assert(p.drop_first() =~= entries.drop_first().push(x));
        lemma_classify_push(entries.drop_first(), x);
        match entries[0].0 {
            StatusCodeKey::Code(c) => {
                if code_is_error(c) {
                    assert(seq![(c, entries[0].1)] + (error_entries(entries.drop_first())
                        + tailpiece) =~= (seq![(c, entries[0].1)] + error_entries(
                        entries.drop_first(),
                    )) + tailpiece);
                }
            },
            StatusCodeKey::Range(_) => {},
        }
        assert(error_entries(p) =~= error_entries(entries) + tailpiece);
        assert(count_success(p) == count_success(entries) + (
        if x.0 matches StatusCodeKey::Code(c) && code_is_success(c) {
            1nat
        } else {
            0nat
        }));
    }
}

/// A table with two success-coded entries counts at least two successes.
proof fn lemma_two_successes(entries: Seq<(StatusCodeKey, RefOr<Response>)>, i: int, j: int)
    requires
        0 <= i < j < entries.len(),
        entries[i].0 matches StatusCodeKey::Code(ci) && code_is_success(ci),
        entries[j].0 matches StatusCodeKey::Code(cj) && code_is_success(cj),
    ensures
        count_success(entries) >= 2,
    decreases entries.len(),
{
    if i == 0 {
        lemma_one_success(entries.drop_first(), j - 1);
        assert(entries.drop_first()[j - 1] == entries[j]);
    } else {
        assert(entries.drop_first()[i - 1] == entries[i]);
        assert(entries.drop_first()[j - 1] == entries[j]);
        lemma_two_successes(entries.drop_first(), i - 1, j - 1);
    }
}

/// A table with a success-coded entry counts at least one success.
proof fn lemma_one_success(entries: Seq<(StatusCodeKey, RefOr<Response>)>, i: int)
    requires
        0 <= i < entries.len(),
        entries[i].0 matches StatusCodeKey::Code(c) && code_is_success(c),
    ensures
        count_success(entries) >= 1,
    decreases entries.len(),
{
    if i > 0 {
        assert(entries.drop_first()[i - 1] == entries[i]);
        lemma_one_success(entries.drop_first(), i - 1);
    }
}

/// A response table declaring two success codes never classifies: the
/// model supports exactly one success response.
pub proof fn lemma_two_successes_rejected(
    rl: Seq<(String, RefOr<Response>)>,
    sl: Seq<(String, RefOr<Schema>)>,
    resps: Responses,
    i: int,
    j: int,
)
    requires
        0 <= i < j < resps.responses@.len(),
        resps.responses@[i].0 matches StatusCodeKey::Code(ci) && code_is_success(ci),
        resps.responses@[j].0 matches StatusCodeKey::Code(cj) && code_is_success(cj),
    ensures
        !responses_ok(rl, sl, resps),
{
    lemma_two_successes(resps.responses@, i, j);
}

/// A response table declaring a code outside both supported ranges (a
/// redirect, say) never classifies.
pub proof fn lemma_out_of_range_code_rejected(
    rl: Seq<(String, RefOr<Response>)>,
    sl: Seq<(String, RefOr<Schema>)>,
    resps: Responses,
    i: int,
)
    requires
        0 <= i < resps.responses@.len(),
        resps.responses@[i].0 matches StatusCodeKey::Code(c) && !code_is_success(c)
            && !code_is_error(c),
    ensures
        !responses_ok(rl, sl, resps),
{
    assert(!entry_ok(rl, sl, resps.responses@[i]));
}

/// Classify a response table into exactly one success response and the
/// ordered error variants, each error named from its canonical reason
/// phrase.
#[verifier::loop_isolation(false)]
pub fn classify_responses(
    resps: &Responses,
    response_lookup: &ResponseLookup,
    schema_lookup: &SchemaLookup,
) -> (r: Result<((u16, Option<Type>), Vec<(u16, Option<Type>, TypeName)>), Error>)
    ensures
        r is Ok <==> responses_ok(response_lookup@, schema_lookup@, *resps),
        r matches Err(e) ==> !(e is NoOperationId),
        resps.has_default ==> (r matches Err(e) && (e matches Error::Todo(m) && m@
            == "default responses not supported"@)),
        forall|j: int|
            (!resps.has_default && 0 <= j < resps.responses@.len() && (forall|i: int|
                0 <= i < j ==> entry_ok(response_lookup@, schema_lookup@, #[trigger] resps.responses@[i]))
                && count_success(resps.responses@.take(j)) <= 1 && (#[trigger] resps.responses@[j]).0
                matches StatusCodeKey::Range(_)) ==> (r matches Err(e) && (e
                matches Error::BadStatusCode(c2) && resps.responses@[j].0 == StatusCodeKey::Range(
                c2,
            ))),
        forall|j: int|
            (!resps.has_default && 0 <= j < resps.responses@.len() && (forall|i: int|
                0 <= i < j ==> entry_ok(response_lookup@, schema_lookup@, #[trigger] resps.responses@[i]))
                && count_success(resps.responses@.take(j)) <= 1 && ((#[trigger] resps.responses@[j]).0
                matches StatusCodeKey::Code(c) && response_type_ok(
                response_lookup@,
                schema_lookup@,
                resps.responses@[j].1,
            ) && !code_is_success(c) && !code_is_error(c))) ==> (r matches Err(e) && (e
                matches Error::BadStatusCode(c2) && resps.responses@[j].0 == StatusCodeKey::Code(
                c2,
            ))),
        forall|j: int|
            (!resps.has_default && 0 <= j < resps.responses@.len() && (forall|i: int|
                0 <= i < j ==> entry_ok(response_lookup@, schema_lookup@, #[trigger] resps.responses@[i]))
                && count_success(resps.responses@.take(j)) == 1 && ((#[trigger] resps.responses@[j]).0
                matches StatusCodeKey::Code(c) && response_type_ok(
                response_lookup@,
                schema_lookup@,
                resps.responses@[j].1,
            ) && code_is_success(c))) ==> (r matches Err(e) && (e matches Error::Todo(m) && m@
                == "more than one success code"@)),
        (!resps.has_default && (forall|i: int|
            0 <= i < resps.responses@.len() ==> entry_ok(
                response_lookup@,
                schema_lookup@,
                #[trigger] resps.responses@[i],
            )) && count_success(resps.responses@) == 0) ==> (r matches Err(e) && (e
            matches Error::Todo(m) && m@ == "no success code specified"@)),
        r matches Ok(p) ==> {
            &&& (success_entry(resps.responses@) matches Some(se) && p.0.0 == se.0
                && code_is_success(se.0) && response_type_of(
                response_lookup@,
                schema_lookup@,
                se.1,
                p.0.1,
            ))
            &&& (p.0.1 matches Some(ty) ==> type_wf(ty))
            &&& p.1@.len() == error_entries(resps.responses@).len()
            &&& forall|k: int|
                0 <= k < p.1@.len() ==> {
                    let ee = error_entries(resps.responses@)[k];
                    let out = #[trigger] p.1@[k];
                    out.0 == ee.0 && code_is_error(ee.0) && response_type_of(
                        response_lookup@,
                        schema_lookup@,
                        ee.1,
                        out.1,
                    ) && Some(out.2@) == spec_error_variant(ee.0) && out.2.wf() && (out.1
                        matches Some(ty) ==> type_wf(ty))
                }
        },
{
    let ghost rl = response_lookup@;
    let ghost sl = schema_lookup@;
    if resps.has_default {
        return Err(Error::Todo(String::from_str("default responses not supported")));
    }
    let mut success: Option<(u16, Option<Type>)> = None;
    let mut errors: Vec<(u16, Option<Type>, TypeName)> = Vec::new();
    let n = resps.responses.len();
    let mut i: usize = 0;
    proof {
        assert(resps.responses@.take(0) =~= Seq::<(StatusCodeKey, RefOr<Response>)>::empty());
        assert(count_success(Seq::<(StatusCodeKey, RefOr<Response>)>::empty()) == 0);
        assert(success_entry(Seq::<(StatusCodeKey, RefOr<Response>)>::empty()) is None);
        assert(error_entries(Seq::<(StatusCodeKey, RefOr<Response>)>::empty()) =~= Seq::<
            (u16, RefOr<Response>),
        >::empty());
    }
    while i < n
        invariant
            i <= n,
            n == resps.responses@.len(),
            forall|k: int| 0 <= k < i ==> entry_ok(rl, sl, #[trigger] resps.responses@[k]),
            success is None ==> count_success(resps.responses@.take(i as int)) == 0
                && success_entry(resps.responses@.take(i as int)) is None,
            success matches Some(s) ==> count_success(resps.responses@.take(i as int)) == 1 && (
            success_entry(resps.responses@.take(i as int)) matches Some(se) && s.0 == se.0
                && code_is_success(se.0) && response_type_of(rl, sl, se.1, s.1) && (s.1
                matches Some(ty) ==> type_wf(ty))),
            errors@.len() == error_entries(resps.responses@.take(i as int)).len(),
            forall|k: int|
                0 <= k < errors@.len() ==> {
                    let ee = error_entries(resps.responses@.take(i as int))[k];
                    let out = #[trigger] errors@[k];
                    out.0 == ee.0 && code_is_error(ee.0) && response_type_of(rl, sl, ee.1, out.1)
                        && Some(out.2@) == spec_error_variant(ee.0) && out.2.wf() && (out.1
                        matches Some(ty) ==> type_wf(ty))
                },
        decreases n - i,
    {
        let entry = &resps.responses[i];
        proof {
            assert(resps.responses@.take(i + 1) =~= resps.responses@.take(i as int).push(
                resps.responses@[i as int],
            ));
            lemma_classify_push(resps.responses@.take(i as int), resps.responses@[i as int]);
        }
        let code = match entry.0 {
            StatusCodeKey::Code(c) => c,
            StatusCodeKey::Range(m) => {
                proof {
                    assert(!entry_ok(rl, sl, resps.responses@[i as int]));
                    lemma_no_prior_second_success(resps.responses@, i as int);
                }
                return Err(Error::BadStatusCode(m));
            },
        };
        let typ = match get_type_of_response(&entry.1, response_lookup, schema_lookup) {
            Ok(t) => t,
            Err(e) => {
                proof {
                    assert(!entry_ok(rl, sl, resps.responses@[i as int]));
                    lemma_no_prior_second_success(resps.responses@, i as int);
                }
                return Err(e);
            },
        };
        if 200 <= code && code <= 300 {
            if success.is_some() {
                proof {
                    let pre = resps.responses@.take(i as int);
                    assert(count_success(pre) == 1);
                    assert(count_success(resps.responses@.take(i + 1)) == 2);
                    lemma_count_success_bound(resps.responses@, i as int + 1);
                    lemma_no_prior_second_success(resps.responses@, i as int);
                    assert forall|j: int|
                        i < j <= resps.responses@.len() implies count_success(
                        resps.responses@.take(j),
                    ) >= 2 by {
                        lemma_count_success_mono(resps.responses@, i as int + 1, j);
                    }
                    assert(resps.responses@.take(resps.responses@.len() as int)
                        =~= resps.responses@);
                }
                return Err(Error::Todo(String::from_str("more than one success code")));
            }
            success = Some((code, typ));
        } else if 400 <= code && code <= 500 {
            let name = match error_variant_from_status_code(code) {
                Some(t) => t,
                None => {
                    proof {
                        assert(!entry_ok(rl, sl, resps.responses@[i as int]));
                        lemma_no_prior_second_success(resps.responses@, i as int);
                    }
                    return Err(Error::Todo(String::from_str("cannot name error variant")));
                },
            };
            errors.push((code, typ, name));
        } else {
            proof {
                assert(!entry_ok(rl, sl, resps.responses@[i as int]));
                lemma_no_prior_second_success(resps.responses@, i as int);
            }
            return Err(Error::BadStatusCode(code));
        }
        i = i + 1;
    }
    proof {
        assert(resps.responses@.take(n as int) =~= resps.responses@);
        lemma_no_prior_second_success(resps.responses@, n as int);
    }
    match success {
        Some(s) => Ok((s, errors)),
        None => Err(Error::Todo(String::from_str("no success code specified"))),
    }
}

/// Within a prefix counting at most one success, no position both follows
/// a full success count and carries a success code.
proof fn lemma_no_prior_second_success(entries: Seq<(StatusCodeKey, RefOr<Response>)>, bound: int)
    requires
        0 <= bound <= entries.len(),
        count_success(entries.take(bound)) <= 1,
    ensures
        forall|j: int|
            !(0 <= j < bound && count_success(entries.take(j)) == 1 && ((#[trigger] entries[j]).0
                matches StatusCodeKey::Code(c) && code_is_success(c))),
{
    assert forall|j: int|
        !(0 <= j < bound && count_success(entries.take(j)) == 1 && ((#[trigger] entries[j]).0
            matches StatusCodeKey::Code(c) && code_is_success(c))) by {
        if 0 <= j < bound && count_success(entries.take(j)) == 1 && (entries[j].0
            matches StatusCodeKey::Code(c) && code_is_success(c)) {
            assert(entries.take(j + 1) =~= entries.take(j).push(entries[j]));
            lemma_classify_push(entries.take(j), entries[j]);
            lemma_count_success_mono(entries, j + 1, bound);
        }
    }
}

/// The success count grows along prefixes.
proof fn lemma_count_success_mono(entries: Seq<(StatusCodeKey, RefOr<Response>)>, a: int, b: int)
    requires
        0 <= a <= b <= entries.len(),
    ensures
        count_success(entries.take(a)) <= count_success(entries.take(b)),
{
    assert(entries.take(b).take(a) =~= entries.take(a));
    lemma_count_success_bound(entries.take(b), a);
}

/// The success count of a prefix bounds the whole table's from below.
proof fn lemma_count_success_bound(entries: Seq<(StatusCodeKey, RefOr<Response>)>, m: int)
    requires
        0 <= m <= entries.len(),
    ensures
        count_success(entries) >= count_success(entries.take(m)),
    decreases entries.len(),
{
    if m == 0 {
        assert(entries.take(0).len() == 0);
    } else {
        assert(entries.take(m)[0] == entries[0]);
        assert(entries.take(m).drop_first() =~= entries.drop_first().take(m - 1));
        lemma_count_success_bound(entries.drop_first(), m - 1);
    }
}

} // verus!
