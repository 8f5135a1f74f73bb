//! The reference resolver.
//!
//! A `$ref` pointer must match the grammar
//! `#/components/<namespace>/<Name>` exactly; every other shape is a bad
//! reference. Each namespace (schemas, parameters, responses, request
//! bodies) has its own lookup table and cross-namespace pointers are never
//! followed. Schema references resolve recursively under an explicit depth
//! bound that turns any cycle into a reported error; the other namespaces
//! are dereferenced a single hop only.

use vstd::prelude::*;

verus! {

use crate::doc::RefOr;
use crate::doc::Schema;
use crate::doc::SchemaLookup;
use crate::doc::SchemaMeta;
use crate::error::Error;
use crate::names::camel_of;
use crate::names::TypeName;
use crate::omap::seq_lookup;
use crate::omap::StringMap;

/// How many reference hops resolution follows before it reports a cycle.
pub open spec fn max_ref_depth() -> int {
    20
}

/// The fixed head of a pointer into `ns`.
pub open spec fn ref_prefix(ns: Seq<char>) -> Seq<char> {
    "#/components/"@ + ns + "/"@
}

/// The name a pointer into `ns` designates, if the pointer matches the
/// grammar exactly: the fixed head, then a name free of slashes.
/// No slash at or after `from`.
pub open spec fn slash_free_from(r: Seq<char>, from: int) -> bool {
    forall|k: int| from <= k < r.len() ==> (#[trigger] r[k]) != '/'
}

pub open spec fn spec_extract(r: Seq<char>, ns: Seq<char>) -> Option<Seq<char>> {
    let p = ref_prefix(ns);
    if r.len() >= p.len() && r.take(p.len() as int) == p && slash_free_from(r, p.len() as int) {
        Some(r.skip(p.len() as int))
    } else {
        None
    }
}

/// The schema namespace.
pub open spec fn schemas_ns() -> Seq<char> {
    "schemas"@
}

/// The name a schema pointer designates, or the empty sequence for a
/// pointer that matches no grammar.
pub open spec fn ref_name(r: Seq<char>) -> Seq<char> {
    match spec_extract(r, schemas_ns()) {
        Some(nm) => nm,
        None => Seq::empty(),
    }
}

/// What recursive schema-reference validation returns: the first name on
/// the chain and the terminal node's metadata, or nothing when the pointer
/// grammar, the name form, a lookup, or the depth bound fails.
pub open spec fn spec_resolve(
    lookup: Seq<(String, RefOr<Schema>)>,
    refr: Seq<char>,
    depth: int,
) -> Option<(Seq<char>, SchemaMeta)>
    decreases max_ref_depth() - depth,
{
    if depth >= max_ref_depth() {
        None
    } else {
        match spec_extract(refr, schemas_ns()) {
            None => None,
            Some(nm) => {
                if nm != camel_of(nm) {
                    None
                } else {
                    match seq_lookup(lookup, nm) {
                        None => None,
                        Some(RefOr::Reference(r2)) => match spec_resolve(lookup, r2@, depth + 1) {
                            Some((_, meta)) => Some((nm, meta)),
                            None => None,
                        },
                        Some(RefOr::Item(schema)) => Some((nm, schema.meta)),
                    }
                }
            },
        }
    }
}

/// Unwrap an inline item, or fail on a reference.
pub fn unwrap_ref<'a, T>(item: &'a RefOr<T>) -> (r: Result<&'a T, Error>)
    ensures
        match item {
            RefOr::Item(it) => r matches Ok(t) && *t == it,
            RefOr::Reference(s) => r matches Err(e) && e matches Error::UnexpectedReference(m)
                && m@ == s@,
        },
{
    match item {
        RefOr::Item(it) => Ok(it),
        RefOr::Reference(reference) => Err(Error::UnexpectedReference(reference.clone())),
    }
}

/// Extract the component name from a pointer into `ns`, holding the
/// pointer to the grammar exactly.
pub fn extract_component_name(refr: &str, ns: &str) -> (r: Result<String, Error>)
    ensures
        r matches Ok(nm) ==> spec_extract(refr@, ns@) == Some(nm@),
        r is Err <==> spec_extract(refr@, ns@) is None,
        r matches Err(e) ==> e matches Error::BadReference(m) && m@ == refr@,
{
    let n = refr.unicode_len();
    let mut prefix = String::from_str("#/components/");
    prefix.append(ns);
    prefix.append("/");
    let plen = prefix.unicode_len();
    assert(prefix@ == ref_prefix(ns@));
    if n < plen {
        return Err(Error::BadReference(String::from_str(refr)));
    }
    let head = String::from_str(refr.substring_char(0, plen));
    if !(head == prefix) {
        assert(refr@.take(plen as int) != ref_prefix(ns@));
        return Err(Error::BadReference(String::from_str(refr)));
    }
    let mut i = plen;
    while i < n
        invariant
            plen <= i <= n,
            n == refr@.len(),
            plen == ref_prefix(ns@).len(),
            forall|k: int| plen <= k < i ==> refr@[k] != '/',
        decreases n - i,
    {
        if refr.get_char(i) == '/' {
            proof {
                assert(refr@[i as int] == '/');
                assert(!slash_free_from(refr@, ref_prefix(ns@).len() as int));
            }
            return Err(Error::BadReference(String::from_str(refr)));
        }
        i = i + 1;
    }
    let name = String::from_str(refr.substring_char(plen, n));
    assert(name@ == refr@.skip(plen as int));
    Ok(name)
}

/// Extract the type name from a schema pointer: the pointer must match the
/// grammar, and the name must be a valid type name.
pub fn extract_ref_name(refr: &str) -> (r: Result<TypeName, Error>)
    ensures
        r matches Ok(t) ==> spec_extract(refr@, schemas_ns()) == Some(t@) && t.wf(),
        spec_extract(refr@, schemas_ns()) is None ==> (r matches Err(e) && (e
            matches Error::BadReference(m) && m@ == refr@)),
        spec_extract(refr@, schemas_ns()) matches Some(nm) ==> (if nm == camel_of(nm) {
            r is Ok
        } else {
            r matches Err(e) && (e matches Error::BadTypeName(m) && m@ == nm)
        }),
{
    let name = match extract_component_name(refr, "schemas") {
        Ok(nm) => nm,
        Err(e) => {
            return Err(e);
        },
    };
    TypeName::new(name)
}

/// A field-for-field copy of a schema node's metadata.
pub fn clone_meta(m: &SchemaMeta) -> (r: SchemaMeta)
    ensures
        r == *m,
{
    SchemaMeta {
        description: match &m.description {
            Some(d) => Some(d.clone()),
            None => None,
        },
        nullable: m.nullable,
    }
}

/// What single-hop dereferencing yields: the inline item itself, or the
/// item a grammatical pointer names in its own namespace's table. A
/// dangling pointer or a nested reference yields nothing.
pub open spec fn spec_deref<T>(
    lookup: Seq<(String, RefOr<T>)>,
    node: RefOr<T>,
    ns: Seq<char>,
) -> Option<T> {
    match node {
        RefOr::Item(t) => Some(t),
        RefOr::Reference(s) => match spec_extract(s@, ns) {
            Some(nm) => match seq_lookup(lookup, nm) {
                Some(RefOr::Item(t)) => Some(t),
                _ => None,
            },
            None => None,
        },
    }
}

/// Fetch a pointer's target from its namespace's lookup table, one hop
/// only: the target must be an inline item; a missing key or a nested
/// reference is a bad reference.
pub fn dereference<'a, T>(
    refr: &'a RefOr<T>,
    lookup: &'a StringMap<RefOr<T>>,
    ns: &str,
) -> (r: Result<&'a T, Error>)
    ensures
        r matches Ok(t) ==> spec_deref(lookup@, *refr, ns@) == Some(*t),
        r is Err <==> spec_deref(lookup@, *refr, ns@) is None,
        r matches Err(e) ==> (e matches Error::BadReference(m) && (refr
            matches RefOr::Reference(s) && m@ == s@)),
{
    match refr {
        RefOr::Item(it) => Ok(it),
        RefOr::Reference(s) => {
            let name = match extract_component_name(s.as_str(), ns) {
                Ok(nm) => nm,
                Err(_) => {
                    return Err(Error::BadReference(s.clone()));
                },
            };
            match lookup.get(&name) {
                Some(RefOr::Item(it)) => Ok(it),
                Some(RefOr::Reference(_)) => Err(Error::BadReference(s.clone())),
                None => Err(Error::BadReference(s.clone())),
            }
        },
    }
}

/// Check that a schema pointer chain ends at something, within the depth
/// bound, starting from `depth` hops already taken.
fn validate_schema_ref_depth(refr: &str, lookup: &SchemaLookup, depth: u32) -> (r: Result<
    (TypeName, SchemaMeta),
    Error,
>)
    ensures
        r matches Ok(p) ==> spec_resolve(lookup@, refr@, depth as int) == Some((p.0@, p.1))
            && p.0.wf(),
        r is Err <==> spec_resolve(lookup@, refr@, depth as int) is None,
        r matches Err(e) ==> (e matches Error::BadReference(_) || e matches Error::BadTypeName(_)),
        depth >= 20 ==> (r matches Err(e) && (e matches Error::BadReference(m) && m@ == refr@)),
        depth < 20 && spec_extract(refr@, schemas_ns()) is None ==> (r matches Err(e) && (e
            matches Error::BadReference(m) && m@ == refr@)),
        depth < 20 && (spec_extract(refr@, schemas_ns()) matches Some(nm) && nm != camel_of(nm))
            ==> (r matches Err(e) && (e matches Error::BadTypeName(m) && m@ == ref_name(refr@))),
        depth < 20 && (spec_extract(refr@, schemas_ns()) matches Some(nm) && nm == camel_of(nm)
            && seq_lookup(lookup@, nm) is None) ==> (r matches Err(e) && (e
            matches Error::BadReference(m) && m@ == refr@)),
    decreases 20 - depth,
{
    if depth >= 20 {
        return Err(Error::BadReference(String::from_str(refr)));
    }
    let name = match extract_ref_name(refr) {
        Ok(t) => t,
        Err(e) => {
            return Err(e);
        },
    };
    let key = String::from_str(name.as_str());
    match lookup.get(&key) {
        None => Err(Error::BadReference(String::from_str(refr))),
        Some(RefOr::Reference(r2)) => {
            match validate_schema_ref_depth(r2.as_str(), lookup, depth + 1) {
                Ok(p) => Ok((name, p.1)),
                Err(e) => Err(e),
            }
        },
        Some(RefOr::Item(schema)) => Ok((name, clone_meta(&schema.meta))),
    }
}

/// Check that a schema pointer (chain) points at something within the
/// description, and return the first name on the chain together with the
/// terminal node's metadata.
/// The error reports the offender verbatim: the pointer itself when its
/// grammar fails or its first hop dangles, the extracted name when that
/// name is not a valid type name. An error arising deeper on a chain
/// carries the offending pointer of that hop.
pub fn validate_schema_ref(refr: &str, schema_lookup: &SchemaLookup) -> (r: Result<
    (TypeName, SchemaMeta),
    Error,
>)
    ensures
        r matches Ok(p) ==> spec_resolve(schema_lookup@, refr@, 0) == Some((p.0@, p.1))
            && p.0.wf(),
        r is Err <==> spec_resolve(schema_lookup@, refr@, 0) is None,
        r matches Err(e) ==> (e matches Error::BadReference(_) || e matches Error::BadTypeName(_)),
        spec_extract(refr@, schemas_ns()) is None ==> (r matches Err(e) && (e
            matches Error::BadReference(m) && m@ == refr@)),
        (spec_extract(refr@, schemas_ns()) matches Some(nm) && nm != camel_of(nm)) ==> (r
            matches Err(e) && (e matches Error::BadTypeName(m) && m@ == ref_name(refr@))),
        (spec_extract(refr@, schemas_ns()) matches Some(nm) && nm == camel_of(nm) && seq_lookup(
            schema_lookup@,
            nm,
        ) is None) ==> (r matches Err(e) && (e matches Error::BadReference(m) && m@ == refr@)),
{
    validate_schema_ref_depth(refr, schema_lookup, 0)
}

/// A pointer chain into existing targets: every pointer matches the
/// grammar with a well-formed name, each non-terminal name is bound to the
/// next pointer, and the last name is bound to an inline schema.
pub open spec fn is_chain(lookup: Seq<(String, RefOr<Schema>)>, refs: Seq<Seq<char>>) -> bool {
    &&& forall|i: int|
        0 <= i < refs.len() ==> spec_extract(#[trigger] refs[i], schemas_ns()) == Some(
            ref_name(refs[i]),
        ) && ref_name(refs[i]) == camel_of(ref_name(refs[i]))
    &&& forall|i: int|
        0 <= i < refs.len() - 1 ==> (seq_lookup(lookup, ref_name(#[trigger] refs[i])) matches Some(
            v,
        ) && (v matches RefOr::Reference(s) && s@ == refs[i + 1]))
    &&& refs.len() > 0 ==> (seq_lookup(lookup, ref_name(refs[refs.len() - 1])) matches Some(v)
        && v matches RefOr::Item(_))
}

/// The terminal node's metadata, for a chain.
pub open spec fn chain_meta(lookup: Seq<(String, RefOr<Schema>)>, refs: Seq<Seq<char>>) -> SchemaMeta {
    match seq_lookup(lookup, ref_name(refs[refs.len() - 1])) {
        Some(RefOr::Item(schema)) => schema.meta,
        _ => SchemaMeta { description: None, nullable: false },
    }
}

/// Resolution on a pointer chain of length at most the depth bound, into
/// existing targets, succeeds and returns the first name with the terminal
/// node's metadata.
pub proof fn lemma_chain_resolves(
    lookup: Seq<(String, RefOr<Schema>)>,
    refs: Seq<Seq<char>>,
    depth: int,
)
    requires
        is_chain(lookup, refs),
        1 <= refs.len(),
        0 <= depth,
        refs.len() + depth <= max_ref_depth(),
    ensures
        spec_resolve(lookup, refs[0], depth) == Some((ref_name(refs[0]), chain_meta(lookup, refs))),
    decreases refs.len(),
{
    if refs.len() == 1 {
    } else {
        let rest = refs.drop_first();
        assert(is_chain(lookup, rest)) by {
            assert forall|i: int|
                0 <= i < rest.len() implies spec_extract(#[trigger] rest[i], schemas_ns()) == Some(
                ref_name(rest[i]),
            ) && ref_name(rest[i]) == camel_of(ref_name(rest[i])) by {
                assert(rest[i] == refs[i + 1]);
            }
            assert forall|i: int|
                0 <= i < rest.len() - 1 implies (seq_lookup(lookup, ref_name(#[trigger] rest[i]))
                matches Some(v) && (v matches RefOr::Reference(s) && s@ == rest[i + 1])) by {
                assert(rest[i] == refs[i + 1]);
                assert(rest[i + 1] == refs[i + 2]);
            }
            assert(rest[rest.len() - 1] == refs[refs.len() - 1]);
        }
        lemma_chain_resolves(lookup, rest, depth + 1);
        assert(rest[0] == refs[1]);
        assert(rest[rest.len() - 1] == refs[refs.len() - 1]);
        assert(chain_meta(lookup, rest) == chain_meta(lookup, refs));
    }
}

/// A run of pointers each bound to the next: no terminal in sight.
pub open spec fn all_refs_chain(lookup: Seq<(String, RefOr<Schema>)>, refs: Seq<Seq<char>>) -> bool {
    &&& forall|i: int|
        0 <= i < refs.len() ==> spec_extract(#[trigger] refs[i], schemas_ns()) == Some(
            ref_name(refs[i]),
        ) && ref_name(refs[i]) == camel_of(ref_name(refs[i]))
    &&& forall|i: int|
        0 <= i < refs.len() - 1 ==> (seq_lookup(lookup, ref_name(#[trigger] refs[i])) matches Some(
            v,
        ) && (v matches RefOr::Reference(s) && s@ == refs[i + 1]))
}

/// Resolution on a run of pointers long enough to exhaust the depth bound
/// fails: the bound converts a would-be infinite loop into an error.
pub proof fn lemma_chain_exhausts(
    lookup: Seq<(String, RefOr<Schema>)>,
    refs: Seq<Seq<char>>,
    depth: int,
)
    requires
        all_refs_chain(lookup, refs),
        0 <= depth,
        refs.len() >= max_ref_depth() + 1 - depth,
        refs.len() >= 1,
    ensures
        spec_resolve(lookup, refs[0], depth) is None,
    decreases refs.len(),
{
    if depth >= max_ref_depth() {
    } else {
        assert(refs.len() >= 2);
        let rest = refs.drop_first();
        assert(all_refs_chain(lookup, rest)) by {
            assert forall|i: int|
                0 <= i < rest.len() implies spec_extract(#[trigger] rest[i], schemas_ns()) == Some(
                ref_name(rest[i]),
            ) && ref_name(rest[i]) == camel_of(ref_name(rest[i])) by {
                assert(rest[i] == refs[i + 1]);
            }
            assert forall|i: int|
                0 <= i < rest.len() - 1 implies (seq_lookup(lookup, ref_name(#[trigger] rest[i]))
                matches Some(v) && (v matches RefOr::Reference(s) && s@ == rest[i + 1])) by {
                assert(rest[i] == refs[i + 1]);
                assert(rest[i + 1] == refs[i + 2]);
            }
        }
        lemma_chain_exhausts(lookup, rest, depth + 1);
        assert(rest[0] == refs[1]);
    }
}

/// A cycle of pointers: each name on the loop is bound to the next pointer
/// around the loop.
pub open spec fn is_ref_cycle(lookup: Seq<(String, RefOr<Schema>)>, cyc: Seq<Seq<char>>) -> bool {
    &&& cyc.len() >= 1
    &&& forall|i: int|
        0 <= i < cyc.len() ==> spec_extract(#[trigger] cyc[i], schemas_ns()) == Some(
            ref_name(cyc[i]),
        ) && ref_name(cyc[i]) == camel_of(ref_name(cyc[i]))
    &&& forall|i: int|
        0 <= i < cyc.len() ==> (seq_lookup(lookup, ref_name(#[trigger] cyc[i])) matches Some(v)
            && (v matches RefOr::Reference(s) && s@ == cyc[((i + 1) % (cyc.len() as int))]))
}

/// Resolution starting anywhere on a reference cycle fails: the depth
/// bound catches it.
pub proof fn lemma_cycle_fails(lookup: Seq<(String, RefOr<Schema>)>, cyc: Seq<Seq<char>>)
    requires
        is_ref_cycle(lookup, cyc),
    ensures
        spec_resolve(lookup, cyc[0], 0) is None,
{
    let n = cyc.len() as int;
    let refs = Seq::<Seq<char>>::new((max_ref_depth() + 1) as nat, |i: int| cyc[i % n]);
    assert forall|i: int| 0 <= i < refs.len() implies #[trigger] refs[i] == cyc[i % n] by {}
    assert(all_refs_chain(lookup, refs)) by {
        assert forall|i: int|
            0 <= i < refs.len() implies spec_extract(#[trigger] refs[i], schemas_ns()) == Some(
            ref_name(refs[i]),
        ) && ref_name(refs[i]) == camel_of(ref_name(refs[i])) by {
            vstd::arithmetic::div_mod::lemma_mod_bound(i, n);
            assert(refs[i] == cyc[i % n]);
        }
        assert forall|i: int|
            0 <= i < refs.len() - 1 implies (seq_lookup(lookup, ref_name(#[trigger] refs[i]))
            matches Some(v) && (v matches RefOr::Reference(s) && s@ == refs[i + 1])) by {
            vstd::arithmetic::div_mod::lemma_mod_bound(i, n);
            assert(refs[i] == cyc[i % n]);
            assert(seq_lookup(lookup, ref_name(cyc[i % n])) matches Some(v) && (v
                matches RefOr::Reference(s) && s@ == cyc[((i % n + 1) % n)]));
            assert((i % n + 1) % n == (i + 1) % n) by {
                vstd::arithmetic::div_mod::lemma_mod_bound(i, n);
                vstd::arithmetic::div_mod::lemma_add_mod_noop(i, 1, n);
                if n > 1 {
                    vstd::arithmetic::div_mod::lemma_small_mod(1nat, n as nat);
                    assert(1int % n == 1);
                } else {
                    vstd::arithmetic::div_mod::lemma_mod_bound(i % n + 1, n);
                    vstd::arithmetic::div_mod::lemma_mod_bound(i + 1, n);
                    vstd::arithmetic::div_mod::lemma_mod_bound(1int, n);
                }
            }
            assert(refs[i + 1] == cyc[(i + 1) % n]);
        }
    }
    assert(refs[0] == cyc[0]) by {
        vstd::arithmetic::div_mod::lemma_small_mod(0nat, n as nat);
    }
    lemma_chain_exhausts(lookup, refs, 0);
}

} // verus!
