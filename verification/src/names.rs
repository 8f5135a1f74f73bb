//! The name validator: the two disjoint identifier kinds used everywhere
//! downstream.
//!
//! An [`Ident`] is a validated lowercase, word-separated (snake-cased) name
//! used for fields, parameters and operations; a [`TypeName`] is a validated
//! capitalized-word-joined name identifying component-level types. Parsing
//! is the sole construction path for both: no other code fabricates one.

use heck::CamelCase;
use heck::MixedCase;
use heck::SnakeCase;
use vstd::prelude::*;

verus! {

use crate::error::Error;

/// What heck's snake-case conversion returns for a character sequence.
pub uninterp spec fn snake_of(s: Seq<char>) -> Seq<char>;

/// What heck's mixed-case conversion returns for a character sequence.
pub uninterp spec fn mixed_of(s: Seq<char>) -> Seq<char>;

/// What heck's camel-case conversion returns for a character sequence.
pub uninterp spec fn camel_of(s: Seq<char>) -> Seq<char>;

/// Relies on heck's `SnakeCase::to_snake_case`: the result depends on the
/// input characters alone.
#[verifier::external_body]
pub(crate) fn to_snake(s: &str) -> (r: String)
    ensures
        r@ == snake_of(s@),
{
    s.to_snake_case()
}

/// Relies on heck's `MixedCase::to_mixed_case`: the result depends on the
/// input characters alone.
#[verifier::external_body]
fn to_mixed(s: &str) -> (r: String)
    ensures
        r@ == mixed_of(s@),
{
    s.to_mixed_case()
}

/// Relies on heck's `CamelCase::to_camel_case`: the result depends on the
/// input characters alone.
#[verifier::external_body]
pub(crate) fn to_camel(s: &str) -> (r: String)
    ensures
        r@ == camel_of(s@),
{
    s.to_camel_case()
}

/// The inputs that `Ident::parse` accepts: strings already in their
/// snake-cased form, plus the common mixed-cased alternate — provided the
/// snake-cased form is itself stable under snake-casing, so that the
/// stored canonical form round-trips to itself. (Most punctuation-free
/// names are stable; a name like one with a dot between cased letters is
/// not, and is rejected.)
pub open spec fn ident_accepted(s: Seq<char>) -> bool {
    &&& (s == snake_of(s) || s == mixed_of(s))
    &&& snake_of(snake_of(s)) == snake_of(s)
}

/// A string which is a valid identifier, held in snake case.
///
/// Construct only through [`Ident::parse`].
#[derive(Debug, Clone, PartialEq, Eq, Hash)]
pub struct Ident {
    inner: String,
}

impl View for Ident {
    type V = Seq<char>;

    closed spec fn view(&self) -> Seq<char> {
        self.inner@
    }
}

impl Ident {
    /// A parsed identifier is canonical: it is a fixed point of
    /// snake-casing.
    pub open spec fn wf(&self) -> bool {
        self@ == snake_of(self@)
    }

    /// Validate `raw` and store its snake-cased form.
    ///
    /// Accepts `raw` iff it already equals its snake-cased form or its
    /// mixed-cased form (common in the JS world), and the snake-cased form
    /// is a fixed point of snake-casing — the invariant every identifier
    /// carries, checked here at run time; anything else fails.
    pub fn parse(raw: &str) -> (r: Result<Ident, Error>)
        ensures
            r is Ok <==> ident_accepted(raw@),
            r matches Ok(id) ==> id@ == snake_of(raw@) && id.wf(),
            r matches Err(e) ==> e matches Error::BadIdentifier(m) && m@ == raw@,
    {
        let snake = to_snake(raw);
        let again = to_snake(snake.as_str());
        let mixed = to_mixed(raw);
        let owned = String::from_str(raw);
        if (owned == snake || owned == mixed) && again == snake {
            Ok(Ident { inner: snake })
        } else {
            Err(Error::BadIdentifier(owned))
        }
    }

    /// Read access for the emitters.
    pub fn as_str(&self) -> (r: &str)
        ensures
            r@ == self@,
    {
        self.inner.as_str()
    }

    /// Whether two identifiers hold the same characters.
    pub fn eq_name(&self, other: &Ident) -> (r: bool)
        ensures
            r == (self@ == other@),
    {
        self.inner == other.inner
    }

    /// An owned copy of the characters.
    pub fn to_string(&self) -> (r: String)
        ensures
            r@ == self@,
    {
        self.inner.clone()
    }
}

/// For every accepted identifier input, the canonical output is itself
/// accepted, and re-parsing it yields the very same characters: parsing is
/// idempotent.
pub proof fn lemma_identifier_reparse(id: &Ident)
    requires
        id.wf(),
    ensures
        ident_accepted(id@),
        snake_of(id@) == id@,
{
}

/// A string which is a valid name for a type, in capitalized-word-joined
/// form.
///
/// Construct only through [`TypeName::new`].
#[derive(Debug, Clone, PartialEq, Eq, Hash)]
pub struct TypeName {
    inner: String,
}

impl View for TypeName {
    type V = Seq<char>;

    closed spec fn view(&self) -> Seq<char> {
        self.inner@
    }
}

impl TypeName {
    /// A validated type name equals its own camel-cased form.
    pub open spec fn wf(&self) -> bool {
        self@ == camel_of(self@)
    }

    /// Accept `val` iff it already equals its capitalized-word-joined form.
    pub fn new(val: String) -> (r: Result<TypeName, Error>)
        ensures
            r is Ok <==> val@ == camel_of(val@),
            r matches Ok(t) ==> t@ == val@ && t.wf(),
            r matches Err(e) ==> e matches Error::BadTypeName(m) && m@ == val@,
    {
        let camel = to_camel(val.as_str());
        if val == camel {
            Ok(TypeName { inner: val })
        } else {
            Err(Error::BadTypeName(val))
        }
    }

    /// Read access for the emitters.
    pub fn as_str(&self) -> (r: &str)
        ensures
            r@ == self@,
    {
        self.inner.as_str()
    }

    /// An owned copy of the characters.
    pub fn to_string(&self) -> (r: String)
        ensures
            r@ == self@,
    {
        self.inner.clone()
    }
}

/// `TypeName::new` accepts exactly the capitalized-word-joined strings, and
/// on acceptance returns its input unchanged: the round trip is the
/// identity.
pub proof fn lemma_type_name_roundtrip(t: &TypeName)
    requires
        t.wf(),
    ensures
        t@ == camel_of(t@),
{
}

} // verus!
