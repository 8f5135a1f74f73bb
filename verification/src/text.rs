//! Small specification helpers for text assembled piece by piece.

use vstd::prelude::*;

verus! {

/// Relies on `String::push` of std: appends the given character to the end
/// of the string.
#[verifier::external_body]
pub(crate) fn push_char(s: &mut String, c: char)
    ensures
        final(s)@ == old(s)@ + seq![c],
{
    s.push(c)
}

/// The concatenation of `f` applied to every element of `s`, in order.
pub open spec fn concat_map<T>(s: Seq<T>, f: spec_fn(T) -> Seq<char>) -> Seq<char>
    decreases s.len(),
{
    if s.len() == 0 {
        Seq::empty()
    } else {
        f(s[0]) + concat_map(s.drop_first(), f)
    }
}

/// Appending one element on the right extends the concatenation on the
/// right.
pub proof fn lemma_concat_map_push<T>(s: Seq<T>, f: spec_fn(T) -> Seq<char>, x: T)
    ensures
        concat_map(s.push(x), f) == concat_map(s, f) + f(x),
    decreases s.len(),
{
    let p = s.push(x);
    assert(p.len() == s.len() + 1);
    assert(p[0] == if s.len() == 0 { x } else { s[0] });
    if s.len() == 0 {
        assert(p.drop_first() =~= Seq::<T>::empty());
        assert(concat_map(p.drop_first(), f) == Seq::<char>::empty());
        assert(concat_map(p, f) == f(x) + Seq::<char>::empty());
        assert(f(x) + Seq::<char>::empty() =~= concat_map(s, f) + f(x));
    } else {
        assert(p.drop_first() =~= s.drop_first().push(x));
        lemma_concat_map_push(s.drop_first(), f, x);
        assert(concat_map(p, f) == f(s[0]) + (concat_map(s.drop_first(), f) + f(x)));
        assert(f(s[0]) + (concat_map(s.drop_first(), f) + f(x)) =~= (f(s[0]) + concat_map(
            s.drop_first(),
            f,
        )) + f(x));
    }
}

} // verus!
