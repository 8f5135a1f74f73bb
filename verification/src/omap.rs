//! An ordered string-keyed map with unique keys.
//!
//! The description's lookup tables (schemas, parameters, responses, request
//! bodies, paths) and the compiled tables (types, routes) are all ordered
//! mappings: iteration follows insertion order, and a key occurs at most
//! once. Entries are held in insertion order; lookups scan.

use vstd::prelude::*;

verus! {

/// The first value paired with key `k` in `s`, if any.
pub open spec fn seq_lookup<V>(s: Seq<(String, V)>, k: Seq<char>) -> Option<V>
    decreases s.len(),
{
    if s.len() == 0 {
        None
    } else if s[0].0@ == k {
        Some(s[0].1)
    } else {
        seq_lookup(s.drop_first(), k)
    }
}

/// Whether some entry of `s` carries key `k`.
pub open spec fn seq_has_key<V>(s: Seq<(String, V)>, k: Seq<char>) -> bool {
    exists|i: int| 0 <= i < s.len() && #[trigger] s[i].0@ == k
}

/// No two entries of `s` share a key.
pub open spec fn seq_keys_unique<V>(s: Seq<(String, V)>) -> bool {
    forall|i: int, j: int| 0 <= i < j < s.len() ==> (#[trigger] s[i].0@) != (#[trigger] s[j].0@)
}

/// If entry `i` is the first with key `k`, the lookup returns its value.
pub proof fn lemma_seq_lookup_at<V>(s: Seq<(String, V)>, k: Seq<char>, i: int)
    requires
        0 <= i < s.len(),
        s[i].0@ == k,
        forall|j: int| 0 <= j < i ==> (#[trigger] s[j].0@) != k,
    ensures
        seq_lookup(s, k) == Some(s[i].1),
    decreases s.len(),
{
    if i == 0 {
    } else {
        assert(s[0].0@ != k);
        assert(s.drop_first()[i - 1] == s[i]);
        assert forall|j: int| 0 <= j < i - 1 implies (#[trigger] s.drop_first()[j].0@) != k by {
            assert(s.drop_first()[j] == s[j + 1]);
        }
        lemma_seq_lookup_at(s.drop_first(), k, i - 1);
    }
}

/// If no entry carries key `k`, the lookup returns nothing.
pub proof fn lemma_seq_lookup_none<V>(s: Seq<(String, V)>, k: Seq<char>)
    requires
        forall|i: int| 0 <= i < s.len() ==> (#[trigger] s[i].0@) != k,
    ensures
        seq_lookup(s, k) is None,
    decreases s.len(),
{
    if s.len() == 0 {
    } else {
        assert forall|i: int| 0 <= i < s.drop_first().len() implies (#[trigger] s.drop_first()[i].0@)
            != k by {
            assert(s.drop_first()[i] == s[i + 1]);
        }
        lemma_seq_lookup_none(s.drop_first(), k);
    }
}

/// An insertion-ordered mapping from strings to `V`, each key held once.
#[derive(Debug, Clone, PartialEq)]
pub struct StringMap<V> {
    entries: Vec<(String, V)>,
}

impl<V> View for StringMap<V> {
    type V = Seq<(String, V)>;

    closed spec fn view(&self) -> Seq<(String, V)> {
        self.entries@
    }
}

impl<V> StringMap<V> {
    /// Keys are pairwise distinct. Established at construction and kept by
    /// every operation.
    pub open spec fn wf(&self) -> bool {
        seq_keys_unique(self@)
    }

    /// What `get` returns, as a function of the view.
    pub open spec fn spec_get(&self, k: Seq<char>) -> Option<V> {
        seq_lookup(self@, k)
    }

    /// Whether the map holds an entry under `k`.
    pub open spec fn spec_has(&self, k: Seq<char>) -> bool {
        seq_has_key(self@, k)
    }

    /// The empty map.
    pub fn new() -> (r: StringMap<V>)
        ensures
            r@ == Seq::<(String, V)>::empty(),
            r.wf(),
    {
        StringMap { entries: Vec::new() }
    }

    /// The number of entries.
    pub fn len(&self) -> (r: usize)
        ensures
            r == self@.len(),
    {
        self.entries.len()
    }

    /// The entry at position `i`, in insertion order.
    pub fn entry_at(&self, i: usize) -> (r: &(String, V))
        requires
            i < self@.len(),
        ensures
            *r == self@[i as int],
    {
        &self.entries[i]
    }

    /// Whether the map holds an entry under `k`.
    pub fn contains_key(&self, k: &String) -> (r: bool)
        ensures
            r == self.spec_has(k@),
    {
        let n = self.entries.len();
        let mut i: usize = 0;
        while i < n
            invariant
                i <= n,
                n == self@.len(),
                forall|j: int| 0 <= j < i ==> (#[trigger] self@[j].0@) != k@,
            decreases n - i,
        {
            if self.entries[i].0 == *k {
                return true;
            }
            i = i + 1;
        }
        false
    }

    /// The value under `k`, if any.
    pub fn get(&self, k: &String) -> (r: Option<&V>)
        ensures
            r matches Some(v) ==> self.spec_get(k@) == Some(*v),
            r is None ==> self.spec_get(k@) is None,
    {
        let n = self.entries.len();
        let mut i: usize = 0;
        while i < n
            invariant
                i <= n,
                n == self@.len(),
                forall|j: int| 0 <= j < i ==> (#[trigger] self@[j].0@) != k@,
            decreases n - i,
        {
            if self.entries[i].0 == *k {
                proof {
                    lemma_seq_lookup_at(self@, k@, i as int);
                }
                return Some(&self.entries[i].1);
            }
            i = i + 1;
        }
        proof {
            lemma_seq_lookup_none(self@, k@);
        }
        None
    }

    /// Append an entry under a key not yet present.
    pub fn push(&mut self, k: String, v: V)
        requires
            !old(self).spec_has(k@),
            old(self).wf(),
        ensures
            final(self)@ == old(self)@.push((k, v)),
            final(self).wf(),
    {
        self.entries.push((k, v));
        proof {
            assert forall|i: int, j: int| 0 <= i < j < self@.len() implies (#[trigger] self@[i].0@)
                != (#[trigger] self@[j].0@) by {
                if j == self@.len() - 1 {
                    assert(!seq_has_key(old(self)@, k@));
                    assert(old(self)@[i].0@ != k@);
                }
            }
        }
    }

    /// Append an entry unless the key is already present; reports whether
    /// the entry went in. The runtime-checked face of `push`.
    pub fn insert_checked(&mut self, k: String, v: V) -> (r: bool)
        requires
            old(self).wf(),
        ensures
            r == !old(self).spec_has(k@),
            r ==> final(self)@ == old(self)@.push((k, v)),
            !r ==> final(self)@ == old(self)@,
            final(self).wf(),
    {
        if self.contains_key(&k) {
            false
        } else {
            self.push(k, v);
            true
        }
    }
}

} // verus!
