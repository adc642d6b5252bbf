//! A header map whose names are compared without regard to ASCII case.
use vstd::prelude::*;
use vstd::utf8::encode_utf8;
use crate::bytes::{eq_ignore_case, fold_case};

verus! {

/// The key under which a header name is looked up: its UTF-8 bytes with the
/// ASCII letters lower-cased.
pub open spec fn name_key(name: Seq<char>) -> Seq<u8> {
    fold_case(encode_utf8(name))
}

/// Whether entry `i` of `m` is stored under the same key as `name`.
pub open spec fn entry_named(m: Seq<(Seq<char>, Seq<char>)>, i: int, name: Seq<char>) -> bool {
    0 <= i < m.len() && name_key(m[i].0) == name_key(name)
}

/// The value stored for `name` in a list of entries whose names are unique up
/// to case.
pub open spec fn lookup(m: Seq<(Seq<char>, Seq<char>)>, name: Seq<char>) -> Option<Seq<char>> {
    if exists|i: int| entry_named(m, i, name) {
        Some(m[choose|i: int| entry_named(m, i, name)].1)
    } else {
        None
    }
}

/// No two entries share a name up to case.
pub open spec fn unique_names(m: Seq<(Seq<char>, Seq<char>)>) -> bool {
    forall|i: int, j: int|
        0 <= i < m.len() && 0 <= j < m.len() && i != j ==> name_key(#[trigger] m[i].0)
            != name_key(#[trigger] m[j].0)
}

/// A mapping from header names to values; names are matched case-insensitively
/// and setting a name that is present replaces its entry.
#[derive(Debug)]
pub struct HeaderMap {
    entries: Vec<(String, String)>,
}

spec fn entries_view(v: Seq<(String, String)>) -> Seq<(Seq<char>, Seq<char>)> {
    v.map_values(|e: (String, String)| (e.0@, e.1@))
}

impl View for HeaderMap {
    type V = Seq<(Seq<char>, Seq<char>)>;

    closed spec fn view(&self) -> Seq<(Seq<char>, Seq<char>)> {
        entries_view(self.entries@)
    }
}

proof fn lemma_lookup_at(m: Seq<(Seq<char>, Seq<char>)>, i: int, name: Seq<char>)
    requires
        unique_names(m),
        entry_named(m, i, name),
    ensures
        lookup(m, name) == Some(m[i].1),
{
    let j = choose|j: int| entry_named(m, j, name);
    assert(entry_named(m, j, name));
    assert(j == i);
}

/// Lookup depends on a name only through its case-folded key.
pub proof fn lemma_lookup_same_key(m: Seq<(Seq<char>, Seq<char>)>, a: Seq<char>, b: Seq<char>)
    requires
        unique_names(m),
        name_key(a) == name_key(b),
    ensures
        lookup(m, a) == lookup(m, b),
{
    assert forall|i: int| entry_named(m, i, a) <==> entry_named(m, i, b) by {}
    if exists|i: int| entry_named(m, i, a) {
        let i = choose|i: int| entry_named(m, i, a);
        lemma_lookup_at(m, i, a);
        lemma_lookup_at(m, i, b);
    }
}

impl HeaderMap {
    /// No two entries share a name up to case.
    #[verifier::type_invariant]
    pub closed spec fn inv(&self) -> bool {
        unique_names(self@)
    }

    pub open spec fn wf(&self) -> bool {
        unique_names(self@)
    }

    /// The value stored for `name`, if any.
    pub open spec fn spec_get(&self, name: Seq<char>) -> Option<Seq<char>> {
        lookup(self@, name)
    }

    pub fn new() -> (r: HeaderMap)
        ensures
            r.wf(),
            r@ == Seq::<(Seq<char>, Seq<char>)>::empty(),
            forall|q: Seq<char>| r.spec_get(q) is None,
    {
        let r = HeaderMap { entries: Vec::new() };
        assert(r@ =~= Seq::<(Seq<char>, Seq<char>)>::empty());
        r
    }

    /// Number of entries.
    pub fn len(&self) -> (r: usize)
        ensures
            r == self@.len(),
    {
        self.entries.len()
    }

    /// The name and value of entry `i`.
    pub fn entry(&self, i: usize) -> (r: (&str, &str))
        requires
            i < self@.len(),
        ensures
            r.0@ == self@[i as int].0,
            r.1@ == self@[i as int].1,
    {
        let e = &self.entries[i];
        (e.0.as_str(), e.1.as_str())
    }

    fn position(&self, key: &str) -> (r: Option<usize>)
        ensures
            r matches Some(i) ==> entry_named(self@, i as int, key@),
            r is None ==> !exists|i: int| entry_named(self@, i, key@),
    {
        let kb = key.as_bytes();
        let mut i: usize = 0;
        while i < self.entries.len()
            invariant
                i <= self@.len(),
                self@.len() == self.entries@.len(),
                kb@ == encode_utf8(key@),
                forall|k: int| 0 <= k < i ==> !entry_named(self@, k, key@),
            decreases self.entries@.len() - i,
        {
            let name = self.entries[i].0.as_str();
            if eq_ignore_case(name.as_bytes(), kb) {
                return Some(i);
            }
            i = i + 1;
        }
        None
    }

    /// The value stored under `key`, compared without regard to ASCII case.
    pub fn get(&self, key: &str) -> (r: Option<&str>)
        ensures
            r matches Some(v) ==> self.spec_get(key@) == Some(v@),
            r is None ==> self.spec_get(key@) is None,
    {
        proof {
            use_type_invariant(self);
        }
        match self.position(key) {
            Some(i) => {
                proof {
                    lemma_lookup_at(self@, i as int, key@);
                }
                Some(self.entries[i].1.as_str())
            },
            None => None,
        }
    }

    /// Whether a value is stored under `key`, compared without regard to case.
    pub fn contains(&self, key: &str) -> (r: bool)
        ensures
            r == self.spec_get(key@) is Some,
    {
        self.position(key).is_some()
    }

    /// Stores `val` under `key`; an entry with the same name up to case is
    /// replaced, so the last value set wins.
    pub fn set(&mut self, key: &str, val: &str)
        ensures
            final(self).wf(),
            forall|q: Seq<char>|
                name_key(q) == name_key(key@) ==> final(self).spec_get(q) == Some(val@),
            forall|q: Seq<char>|
                name_key(q) != name_key(key@) ==> final(self).spec_get(q) == old(self).spec_get(
                    q,
                ),
    {
        let entry = (key.to_owned(), val.to_owned());
        let ghost old_m = self@;
        proof {
            use_type_invariant(&*self);
        }
        let pos = self.position(key);
        let mut entries: Vec<(String, String)> = Vec::new();
        std::mem::swap(&mut entries, &mut self.entries);
        match pos {
            Some(i) => {
                entries.set(i, entry);
                assert(entries_view(entries@) =~= old_m.update(i as int, (key@, val@)));
                proof {
                    let m = entries_view(entries@);
                    assert(unique_names(m)) by {
                        assert forall|a: int, b: int|
                            0 <= a < m.len() && 0 <= b < m.len() && a != b implies name_key(
                            #[trigger] m[a].0,
                        ) != name_key(#[trigger] m[b].0) by {
                            assert(name_key(m[a].0) == name_key(old_m[a].0));
                            assert(name_key(m[b].0) == name_key(old_m[b].0));
                        }
                    }
                    lemma_lookup_at(m, i as int, key@);
                    assert forall|q: Seq<char>| name_key(q) == name_key(key@) implies lookup(m, q)
                        == Some(val@) by {
                        lemma_lookup_same_key(m, q, key@);
                    }
                    assert forall|q: Seq<char>| name_key(q) != name_key(key@) implies lookup(m, q)
                        == lookup(old_m, q) by {
                        assert forall|k: int| entry_named(m, k, q) <==> entry_named(old_m, k, q) by {}
                        if exists|k: int| entry_named(m, k, q) {
                            let k = choose|k: int| entry_named(m, k, q);
                            lemma_lookup_at(m, k, q);
                            lemma_lookup_at(old_m, k, q);
                        }
                    }
                }
            },
            None => {
                entries.push(entry);
                assert(entries_view(entries@) =~= old_m.push((key@, val@)));
                proof {
                    let m = entries_view(entries@);
                    let n = old_m.len() as int;
                    assert(entry_named(m, n, key@));
                    assert(unique_names(m)) by {
                        assert forall|a: int, b: int|
                            0 <= a < m.len() && 0 <= b < m.len() && a != b implies name_key(
                            #[trigger] m[a].0,
                        ) != name_key(#[trigger] m[b].0) by {
                            if a < n && b < n {
                                assert(m[a] == old_m[a] && m[b] == old_m[b]);
                            } else if a == n {
                                assert(!entry_named(old_m, b, key@));
                            } else {
                                assert(!entry_named(old_m, a, key@));
                            }
                        }
                    }
                    lemma_lookup_at(m, n, key@);
                    assert forall|q: Seq<char>| name_key(q) == name_key(key@) implies lookup(m, q)
                        == Some(val@) by {
                        lemma_lookup_same_key(m, q, key@);
                    }
                    assert forall|q: Seq<char>| name_key(q) != name_key(key@) implies lookup(m, q)
                        == lookup(old_m, q) by {
                        assert forall|k: int| entry_named(m, k, q) <==> entry_named(old_m, k, q) by {}
                        if exists|k: int| entry_named(m, k, q) {
                            let k = choose|k: int| entry_named(m, k, q);
                            lemma_lookup_at(m, k, q);
                            lemma_lookup_at(old_m, k, q);
                        }
                    }
                }
            },
        }
        self.entries = entries;
    }
}

impl Clone for HeaderMap {
    fn clone(&self) -> (r: HeaderMap)
        ensures
            r@ == self@,
    {
        proof {
            use_type_invariant(self);
        }
        let mut entries: Vec<(String, String)> = Vec::new();
        let mut i: usize = 0;
        while i < self.entries.len()
            invariant
                i <= self.entries@.len(),
                unique_names(self@),
                entries_view(entries@) == self@.subrange(0, i as int),
            decreases self.entries@.len() - i,
        {
            let e = &self.entries[i];
            let k = e.0.clone();
            let v = e.1.clone();
            assert(self@[i as int] == (k@, v@));
            let ghost before = entries@;
            entries.push((k, v));
            assert(entries_view(entries@) =~= entries_view(before).push(self@[i as int]));
            i = i + 1;
            assert(entries_view(entries@) =~= self@.subrange(0, i as int));
        }
        assert(self@.subrange(0, i as int) =~= self@);
        HeaderMap { entries }
    }
}

impl HeaderMap {
    /// Sets every entry of `other` in turn, so that its values take
    /// precedence over the ones already present.
    pub fn extend_from(&mut self, other: &HeaderMap)
        ensures
            final(self).wf(),
            forall|q: Seq<char>|
                #[trigger] final(self).spec_get(q) == match other.spec_get(q) {
                    Some(v) => Some(v),
                    None => old(self).spec_get(q),
                },
    {
        proof {
            use_type_invariant(&*self);
            use_type_invariant(other);
        }
        let n = other.len();
        let mut i: usize = 0;
        while i < n
            invariant
                i <= n,
                n == other@.len(),
                other.wf(),
                self.wf(),
                forall|q: Seq<char>|
                    #[trigger] self.spec_get(q) == if exists|k: int|
                        0 <= k < i && entry_named(other@, k, q) {
                        lookup(other@, q)
                    } else {
                        old(self).spec_get(q)
                    },
            decreases n - i,
        {
            let (k, v) = other.entry(i);
            let ghost before = *self;
            self.set(k, v);
            proof {
                assert forall|q: Seq<char>|
                    #[trigger] self.spec_get(q) == if exists|j: int|
                        0 <= j < i + 1 && entry_named(other@, j, q) {
                        lookup(other@, q)
                    } else {
                        old(self).spec_get(q)
                    } by {
                    if name_key(q) == name_key(k@) {
                        assert(entry_named(other@, i as int, q));
                        lemma_lookup_at(other@, i as int, q);
                    } else {
                        assert(!entry_named(other@, i as int, q));
                        if exists|j: int| 0 <= j < i + 1 && entry_named(other@, j, q) {
                            let j = choose|j: int| 0 <= j < i + 1 && entry_named(other@, j, q);
                            assert(j < i);
                        }
                    }
                }
            }
            i = i + 1;
        }
        proof {
            assert forall|q: Seq<char>|
                #[trigger] self.spec_get(q) == match other.spec_get(q) {
                    Some(v) => Some(v),
                    None => old(self).spec_get(q),
                } by {
                if exists|k: int| 0 <= k < n && entry_named(other@, k, q) {
                    let k = choose|k: int| 0 <= k < n && entry_named(other@, k, q);
                    lemma_lookup_at(other@, k, q);
                }
            }
        }
    }
}

/// Header names match without regard to ASCII case: two names with the same
/// case-folded bytes find the same value.
pub proof fn lemma_get_ignores_case(m: HeaderMap, a: Seq<char>, b: Seq<char>)
    requires
        m.wf(),
        name_key(a) == name_key(b),
    ensures
        m.spec_get(a) == m.spec_get(b),
{
    lemma_lookup_same_key(m@, a, b);
}

} // verus!
