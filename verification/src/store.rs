//! An in-memory key-value store of byte strings.
//!
//! This is the concrete state store the verified adapters run against in
//! tests: keys are record identifiers, values are encoded records.  Its
//! mathematical view is a `Map` from key to value bytes.

use vstd::prelude::*;

verus! {

/// The map described by an association list, later entries winning.
pub open spec fn entries_map(s: Seq<(String, Vec<u8>)>) -> Map<Seq<char>, Seq<u8>>
    decreases s.len(),
{
    if s.len() == 0 {
        Map::empty()
    } else {
        entries_map(s.drop_last()).insert(s.last().0@, s.last().1@)
    }
}

/// No two entries share a key.
pub open spec fn keys_unique(s: Seq<(String, Vec<u8>)>) -> bool {
    forall|i: int, j: int| 0 <= i < j < s.len() ==> s[i].0@ != s[j].0@
}

proof fn lemma_entries_map_contains(s: Seq<(String, Vec<u8>)>, k: Seq<char>)
    requires
        entries_map(s).contains_key(k),
    ensures
        exists|i: int| 0 <= i < s.len() && s[i].0@ == k,
    decreases s.len(),
{
    if s.len() > 0 {
        if s.last().0@ == k {
            assert(s[s.len() - 1].0@ == k);
        } else {
            lemma_entries_map_contains(s.drop_last(), k);
            let i = choose|i: int| 0 <= i < s.drop_last().len() && s.drop_last()[i].0@ == k;
            assert(s[i].0@ == k);
        }
    }
}

proof fn lemma_entries_map_index(s: Seq<(String, Vec<u8>)>, i: int)
    requires
        keys_unique(s),
        0 <= i < s.len(),
    ensures
        entries_map(s).contains_key(s[i].0@),
        entries_map(s)[s[i].0@] == s[i].1@,
    decreases s.len(),
{
    if i == s.len() - 1 {
    } else {
        assert(keys_unique(s.drop_last()));
        assert(s.drop_last()[i] == s[i]);
        lemma_entries_map_index(s.drop_last(), i);
        assert(s.last().0@ != s[i].0@);
    }
}

proof fn lemma_entries_map_remove(s: Seq<(String, Vec<u8>)>, i: int)
    requires
        keys_unique(s),
        0 <= i < s.len(),
    ensures
        entries_map(s.remove(i)) == entries_map(s).remove(s[i].0@),
        keys_unique(s.remove(i)),
    decreases s.len(),
{
    let k = s[i].0@;
    assert(keys_unique(s.remove(i))) by {
        assert forall|a: int, b: int| 0 <= a < b < s.remove(i).len() implies s.remove(i)[a].0@
            != s.remove(i)[b].0@ by {
            let a0 = if a < i { a } else { a + 1 };
            let b0 = if b < i { b } else { b + 1 };
            assert(s.remove(i)[a] == s[a0] && s.remove(i)[b] == s[b0]);
        }
    }
    if i == s.len() - 1 {
        assert(s.remove(i) =~= s.drop_last());
        assert(!entries_map(s.drop_last()).contains_key(k)) by {
            if entries_map(s.drop_last()).contains_key(k) {
                lemma_entries_map_contains(s.drop_last(), k);
            }
        }
        assert(entries_map(s.drop_last()) =~= entries_map(s).remove(k));
    } else {
        assert(s.remove(i).last() == s.last());
        assert(s.remove(i).drop_last() =~= s.drop_last().remove(i));
        assert(keys_unique(s.drop_last()));
        assert(s.drop_last()[i] == s[i]);
        lemma_entries_map_remove(s.drop_last(), i);
        let lastk = s.last().0@;
        let lastv = s.last().1@;
        assert(lastk != k);
        assert(entries_map(s.remove(i)) == entries_map(s.drop_last()).remove(k).insert(
            lastk,
            lastv,
        ));
        assert(entries_map(s.drop_last()).remove(k).insert(lastk, lastv) =~= entries_map(
            s.drop_last(),
        ).insert(lastk, lastv).remove(k));
    }
}

proof fn lemma_entries_map_update(s: Seq<(String, Vec<u8>)>, i: int, p: (String, Vec<u8>))
    requires
        keys_unique(s),
        0 <= i < s.len(),
        p.0@ == s[i].0@,
    ensures
        entries_map(s.update(i, p)) == entries_map(s).insert(p.0@, p.1@),
        keys_unique(s.update(i, p)),
    decreases s.len(),
{
    let k = s[i].0@;
    assert(keys_unique(s.update(i, p))) by {
        assert forall|a: int, b: int| 0 <= a < b < s.update(i, p).len() implies s.update(
            i,
            p,
        )[a].0@ != s.update(i, p)[b].0@ by {
            assert(s.update(i, p)[a].0@ == s[a].0@ && s.update(i, p)[b].0@ == s[b].0@);
        }
    }
    if i == s.len() - 1 {
        assert(s.update(i, p).drop_last() =~= s.drop_last());
        assert(s.update(i, p).last() == p);
        assert(entries_map(s.drop_last()).insert(k, p.1@) =~= entries_map(s.drop_last()).insert(
            k,
            s.last().1@,
        ).insert(k, p.1@));
    } else {
        assert(s.update(i, p).last() == s.last());
        assert(s.update(i, p).drop_last() =~= s.drop_last().update(i, p));
        assert(keys_unique(s.drop_last()));
        assert(s.drop_last()[i] == s[i]);
        lemma_entries_map_update(s.drop_last(), i, p);
        let lastk = s.last().0@;
        let lastv = s.last().1@;
        assert(lastk != k);
        assert(entries_map(s.update(i, p)) == entries_map(s.drop_last()).insert(k, p.1@).insert(
            lastk,
            lastv,
        ));
        assert(entries_map(s.drop_last()).insert(k, p.1@).insert(lastk, lastv) =~= entries_map(
            s.drop_last(),
        ).insert(lastk, lastv).insert(k, p.1@));
    }
}

proof fn lemma_entries_map_push(s: Seq<(String, Vec<u8>)>, p: (String, Vec<u8>))
    requires
        keys_unique(s),
        forall|i: int| 0 <= i < s.len() ==> s[i].0@ != p.0@,
    ensures
        entries_map(s.push(p)) == entries_map(s).insert(p.0@, p.1@),
        keys_unique(s.push(p)),
{
    assert(s.push(p).drop_last() =~= s);
    assert(s.push(p).last() == p);
    assert(keys_unique(s.push(p))) by {
        assert forall|a: int, b: int| 0 <= a < b < s.push(p).len() implies s.push(p)[a].0@
            != s.push(p)[b].0@ by {
            if b < s.len() {
                assert(s.push(p)[a] == s[a] && s.push(p)[b] == s[b]);
            } else {
                assert(s.push(p)[a] == s[a] && s.push(p)[b] == p);
            }
        }
    }
}

/// An in-memory store of byte strings keyed by record identifier.
pub struct ByteStore {
    entries: Vec<(String, Vec<u8>)>,
}

impl View for ByteStore {
    type V = Map<Seq<char>, Seq<u8>>;

    closed spec fn view(&self) -> Map<Seq<char>, Seq<u8>> {
        entries_map(self.entries@)
    }
}

impl ByteStore {
    /// Keys are stored at most once.
    pub closed spec fn wf(&self) -> bool {
        keys_unique(self.entries@)
    }

    /// An empty store.
    pub fn new() -> (r: ByteStore)
        ensures
            r.wf(),
            r@ == Map::<Seq<char>, Seq<u8>>::empty(),
    {
        ByteStore { entries: Vec::new() }
    }

    /// The index of the entry holding `key`, if any.
    fn find(&self, key: &String) -> (r: Option<usize>)
        ensures
            match r {
                Some(i) => i < self.entries@.len() && self.entries@[i as int].0@ == key@,
                None => forall|i: int| 0 <= i < self.entries@.len() ==> self.entries@[i].0@ != key@,
            },
    {
        let mut i: usize = 0;
        while i < self.entries.len()
            invariant
                i <= self.entries@.len(),
                forall|j: int| 0 <= j < i ==> self.entries@[j].0@ != key@,
            decreases self.entries@.len() - i,
        {
            if self.entries[i].0 == *key {
                return Some(i);
            }
            i += 1;
        }
        None
    }

    /// The value stored under `key`, if any.
    pub fn get(&self, key: &String) -> (r: Option<&Vec<u8>>)
        requires
            self.wf(),
        ensures
            match r {
                Some(v) => self@.contains_key(key@) && v@ == self@[key@],
                None => !self@.contains_key(key@),
            },
    {
        match self.find(key) {
            Some(i) => {
                proof {
                    lemma_entries_map_index(self.entries@, i as int);
                }
                Some(&self.entries[i].1)
            },
            None => {
                proof {
                    if self@.contains_key(key@) {
                        lemma_entries_map_contains(self.entries@, key@);
                    }
                }
                None
            },
        }
    }

    /// Stores `value` under `key`, replacing any existing value.
    pub fn set(&mut self, key: &String, value: Vec<u8>)
        requires
            old(self).wf(),
        ensures
            final(self).wf(),
            final(self)@ == old(self)@.insert(key@, value@),
    {
        let ghost s0 = self.entries@;
        match self.find(key) {
            Some(i) => {
                let pair = (key.clone(), value);
                proof {
                    lemma_entries_map_update(s0, i as int, pair);
                }
                self.entries[i] = pair;
            },
            None => {
                let pair = (key.clone(), value);
                proof {
                    lemma_entries_map_push(s0, pair);
                }
                self.entries.push(pair);
            },
        }
    }

    /// Removes `key`.  Absence of the key is not an error.
    pub fn remove(&mut self, key: &String)
        requires
            old(self).wf(),
        ensures
            final(self).wf(),
            final(self)@ == old(self)@.remove(key@),
    {
        let ghost s0 = self.entries@;
        match self.find(key) {
            Some(i) => {
                proof {
                    lemma_entries_map_remove(s0, i as int);
                }
                let _ = self.entries.remove(i);
            },
            None => {
                proof {
                    if self@.contains_key(key@) {
                        lemma_entries_map_contains(self.entries@, key@);
                    }
                    assert(self@ =~= self@.remove(key@));
                }
            },
        }
    }
}

} // verus!
