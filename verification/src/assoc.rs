//! A small association list keyed by strings, with a map view.

use vstd::prelude::*;

verus! {

/// The map denoted by a sequence of entries: later entries win.
pub open spec fn entries_map<V>(entries: Seq<(String, V)>) -> Map<Seq<char>, V>
    decreases entries.len(),
{
    if entries.len() == 0 {
        Map::empty()
    } else {
        entries_map(entries.drop_last()).insert(entries.last().0@, entries.last().1)
    }
}

/// No two entries share a key.
pub open spec fn distinct_keys<V>(entries: Seq<(String, V)>) -> bool {
    forall|i: int, j: int|
        0 <= i < entries.len() && 0 <= j < entries.len() && i != j ==> entries[i].0@ != entries[j].0@
}

/// Keys present in the entries are exactly the domain of the map, and each
/// entry's value is the map's value at its key.
pub proof fn lemma_entries_map<V>(entries: Seq<(String, V)>)
    requires
        distinct_keys(entries),
    ensures
        forall|k: Seq<char>|
            entries_map(entries).dom().contains(k) <==> exists|i: int|
                0 <= i < entries.len() && #[trigger] entries[i].0@ == k,
        forall|i: int|
            0 <= i < entries.len() ==> entries_map(entries)[#[trigger] entries[i].0@] == entries[i].1,
        entries_map(entries).dom().finite(),
        entries_map(entries).dom().len() == entries.len(),
    decreases entries.len(),
{
    if entries.len() > 0 {
        let prefix = entries.drop_last();
        assert(distinct_keys(prefix));
        lemma_entries_map(prefix);
        let last = entries.last();
        assert forall|k: Seq<char>|
            entries_map(entries).dom().contains(k) <==> exists|i: int|
                0 <= i < entries.len() && #[trigger] entries[i].0@ == k by {
            if entries_map(entries).dom().contains(k) {
                if k == last.0@ {
                    assert(entries[entries.len() - 1].0@ == k);
                } else {
                    let i = choose|i: int| 0 <= i < prefix.len() && #[trigger] prefix[i].0@ == k;
                    assert(entries[i].0@ == k);
                }
            }
            if exists|i: int| 0 <= i < entries.len() && #[trigger] entries[i].0@ == k {
                let i = choose|i: int| 0 <= i < entries.len() && #[trigger] entries[i].0@ == k;
                if i < entries.len() - 1 {
                    assert(prefix[i].0@ == k);
                }
            }
        }
        assert forall|i: int|
            0 <= i < entries.len() implies entries_map(entries)[#[trigger] entries[i].0@]
                == entries[i].1 by {
            if i < entries.len() - 1 {
                assert(prefix[i].0@ == entries[i].0@);
                assert(entries[i].0@ != last.0@);
            }
        }
        assert(!entries_map(prefix).dom().contains(last.0@)) by {
            if entries_map(prefix).dom().contains(last.0@) {
                let i = choose|i: int| 0 <= i < prefix.len() && #[trigger] prefix[i].0@ == last.0@;
                assert(entries[i].0@ == entries[entries.len() - 1].0@);
            }
        }
    }
}

/// An association list from strings to values, without repeated keys.
pub struct AssocList<V> {
    pub entries: Vec<(String, V)>,
}

impl<V> AssocList<V> {
    /// The map that the list denotes.
    pub open spec fn map(&self) -> Map<Seq<char>, V> {
        entries_map(self.entries@)
    }

    /// Well-formedness: keys are distinct.
    pub open spec fn wf(&self) -> bool {
        distinct_keys(self.entries@)
    }

    /// An empty list.
    pub fn new() -> (r: Self)
        ensures
            r.wf(),
            r.map() == Map::<Seq<char>, V>::empty(),
    {
        AssocList { entries: Vec::new() }
    }

    /// The number of keys.
    pub fn len(&self) -> (n: usize)
        requires
            self.wf(),
        ensures
            n == self.map().dom().len(),
    {
        proof {
            lemma_entries_map(self.entries@);
        }
        self.entries.len()
    }

    /// The position of `key`, if present.
    pub fn find(&self, key: &String) -> (r: Option<usize>)
        requires
            self.wf(),
        ensures
            r is None <==> !self.map().dom().contains(key@),
            r matches Some(i) ==> i < self.entries@.len() && self.entries@[i as int].0@ == key@
                && self.map()[key@] == self.entries@[i as int].1,
    {
        let mut i: usize = 0;
        while i < self.entries.len()
            invariant
                self.wf(),
                i <= self.entries@.len(),
                forall|j: int| 0 <= j < i ==> self.entries@[j].0@ != key@,
            decreases self.entries@.len() - i,
        {
            if self.entries[i].0.eq(key) {
                proof {
                    lemma_entries_map(self.entries@);
                }
                return Some(i);
            }
            i = i + 1;
        }
        proof {
            lemma_entries_map(self.entries@);
        }
        None
    }

    /// Whether `key` is present.
    pub fn contains(&self, key: &String) -> (b: bool)
        requires
            self.wf(),
        ensures
            b == self.map().dom().contains(key@),
    {
        self.find(key).is_some()
    }

    /// The value at `key`, if present.
    pub fn get(&self, key: &String) -> (r: Option<&V>)
        requires
            self.wf(),
        ensures
            r is None <==> !self.map().dom().contains(key@),
            r matches Some(v) ==> *v == self.map()[key@],
    {
        match self.find(key) {
            Some(i) => Some(&self.entries[i].1),
            None => None,
        }
    }

    /// Binds `key` to `val`, replacing an earlier binding.
    pub fn insert(&mut self, key: String, val: V)
        requires
            old(self).wf(),
        ensures
            final(self).wf(),
            final(self).map() == old(self).map().insert(key@, val),
    {
        proof {
            lemma_entries_map(self.entries@);
        }
        let ghost k = key@;
        match self.find(&key) {
            Some(i) => {
                let ghost old_entries = self.entries@;
                self.entries.set(i, (key, val));
                proof {
                    let e = self.entries@;
                    assert(distinct_keys(e)) by {
                        assert forall|a: int, b: int|
                            0 <= a < e.len() && 0 <= b < e.len() && a != b implies e[a].0@ != e[b].0@ by {
                            assert(old_entries[a].0@ != old_entries[b].0@);
                        }
                    }
                    lemma_entries_map(e);
                    assert(self.map() =~= old(self).map().insert(k, val)) by {
                        assert forall|x: Seq<char>| #[trigger] self.map().dom().contains(x)
                            <==> old(self).map().insert(k, val).dom().contains(x) by {
                            if self.map().dom().contains(x) {
                                let j = choose|j: int| 0 <= j < e.len() && #[trigger] e[j].0@ == x;
                                if j != i {
                                    assert(old_entries[j].0@ == x);
                                }
                            }
                            if old(self).map().dom().contains(x) {
                                let j = choose|j: int| 0 <= j < old_entries.len() && #[trigger] old_entries[j].0@ == x;
                                assert(e[j].0@ == x);
                            }
                        }
                        assert forall|x: Seq<char>| #[trigger] self.map().dom().contains(x)
                            implies self.map()[x] == old(self).map().insert(k, val)[x] by {
                            let j = choose|j: int| 0 <= j < e.len() && #[trigger] e[j].0@ == x;
                            if j != i {
                                assert(old_entries[j].0@ == x);
                                assert(e[j] == old_entries[j]);
                            }
                        }
                    }
                }
            },
            None => {
                let ghost old_entries = self.entries@;
                self.entries.push((key, val));
                proof {
                    let e = self.entries@;
                    assert(e.drop_last() =~= old_entries);
                    assert(distinct_keys(e)) by {
                        assert forall|a: int, b: int|
                            0 <= a < e.len() && 0 <= b < e.len() && a != b implies e[a].0@ != e[b].0@ by {
                            if a < old_entries.len() && b < old_entries.len() {
                                assert(old_entries[a].0@ != old_entries[b].0@);
                            } else if a < old_entries.len() {
                                assert(old_entries[a].0@ == e[a].0@);
                            } else {
                                assert(old_entries[b].0@ == e[b].0@);
                            }
                        }
                    }
                }
            },
        }
    }

    /// Removes the binding of `key`, returning its value if it was present.
    pub fn remove(&mut self, key: &String) -> (r: Option<V>)
        requires
            old(self).wf(),
        ensures
            final(self).wf(),
            final(self).map() == old(self).map().remove(key@),
            r is None <==> !old(self).map().dom().contains(key@),
            r matches Some(v) ==> v == old(self).map()[key@],
    {
        proof {
            lemma_entries_map(self.entries@);
        }
        match self.find(key) {
            Some(i) => {
                let ghost old_entries = self.entries@;
                let (_, v) = self.entries.remove(i);
                proof {
                    let e = self.entries@;
                    assert(e =~= old_entries.remove(i as int));
                    assert(distinct_keys(e)) by {
                        assert forall|a: int, b: int|
                            0 <= a < e.len() && 0 <= b < e.len() && a != b implies e[a].0@ != e[b].0@ by {
                            let oa = if a < i { a } else { a + 1 };
                            let ob = if b < i { b } else { b + 1 };
                            assert(e[a] == old_entries[oa]);
                            assert(e[b] == old_entries[ob]);
                        }
                    }
                    lemma_entries_map(e);
                    assert(self.map() =~= old(self).map().remove(key@)) by {
                        assert forall|x: Seq<char>| #[trigger] self.map().dom().contains(x)
                            <==> old(self).map().remove(key@).dom().contains(x) by {
                            if self.map().dom().contains(x) {
                                let j = choose|j: int| 0 <= j < e.len() && #[trigger] e[j].0@ == x;
                                let oj = if j < i { j } else { j + 1 };
                                assert(e[j] == old_entries[oj]);
                                assert(old_entries[oj].0@ == x);
                                assert(oj != i);
                            }
                            if old(self).map().remove(key@).dom().contains(x) {
                                let j = choose|j: int| 0 <= j < old_entries.len() && #[trigger] old_entries[j].0@ == x;
                                assert(j != i);
                                let nj = if j < i { j } else { j - 1 };
                                assert(e[nj] == old_entries[j]);
                                assert(e[nj].0@ == x);
                            }
                        }
                        assert forall|x: Seq<char>| #[trigger] self.map().dom().contains(x)
                            implies self.map()[x] == old(self).map().remove(key@)[x] by {
                            let j = choose|j: int| 0 <= j < e.len() && #[trigger] e[j].0@ == x;
                            let oj = if j < i { j } else { j + 1 };
                            assert(e[j] == old_entries[oj]);
                            assert(old_entries[oj].0@ == x);
                        }
                    }
                }
                Some(v)
            },
            None => {
                proof {
                    assert(self.map() =~= old(self).map().remove(key@));
                }
                None
            },
        }
    }
}

} // verus!
