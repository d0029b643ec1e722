//! Collections keyed by strings.
//!
//! [`KeyedMap`] keeps one value per key and [`KeySet`] keeps keys alone. The
//! order of the keys is never observed.

use vstd::prelude::*;

verus! {

/// Whether `keep` answers `answer` when it is asked about the string `key`.
pub open spec fn answers<F: Fn(&str) -> bool>(keep: F, key: Seq<char>, answer: bool) -> bool {
    exists|s: &str| s@ == key && #[trigger] call_ensures(keep, (s,), answer)
}

/// Whether `keep` may be asked about any string.
pub open spec fn total<F: Fn(&str) -> bool>(keep: F) -> bool {
    forall|s: &str| #[trigger] call_requires(keep, (s,))
}

/// A map from strings to values.
pub struct KeyedMap<V> {
    entries: Vec<(String, V)>,
}

impl<V> View for KeyedMap<V> {
    type V = Map<Seq<char>, V>;

    closed spec fn view(&self) -> Map<Seq<char>, V> {
        Map::new(
            |k: Seq<char>| exists|i: int| 0 <= i < self.entries.len() && #[trigger] self.entries[i].0@ == k,
            |k: Seq<char>|
                self.entries[choose|i: int|
                    0 <= i < self.entries.len() && #[trigger] self.entries[i].0@ == k].1,
        )
    }
}

impl<V> KeyedMap<V> {
    /// No key occurs twice.
    pub closed spec fn wf(&self) -> bool {
        forall|i: int, j: int|
            0 <= i < j < self.entries.len() ==> #[trigger] self.entries[i].0@
                != #[trigger] self.entries[j].0@
    }

    proof fn lemma_entry(&self, i: int)
        requires
            self.wf(),
            0 <= i < self.entries.len(),
        ensures
            self@.contains_key(self.entries[i].0@),
            self@[self.entries[i].0@] == self.entries[i].1,
    {
        let k = self.entries[i].0@;
        let j = choose|j: int| 0 <= j < self.entries.len() && #[trigger] self.entries[j].0@ == k;
        assert(0 <= j < self.entries.len() && self.entries[j].0@ == k);
        assert(i == j) by {
            if i < j {
                assert(self.entries[i].0@ != self.entries[j].0@);
            } else if j < i {
                assert(self.entries[j].0@ != self.entries[i].0@);
            }
        }
    }

    /// The empty map.
    pub fn new() -> (m: Self)
        ensures
            m.wf(),
            m@ == Map::<Seq<char>, V>::empty(),
    {
        let m = KeyedMap { entries: Vec::new() };
        assert(m@ =~= Map::<Seq<char>, V>::empty());
        m
    }

    fn position(&self, key: &str) -> (p: Option<usize>)
        requires
            self.wf(),
        ensures
            match p {
                Some(i) => {
                    &&& i < self.entries.len()
                    &&& self.entries[i as int].0@ == key@
                    &&& self@.contains_key(key@)
                    &&& self@[key@] == self.entries[i as int].1
                },
                None => !self@.contains_key(key@),
            },
    {
        let wanted = key.to_owned();
        let mut i: usize = 0;
        while i < self.entries.len()
            invariant
                self.wf(),
                wanted@ == key@,
                i <= self.entries.len(),
                forall|j: int| 0 <= j < i ==> #[trigger] self.entries[j].0@ != key@,
            decreases self.entries.len() - i,
        {
            if self.entries[i].0 == wanted {
                proof {
                    self.lemma_entry(i as int);
                }
                return Some(i);
            }
            i += 1;
        }
        None
    }

    /// The value stored under `key`.
    pub fn get(&self, key: &str) -> (v: Option<&V>)
        requires
            self.wf(),
        ensures
            match v {
                Some(v) => self@.contains_key(key@) && self@[key@] == *v,
                None => !self@.contains_key(key@),
            },
    {
        match self.position(key) {
            Some(i) => Some(&self.entries[i].1),
            None => None,
        }
    }

    /// Whether a value is stored under `key`.
    pub fn contains_key(&self, key: &str) -> (found: bool)
        requires
            self.wf(),
        ensures
            found == self@.contains_key(key@),
    {
        self.position(key).is_some()
    }

    fn remove_at(&mut self, i: usize) -> (entry: (String, V))
        requires
            old(self).wf(),
            i < old(self).entries.len(),
        ensures
            final(self).wf(),
            final(self).entries@ == old(self).entries@.remove(i as int),
            entry == old(self).entries[i as int],
            final(self)@ == old(self)@.remove(old(self).entries[i as int].0@),
    {
        let entry = self.entries.remove(i);
        proof {
            let before = *old(self);
            let after = *self;
            let key = before.entries[i as int].0@;
            assert(after.wf()) by {
                assert forall|a: int, b: int| 0 <= a < b < after.entries.len() implies
                    #[trigger] after.entries[a].0@ != #[trigger] after.entries[b].0@ by {
                    let a0 = if a < i { a } else { a + 1 };
                    let b0 = if b < i { b } else { b + 1 };
                    assert(before.entries[a0].0@ != before.entries[b0].0@);
                }
            }
            assert forall|k: Seq<char>| after@.contains_key(k) implies before@.contains_key(k)
                && k != key && after@[k] == before@[k] by {
                let j = choose|j: int|
                    0 <= j < after.entries.len() && #[trigger] after.entries[j].0@ == k;
                let j0 = if j < i { j } else { j + 1 };
                after.lemma_entry(j);
                before.lemma_entry(j0);
                assert(before.entries[j0] == after.entries[j]);
                if j0 < i {
                    assert(before.entries[j0].0@ != before.entries[i as int].0@);
                } else {
                    assert(before.entries[i as int].0@ != before.entries[j0].0@);
                }
            }
            assert forall|k: Seq<char>| before@.contains_key(k) && k != key implies after@.contains_key(
                k,
            ) by {
                let j0 = choose|j: int|
                    0 <= j < before.entries.len() && #[trigger] before.entries[j].0@ == k;
                let j = if j0 < i { j0 } else { j0 - 1 };
                assert(after.entries[j] == before.entries[j0]);
                after.lemma_entry(j);
            }
            before.lemma_entry(i as int);
            assert(after@ =~= before@.remove(key));
        }
        entry
    }

    /// Removes `key`; the result is the value it held.
    pub fn remove(&mut self, key: &str) -> (v: Option<V>)
        requires
            old(self).wf(),
        ensures
            final(self).wf(),
            final(self)@ == old(self)@.remove(key@),
            match v {
                Some(v) => old(self)@.contains_key(key@) && v == old(self)@[key@],
                None => !old(self)@.contains_key(key@),
            },
    {
        match self.position(key) {
            Some(i) => {
                let (_, v) = self.remove_at(i);
                Some(v)
            },
            None => {
                assert(self@ =~= self@.remove(key@));
                None
            },
        }
    }

    /// Stores `value` under `key`, replacing what was there.
    pub fn insert(&mut self, key: String, value: V)
        requires
            old(self).wf(),
        ensures
            final(self).wf(),
            final(self)@ == old(self)@.insert(key@, value),
    {
        let _ = self.remove(key.as_str());
        let ghost before = *self;
        let ghost k0 = key@;
        assert(!before@.contains_key(k0));
        self.entries.push((key, value));
        proof {
            let after = *self;
            let n = before.entries.len() as int;
            assert(after.entries[n].0@ == k0);
            assert forall|a: int| 0 <= a < n implies #[trigger] after.entries[a] == before.entries[a]
                && after.entries[a].0@ != k0 by {
                before.lemma_entry(a);
            }
            assert(after.wf()) by {
                assert forall|a: int, b: int| 0 <= a < b < after.entries.len() implies
                    #[trigger] after.entries[a].0@ != #[trigger] after.entries[b].0@ by {
                    assert(after.entries[a] == before.entries[a]);
                    if b < n {
                        assert(after.entries[b] == before.entries[b]);
                        assert(before.entries[a].0@ != before.entries[b].0@);
                    }
                }
            }
            after.lemma_entry(n);
            assert forall|k: Seq<char>| after@.contains_key(k) && k != k0 implies before@.contains_key(k)
                && after@[k] == before@[k] by {
                let j = choose|j: int|
                    0 <= j < after.entries.len() && #[trigger] after.entries[j].0@ == k;
                after.lemma_entry(j);
                assert(after.entries[j] == before.entries[j]);
                before.lemma_entry(j);
            }
            assert forall|k: Seq<char>| before@.contains_key(k) implies after@.contains_key(k) by {
                let j = choose|j: int|
                    0 <= j < before.entries.len() && #[trigger] before.entries[j].0@ == k;
                assert(after.entries[j] == before.entries[j]);
                after.lemma_entry(j);
            }
            assert(after@ =~= before@.insert(k0, value));
            assert(after@ =~= old(self)@.insert(k0, value));
        }
    }

    /// Drops every key that `keep` turns down.
    pub fn retain<F: Fn(&str) -> bool>(&mut self, keep: &F)
        requires
            old(self).wf(),
            total(*keep),
        ensures
            final(self).wf(),
            final(self)@.dom().subset_of(old(self)@.dom()),
            forall|k: Seq<char>|
                #![trigger final(self)@.contains_key(k)]
                old(self)@.contains_key(k) ==> answers(*keep, k, final(self)@.contains_key(k)),
            forall|k: Seq<char>|
                final(self)@.contains_key(k) ==> #[trigger] final(self)@[k] == old(self)@[k],
    {
        let mut i: usize = 0;
        let ghost before = self@;
        while i < self.entries.len()
            invariant
                self.wf(),
                total(*keep),
                i <= self.entries.len(),
                before == old(self)@,
                self@.dom().subset_of(before.dom()),
                forall|k: Seq<char>| self@.contains_key(k) ==> #[trigger] self@[k] == before[k],
                forall|j: int| 0 <= j < i ==> answers(*keep, #[trigger] self.entries[j].0@, true),
                forall|k: Seq<char>|
                    before.contains_key(k) && !(#[trigger] self@.contains_key(k)) ==> answers(
                        *keep,
                        k,
                        false,
                    ),
            decreases self.entries.len() - i,
        {
            let name = self.entries[i].0.as_str();
            let stays = keep(name);
            assert(answers(*keep, self.entries[i as int].0@, stays));
            if stays {
                i += 1;
            } else {
                let ghost now = *self;
                let _ = self.remove_at(i);
                assert forall|j: int| 0 <= j < i implies answers(
                    *keep,
                    #[trigger] self.entries[j].0@,
                    true,
                ) by {
                    assert(self.entries[j] == now.entries[j]);
                }
            }
        }
        proof {
            assert forall|k: Seq<char>|
                #![trigger self@.contains_key(k)]
                before.contains_key(k) implies answers(*keep, k, self@.contains_key(k)) by {
                if self@.contains_key(k) {
                    let j = choose|j: int|
                        0 <= j < self.entries.len() && #[trigger] self.entries[j].0@ == k;
                    assert(answers(*keep, self.entries[j].0@, true));
                }
            }
        }
    }
}

/// A set of strings.
pub struct KeySet {
    members: KeyedMap<()>,
}

impl View for KeySet {
    type V = Set<Seq<char>>;

    closed spec fn view(&self) -> Set<Seq<char>> {
        self.members@.dom()
    }
}

impl KeySet {
    /// No key occurs twice.
    pub closed spec fn wf(&self) -> bool {
        self.members.wf()
    }

    /// The empty set.
    pub fn new() -> (s: Self)
        ensures
            s.wf(),
            s@ == Set::<Seq<char>>::empty(),
    {
        let s = KeySet { members: KeyedMap::new() };
        assert(s@ =~= Set::<Seq<char>>::empty());
        s
    }

    /// Whether `key` is a member.
    pub fn contains(&self, key: &str) -> (found: bool)
        requires
            self.wf(),
        ensures
            found == self@.contains(key@),
    {
        self.members.contains_key(key)
    }

    /// Makes `key` a member.
    pub fn insert(&mut self, key: String)
        requires
            old(self).wf(),
        ensures
            final(self).wf(),
            final(self)@ == old(self)@.insert(key@),
    {
        let ghost k = key@;
        self.members.insert(key, ());
        assert(self@ =~= old(self)@.insert(k));
    }

    /// Removes `key`; the result says whether it was a member.
    pub fn remove(&mut self, key: &str) -> (found: bool)
        requires
            old(self).wf(),
        ensures
            final(self).wf(),
            final(self)@ == old(self)@.remove(key@),
            found == old(self)@.contains(key@),
    {
        let found = self.members.remove(key).is_some();
        assert(self@ =~= old(self)@.remove(key@));
        found
    }

    /// Drops every member that `keep` turns down.
    pub fn retain<F: Fn(&str) -> bool>(&mut self, keep: &F)
        requires
            old(self).wf(),
            total(*keep),
        ensures
            final(self).wf(),
            final(self)@.subset_of(old(self)@),
            forall|k: Seq<char>|
                #![trigger final(self)@.contains(k)]
                old(self)@.contains(k) ==> answers(*keep, k, final(self)@.contains(k)),
    {
        self.members.retain(keep);
        assert forall|k: Seq<char>|
            #![trigger self@.contains(k)]
            old(self)@.contains(k) implies answers(*keep, k, self@.contains(k)) by {
            assert(self.members@.contains_key(k) == self@.contains(k));
        }
    }
}

} // verus!
