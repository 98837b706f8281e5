//! A map keyed by text, which keeps its entries in the order of their first insertion.
use vstd::prelude::*;

use crate::text::{copy_text, same_text};

verus! {

/// Values by name. No name occurs twice.
#[derive(Debug)]
pub struct NameMap<V> {
    entries: Vec<(String, V)>,
}

impl<V> View for NameMap<V> {
    type V = Map<Seq<char>, V>;

    closed spec fn view(&self) -> Map<Seq<char>, V> {
        Map::new(
            |name: Seq<char>| self.names_list().contains(name),
            |name: Seq<char>| self.entries@[self.names_list().index_of(name)].1,
        )
    }
}

impl<V: Clone> Clone for NameMap<V> {
    /// A copy: the same names in the same order, each with a clone of its value.
    fn clone(&self) -> (r: NameMap<V>)
        ensures
            r.names_list() == self.names_list(),
            forall|name: Seq<char>| #[trigger]
                self@.contains_key(name) ==> r@.contains_key(name) && cloned(
                    self@[name],
                    r@[name],
                ),
    {
        proof {
            use_type_invariant(self);
        }
        let mut entries: Vec<(String, V)> = Vec::new();
        let mut i: usize = 0;
        while i < self.entries.len()
            invariant
                i <= self.entries@.len(),
                entries@.len() == i,
                forall|k: int|
                    0 <= k < i ==> (#[trigger] entries@[k]).0@ == self.entries@[k].0@ && cloned(
                        self.entries@[k].1,
                        entries@[k].1,
                    ),
            decreases self.entries@.len() - i,
        {
            let e = &self.entries[i];
            entries.push((copy_text(e.0.as_str()), e.1.clone()));
            i = i + 1;
        }
        let r = NameMap { entries };
        proof {
            assert(r.names_list() =~= self.names_list());
            assert forall|name: Seq<char>| #[trigger] self@.contains_key(name) implies r@.contains_key(
                name,
            ) && cloned(self@[name], r@[name]) by {
                let k = self.names_list().index_of(name);
                assert(self.names_list()[k] == name);
                assert(entries@[k].0@ == self.entries@[k].0@);
            }
        }
        r
    }
}

impl<V> Default for NameMap<V> {
    fn default() -> (r: NameMap<V>)
        ensures
            r@ == Map::<Seq<char>, V>::empty(),
            r.names_list() == Seq::<Seq<char>>::empty(),
    {
        NameMap::new()
    }
}

impl<V> NameMap<V> {
    /// The names in the order of their first insertion.
    pub closed spec fn names_list(&self) -> Seq<Seq<char>> {
        self.entries@.map_values(|e: (String, V)| e.0@)
    }

    #[verifier::type_invariant]
    spec fn unique(&self) -> bool {
        forall|i: int, j: int|
            0 <= i < j < self.entries@.len() ==> self.entries@[i].0@ != self.entries@[j].0@
    }

    proof fn entry_at(&self, i: int)
        requires
            self.unique(),
            0 <= i < self.entries@.len(),
        ensures
            self@.contains_key(self.entries@[i].0@),
            self@[self.entries@[i].0@] == self.entries@[i].1,
    {
        let name = self.entries@[i].0@;
        assert(self.names_list()[i] == name);
        let k = self.names_list().index_of(name);
        assert(self.names_list()[k] == name);
        assert(k == i);
    }

    /// The listed names are the keys.
    pub proof fn names_are_keys(&self)
        ensures
            forall|name: Seq<char>| self@.contains_key(name) <==> self.names_list().contains(name),
    {
    }

    pub fn new() -> (r: NameMap<V>)
        ensures
            r@ == Map::<Seq<char>, V>::empty(),
            r.names_list() == Seq::<Seq<char>>::empty(),
    {
        let r: NameMap<V> = NameMap { entries: Vec::new() };
        proof {
            assert(r.names_list() =~= Seq::empty());
            assert(r@ =~= Map::empty());
        }
        r
    }

    /// The number of names, each of which is listed once.
    pub fn len(&self) -> (r: usize)
        ensures
            r == self.names_list().len(),
            self.names_list().no_duplicates(),
    {
        proof {
            use_type_invariant(self);
        }
        self.entries.len()
    }

    /// Whether there is no name.
    pub fn is_empty(&self) -> (r: bool)
        ensures
            r == (self.names_list().len() == 0),
            r == (self@ == Map::<Seq<char>, V>::empty()),
    {
        proof {
            if self.entries@.len() > 0 {
                assert(self.names_list().contains(self.names_list()[0]));
                assert(self@.contains_key(self.names_list()[0]));
            } else {
                assert(self@ =~= Map::empty());
            }
        }
        self.entries.len() == 0
    }

    /// Where `name` stands, or the number of entries.
    fn position(&self, name: &str) -> (r: usize)
        ensures
            r <= self.entries@.len(),
            r < self.entries@.len() ==> self.entries@[r as int].0@ == name@,
            r == self.entries@.len() ==> !self@.contains_key(name@),
    {
        let mut i: usize = 0;
        while i < self.entries.len()
            invariant
                i <= self.entries@.len(),
                forall|k: int| 0 <= k < i ==> (#[trigger] self.entries@[k]).0@ != name@,
            decreases self.entries@.len() - i,
        {
            if same_text(self.entries[i].0.as_str(), name) {
                return i;
            }
            i = i + 1;
        }
        proof {
            if self.names_list().contains(name@) {
                let k = self.names_list().index_of(name@);
                assert(self.entries@[k].0@ == name@);
            }
        }
        i
    }

    /// Whether there is a value under `name`.
    pub fn contains_key(&self, name: &str) -> (r: bool)
        ensures
            r == self@.contains_key(name@),
    {
        proof {
            use_type_invariant(self);
        }
        let i = self.position(name);
        if i < self.entries.len() {
            proof {
                self.entry_at(i as int);
            }
            true
        } else {
            false
        }
    }

    /// The value under `name`.
    pub fn get(&self, name: &str) -> (r: Option<&V>)
        ensures
            r is Some <==> self@.contains_key(name@),
            r matches Some(v) ==> *v == self@[name@],
    {
        proof {
            use_type_invariant(self);
        }
        let i = self.position(name);
        if i < self.entries.len() {
            proof {
                self.entry_at(i as int);
            }
            Some(&self.entries[i].1)
        } else {
            None
        }
    }

    /// The name at position `i`.
    pub fn name_at(&self, i: usize) -> (r: &str)
        requires
            i < self.names_list().len(),
        ensures
            r@ == self.names_list()[i as int],
    {
        self.entries[i].0.as_str()
    }

    /// Put `value` under `name`, in the place of what was there.
    pub fn insert(&mut self, name: &str, value: V)
        ensures
            final(self)@ == old(self)@.insert(name@, value),
            final(self).names_list() == (if old(self)@.contains_key(name@) {
                old(self).names_list()
            } else {
                old(self).names_list().push(name@)
            }),
    {
        proof {
            use_type_invariant(&*self);
        }
        let i = self.position(name);
        let n = self.entries.len();
        let mut entries: Vec<(String, V)> = Vec::new();
        std::mem::swap(&mut entries, &mut self.entries);
        let ghost before = *old(self);
        proof {
            if i < n {
                before.entry_at(i as int);
            }
        }
        if i < n {
            entries.set(i, (copy_text(name), value));
        } else {
            entries.push((copy_text(name), value));
        }
        proof {
            assert forall|a: int, b: int| 0 <= a < b < entries@.len() implies entries@[a].0@
                != entries@[b].0@ by {
                if i == n && b == n {
                    before.entry_at(a);
                }
            }
        }
        self.entries = entries;
        proof {
            let now = *self;
            assert(now.names_list() =~= (if before@.contains_key(name@) {
                before.names_list()
            } else {
                before.names_list().push(name@)
            }));
            now.entry_at(i as int);
            assert forall|k: Seq<char>| #[trigger]
                now@.contains_key(k) == before@.insert(name@, value).contains_key(k) by {
                if before.names_list().contains(k) {
                    let j = before.names_list().index_of(k);
                    assert(now.names_list()[j] == k);
                }
                if now.names_list().contains(k) && k != name@ {
                    let j = now.names_list().index_of(k);
                    assert(before.names_list()[j] == k);
                }
            }
            assert forall|k: Seq<char>| #[trigger] now@.contains_key(k) implies now@[k]
                == before@.insert(name@, value)[k] by {
                if k != name@ {
                    let j = before.names_list().index_of(k);
                    before.entry_at(j);
                    now.entry_at(j);
                }
            }
            assert(now@ =~= before@.insert(name@, value));
        }
    }

    /// Take the value under `name` out, if there is one.
    pub fn remove(&mut self, name: &str) -> (r: Option<V>)
        ensures
            r is Some <==> old(self)@.contains_key(name@),
            r matches Some(v) ==> v == old(self)@[name@],
            final(self)@ == old(self)@.remove(name@),
            !old(self)@.contains_key(name@) ==> final(self).names_list() == old(self).names_list(),
            old(self)@.contains_key(name@) ==> final(self).names_list()
                == old(self).names_list().remove(old(self).names_list().index_of(name@)),
    {
        proof {
            use_type_invariant(&*self);
        }
        let i = self.position(name);
        let ghost before = *old(self);
        if i >= self.entries.len() {
            proof {
                assert(self@.remove(name@) =~= self@);
            }
            return None;
        }
        let mut entries: Vec<(String, V)> = Vec::new();
        std::mem::swap(&mut entries, &mut self.entries);
        proof {
            before.entry_at(i as int);
        }
        let e = entries.remove(i);
        self.entries = entries;
        proof {
            let now = *self;
            let p = before.names_list().index_of(name@);
            assert(before.names_list()[i as int] == name@);
            assert(before.names_list()[p] == name@);
            assert(p == i);
            assert(now.names_list() =~= before.names_list().remove(p));
            assert forall|k: Seq<char>| #[trigger]
                now@.contains_key(k) == before@.remove(name@).contains_key(k) by {
                if before.names_list().contains(k) && k != name@ {
                    let j = before.names_list().index_of(k);
                    if j < i {
                        assert(now.names_list()[j] == k);
                    } else {
                        assert(now.names_list()[j - 1] == k);
                    }
                }
                if now.names_list().contains(k) {
                    let j = now.names_list().index_of(k);
                    if j < i {
                        assert(before.names_list()[j] == k);
                        assert(k != name@);
                    } else {
                        assert(before.names_list()[j + 1] == k);
                        assert(k != name@);
                    }
                }
            }
            assert forall|k: Seq<char>| #[trigger] now@.contains_key(k) implies now@[k]
                == before@.remove(name@)[k] by {
                let j = now.names_list().index_of(k);
                now.entry_at(j);
                before.entry_at(if j < i { j } else { j + 1 });
            }
            assert(now@ =~= before@.remove(name@));
        }
        Some(e.1)
    }
}

} // verus!
