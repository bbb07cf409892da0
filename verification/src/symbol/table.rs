//! A table from names to values. No name occurs twice in it.

use vstd::prelude::*;
use crate::symbol::{Symbol, SymbolView};
use crate::text::str_eq;

verus! {

#[derive(Debug)]
pub struct NameTable<T: View> {
    entries: Vec<(String, T)>,
}

impl<T: View> View for NameTable<T> {
    type V = Map<Seq<char>, T::V>;

    closed spec fn view(&self) -> Map<Seq<char>, T::V> {
        Map::new(
            |k: Seq<char>| self.has(k),
            |k: Seq<char>| self.entries[self.index_of(k)].1@,
        )
    }
}

impl<T: View> NameTable<T> {
    #[verifier::type_invariant]
    closed spec fn distinct(self) -> bool {
        forall|i: int, j: int|
            #![trigger self.entries[i], self.entries[j]]
            0 <= i < j < self.entries.len() ==> self.entries[i].0@ != self.entries[j].0@
    }

    closed spec fn has(self, k: Seq<char>) -> bool {
        exists|i: int| 0 <= i < self.entries.len() && (#[trigger] self.entries[i]).0@ == k
    }

    closed spec fn index_of(self, k: Seq<char>) -> int {
        choose|i: int| 0 <= i < self.entries.len() && (#[trigger] self.entries[i]).0@ == k
    }

    /// The table without any name.
    pub fn new() -> (t: Self)
        ensures
            t@ == Map::<Seq<char>, T::V>::empty(),
    {
        let t = NameTable { entries: Vec::new() };
        assert(t@ =~= Map::<Seq<char>, T::V>::empty());
        t
    }

    /// Where `name` stands among the entries.
    fn position(&self, name: &str) -> (r: Option<usize>)
        ensures
            match r {
                Some(i) => i < self.entries.len() && self.entries[i as int].0@ == name@
                    && self.index_of(name@) == i && self.has(name@),
                None => !self.has(name@),
            },
    {
        proof {
            use_type_invariant(self);
        }
        let mut i: usize = 0;
        while i < self.entries.len()
            invariant
                0 <= i <= self.entries.len(),
                self.distinct(),
                forall|j: int| 0 <= j < i ==> (#[trigger] self.entries[j]).0@ != name@,
            decreases self.entries.len() - i,
        {
            if str_eq(self.entries[i].0.as_str(), name) {
                proof {
                    assert(self.entries[i as int].0@ == name@);
                    let j = self.index_of(name@);
                    if j < i {
                        assert(self.entries[j].0@ != self.entries[i as int].0@);
                    }
                    if i < j {
                        assert(self.entries[i as int].0@ != self.entries[j].0@);
                    }
                }
                return Some(i);
            }
            i = i + 1;
        }
        None
    }

    /// Whether the table holds `name`.
    pub fn contains_key(&self, name: &str) -> (b: bool)
        ensures
            b == self@.dom().contains(name@),
    {
        self.position(name).is_some()
    }

    /// The value that the table holds for `name`.
    pub fn get(&self, name: &str) -> (r: Option<&T>)
        ensures
            r is Some <==> self@.dom().contains(name@),
            r matches Some(v) ==> v@ == self@[name@],
    {
        match self.position(name) {
            Some(i) => Some(&self.entries[i].1),
            None => None,
        }
    }

    /// Sets the value for `name`, which replaces the one that was there.
    pub fn insert(&mut self, name: String, value: T)
        ensures
            final(self)@ == old(self)@.insert(name@, value@),
    {
        proof {
            use_type_invariant(&*self);
        }
        let ghost before = *self;
        match self.position(name.as_str()) {
            Some(i) => {
                let mut taken = NameTable { entries: Vec::new() };
                core::mem::swap(self, &mut taken);
                let mut entries = taken.entries;
                let _ = entries.swap_remove(i);
                entries.push((name, value));
                let ghost n = before.entries.len() as int;
                assert forall|a: int, b: int|
                    #![trigger entries[a], entries[b]]
                    0 <= a < b < entries.len() implies entries[a].0@ != entries[b].0@ by {
                    let pa = if a == i { n - 1 } else { a };
                    let pb = if b == n - 1 { i as int } else if b == i { n - 1 } else { b };
                    assert(before.entries[pa].0@ == entries[a].0@);
                    assert(before.entries[pb].0@ == entries[b].0@);
                }
                *self = NameTable { entries };
                assert forall|k: Seq<char>| self.has(k) == (before.has(k) || k == name@) by {
                    if self.has(k) {
                        let a = self.index_of(k);
                        let pa = if a == n - 1 { i as int } else if a == i { n - 1 } else { a };
                        assert(before.entries[pa].0@ == k);
                    }
                    if before.has(k) {
                        let a = before.index_of(k);
                        let pa = if a == i { n - 1 } else if a == n - 1 { i as int } else { a };
                        assert(self.entries[pa].0@ == k);
                    }
                    if k == name@ {
                        assert(self.entries[n - 1].0@ == k);
                    }
                }
                assert forall|k: Seq<char>| self.has(k) implies self.entries[self.index_of(k)].1@
                    == (if k == name@ {
                    value@
                } else {
                    before.entries[before.index_of(k)].1@
                }) by {
                    let a = self.index_of(k);
                    if k == name@ {
                        assert(self.entries[n - 1].0@ == k);
                    } else {
                        let pa = if a == i { n - 1 } else { a };
                        assert(before.entries[pa].0@ == k);
                        assert(before.index_of(k) == pa);
                    }
                }
                assert(self@ =~= before@.insert(name@, value@));
            },
            None => {
                let mut taken = NameTable { entries: Vec::new() };
                core::mem::swap(self, &mut taken);
                let mut entries = taken.entries;
                entries.push((name, value));
                let ghost n = before.entries.len() as int;
                assert forall|a: int, b: int|
                    #![trigger entries[a], entries[b]]
                    0 <= a < b < entries.len() implies entries[a].0@ != entries[b].0@ by {
                    if b == n {
                        assert(before.entries[a].0@ != name@);
                    } else {
                        assert(before.entries[a].0@ != before.entries[b].0@);
                    }
                }
                *self = NameTable { entries };
                assert forall|k: Seq<char>| self.has(k) == (before.has(k) || k == name@) by {
                    if self.has(k) {
                        let a = self.index_of(k);
                        if a < n {
                            assert(before.entries[a].0@ == k);
                        }
                    }
                    if before.has(k) {
                        let a = before.index_of(k);
                        assert(self.entries[a].0@ == k);
                    }
                    if k == name@ {
                        assert(self.entries[n].0@ == k);
                    }
                }
                assert forall|k: Seq<char>| self.has(k) implies self.entries[self.index_of(k)].1@
                    == (if k == name@ {
                    value@
                } else {
                    before.entries[before.index_of(k)].1@
                }) by {
                    let a = self.index_of(k);
                    if k == name@ {
                        assert(self.entries[n].0@ == k);
                    } else {
                        assert(before.entries[a].0@ == k);
                        assert(before.index_of(k) == a);
                    }
                }
                assert(self@ =~= before@.insert(name@, value@));
            },
        }
    }

    /// Takes `name` and its value out of the table.
    pub fn remove(&mut self, name: &str) -> (r: Option<T>)
        ensures
            final(self)@ == old(self)@.remove(name@),
            r is Some <==> old(self)@.dom().contains(name@),
            r matches Some(v) ==> v@ == old(self)@[name@],
    {
        proof {
            use_type_invariant(&*self);
        }
        let ghost before = *self;
        match self.position(name) {
            Some(i) => {
                let mut taken = NameTable { entries: Vec::new() };
                core::mem::swap(self, &mut taken);
                let mut entries = taken.entries;
                let entry = entries.swap_remove(i);
                let ghost n = before.entries.len() as int;
                assert forall|a: int, b: int|
                    #![trigger entries[a], entries[b]]
                    0 <= a < b < entries.len() implies entries[a].0@ != entries[b].0@ by {
                    let pa = if a == i { n - 1 } else { a };
                    let pb = if b == i { n - 1 } else { b };
                    assert(before.entries[pa].0@ == entries[a].0@);
                    assert(before.entries[pb].0@ == entries[b].0@);
                }
                *self = NameTable { entries };
                assert forall|k: Seq<char>| self.has(k) == (before.has(k) && k != name@) by {
                    if self.has(k) {
                        let a = self.index_of(k);
                        let pa = if a == i { n - 1 } else { a };
                        assert(before.entries[pa].0@ == k);
                        assert(before.entries[i as int].0@ == name@);
                    }
                    if before.has(k) && k != name@ {
                        let a = before.index_of(k);
                        let pa = if a == n - 1 { i as int } else { a };
                        assert(self.entries[pa].0@ == k);
                    }
                }
                assert forall|k: Seq<char>| self.has(k) implies self.entries[self.index_of(k)].1@
                    == before.entries[before.index_of(k)].1@ by {
                    let a = self.index_of(k);
                    let pa = if a == i { n - 1 } else { a };
                    assert(before.entries[pa].0@ == k);
                    assert(before.index_of(k) == pa);
                }
                assert(self@ =~= before@.remove(name@));
                Some(entry.1)
            },
            None => {
                assert(self@ =~= before@.remove(name@));
                None
            },
        }
    }

    /// How many names the table holds.
    pub fn len(&self) -> (n: usize)
        ensures
            n == self@.dom().len(),
            self@.dom().finite(),
    {
        proof {
            use_type_invariant(self);
            self.lemma_count(self.entries.len() as int);
            assert(self@.dom() =~= Set::new(|k: Seq<char>| self.has_below(k, self.entries.len() as int)));
        }
        self.entries.len()
    }

    closed spec fn has_below(self, k: Seq<char>, n: int) -> bool {
        exists|i: int| 0 <= i < n && (#[trigger] self.entries[i]).0@ == k
    }

    proof fn lemma_count(self, n: int)
        requires
            self.distinct(),
            0 <= n <= self.entries.len(),
        ensures
            Set::new(|k: Seq<char>| self.has_below(k, n)).finite(),
            Set::new(|k: Seq<char>| self.has_below(k, n)).len() == n,
        decreases n,
    {
        let s = Set::new(|k: Seq<char>| self.has_below(k, n));
        if n == 0 {
            assert(s =~= Set::<Seq<char>>::empty());
        } else {
            self.lemma_count(n - 1);
            let prev = Set::new(|k: Seq<char>| self.has_below(k, n - 1));
            let key = self.entries[n - 1].0@;
            assert(!prev.contains(key)) by {
                if prev.contains(key) {
                    let i = choose|i: int| 0 <= i < n - 1 && (#[trigger] self.entries[i]).0@ == key;
                    assert(self.entries[i].0@ != self.entries[n - 1].0@);
                }
            }
            assert(s =~= prev.insert(key)) by {
                assert forall|k: Seq<char>| s.contains(k) == prev.insert(key).contains(k) by {
                    if s.contains(k) {
                        let i = choose|i: int| 0 <= i < n && (#[trigger] self.entries[i]).0@ == k;
                        if i < n - 1 {
                            assert(self.has_below(k, n - 1));
                        }
                    }
                    if prev.contains(k) {
                        let i = choose|i: int| 0 <= i < n - 1 && (#[trigger] self.entries[i]).0@ == k;
                        assert(self.has_below(k, n));
                    }
                    if k == key {
                        assert(self.entries[n - 1].0@ == k);
                        assert(self.has_below(k, n));
                    }
                }
            }
        }
    }
}

/// How many of the members are fields.
pub open spec fn field_count(members: Map<Seq<char>, SymbolView>) -> nat {
    members.dom().filter(|k: Seq<char>| members[k] is Var).len()
}

impl NameTable<Symbol> {
    closed spec fn is_field_below(self, k: Seq<char>, n: int) -> bool {
        exists|i: int| 0 <= i < n && (#[trigger] self.entries[i]).0@ == k && self.entries[i].1 is Var
    }

    proof fn lemma_field_count(self, n: int)
        requires
            self.distinct(),
            0 <= n <= self.entries.len(),
        ensures
            Set::new(|k: Seq<char>| self.is_field_below(k, n)).finite(),
            Set::new(|k: Seq<char>| self.is_field_below(k, n)).len() <= n,
        decreases n,
    {
        let s = Set::new(|k: Seq<char>| self.is_field_below(k, n));
        if n == 0 {
            assert(s =~= Set::<Seq<char>>::empty());
        } else {
            self.lemma_field_count(n - 1);
            let prev = Set::new(|k: Seq<char>| self.is_field_below(k, n - 1));
            let key = self.entries[n - 1].0@;
            if self.entries[n - 1].1 is Var {
                assert(s =~= prev.insert(key)) by {
                    assert forall|k: Seq<char>| s.contains(k) == prev.insert(key).contains(k) by {
                        if s.contains(k) {
                            let i = choose|i: int|
                                0 <= i < n && (#[trigger] self.entries[i]).0@ == k
                                    && self.entries[i].1 is Var;
                            if i < n - 1 {
                                assert(self.is_field_below(k, n - 1));
                            }
                        }
                        if prev.contains(k) {
                            let i = choose|i: int|
                                0 <= i < n - 1 && (#[trigger] self.entries[i]).0@ == k
                                    && self.entries[i].1 is Var;
                            assert(self.is_field_below(k, n));
                        }
                        if k == key {
                            assert(self.entries[n - 1].0@ == k);
                            assert(self.is_field_below(k, n));
                        }
                    }
                }
            } else {
                assert(s =~= prev) by {
                    assert forall|k: Seq<char>| s.contains(k) == prev.contains(k) by {
                        if s.contains(k) {
                            let i = choose|i: int|
                                0 <= i < n && (#[trigger] self.entries[i]).0@ == k
                                    && self.entries[i].1 is Var;
                            assert(i < n - 1);
                            assert(self.is_field_below(k, n - 1));
                        }
                        if prev.contains(k) {
                            let i = choose|i: int|
                                0 <= i < n - 1 && (#[trigger] self.entries[i]).0@ == k
                                    && self.entries[i].1 is Var;
                            assert(self.is_field_below(k, n));
                        }
                    }
                }
            }
        }
    }

    proof fn lemma_field_step(self, n: int)
        requires
            self.distinct(),
            0 < n <= self.entries.len(),
        ensures
            Set::new(|k: Seq<char>| self.is_field_below(k, n)).len() == Set::new(
                |k: Seq<char>| self.is_field_below(k, n - 1),
            ).len() + (if self.entries[n - 1].1 is Var {
                1int
            } else {
                0int
            }),
    {
        let s = Set::new(|k: Seq<char>| self.is_field_below(k, n));
        let prev = Set::new(|k: Seq<char>| self.is_field_below(k, n - 1));
        self.lemma_field_count(n - 1);
        let key = self.entries[n - 1].0@;
        if self.entries[n - 1].1 is Var {
            assert(!prev.contains(key)) by {
                if prev.contains(key) {
                    let i = choose|i: int|
                        0 <= i < n - 1 && (#[trigger] self.entries[i]).0@ == key
                            && self.entries[i].1 is Var;
                    assert(self.entries[i].0@ != self.entries[n - 1].0@);
                }
            }
            assert(s =~= prev.insert(key)) by {
                assert forall|k: Seq<char>| s.contains(k) == prev.insert(key).contains(k) by {
                    if s.contains(k) {
                        let i = choose|i: int|
                            0 <= i < n && (#[trigger] self.entries[i]).0@ == k
                                && self.entries[i].1 is Var;
                        if i < n - 1 {
                            assert(self.is_field_below(k, n - 1));
                        }
                    }
                    if prev.contains(k) {
                        let i = choose|i: int|
                            0 <= i < n - 1 && (#[trigger] self.entries[i]).0@ == k
                                && self.entries[i].1 is Var;
                        assert(self.is_field_below(k, n));
                    }
                    if k == key {
                        assert(self.entries[n - 1].0@ == k);
                        assert(self.is_field_below(k, n));
                    }
                }
            }
        } else {
            assert(s =~= prev) by {
                assert forall|k: Seq<char>| s.contains(k) == prev.contains(k) by {
                    if s.contains(k) {
                        let i = choose|i: int|
                            0 <= i < n && (#[trigger] self.entries[i]).0@ == k
                                && self.entries[i].1 is Var;
                        assert(i < n - 1);
                        assert(self.is_field_below(k, n - 1));
                    }
                    if prev.contains(k) {
                        let i = choose|i: int|
                            0 <= i < n - 1 && (#[trigger] self.entries[i]).0@ == k
                                && self.entries[i].1 is Var;
                        assert(self.is_field_below(k, n));
                    }
                }
            }
        }
    }

    /// How many of the members are fields.
    pub fn field_count(&self) -> (n: usize)
        ensures
            n == field_count(self@),
    {
        proof {
            use_type_invariant(self);
        }
        let mut n: usize = 0;
        let mut i: usize = 0;
        assert(Set::new(|k: Seq<char>| self.is_field_below(k, 0)) =~= Set::<Seq<char>>::empty());
        while i < self.entries.len()
            invariant
                0 <= i <= self.entries.len(),
                self.distinct(),
                n <= i,
                n == Set::new(|k: Seq<char>| self.is_field_below(k, i as int)).len(),
            decreases self.entries.len() - i,
        {
            proof {
                self.lemma_field_step(i + 1);
            }
            if matches!(self.entries[i].1, Symbol::Var { .. }) {
                n = n + 1;
            }
            i = i + 1;
        }
        proof {
            let all = Set::new(|k: Seq<char>| self.is_field_below(k, self.entries.len() as int));
            let wanted = self@.dom().filter(|k: Seq<char>| self@[k] is Var);
            assert(all =~= wanted) by {
                assert forall|k: Seq<char>| all.contains(k) == wanted.contains(k) by {
                    if all.contains(k) {
                        let j = choose|j: int|
                            0 <= j < self.entries.len() && (#[trigger] self.entries[j]).0@ == k
                                && self.entries[j].1 is Var;
                        assert(self.has(k));
                        let c = self.index_of(k);
                        if c < j {
                            assert(self.entries[c].0@ != self.entries[j].0@);
                        }
                        if j < c {
                            assert(self.entries[j].0@ != self.entries[c].0@);
                        }
                    }
                    if wanted.contains(k) {
                        let c = self.index_of(k);
                        assert(self.entries[c].0@ == k);
                        assert(self.is_field_below(k, self.entries.len() as int));
                    }
                }
            }
        }
        n
    }
}

} // verus!
