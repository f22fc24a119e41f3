//! A map from names to values that remembers the order of insertion.

use vstd::prelude::*;

verus! {

/// A map keyed by names. Iteration follows the order in which the names were
/// first inserted.
pub struct NameMap<V> {
    entries: Vec<(String, V)>,
}

impl<V> View for NameMap<V> {
    type V = Map<Seq<char>, V>;

    closed spec fn view(&self) -> Map<Seq<char>, V> {
        Map::new(
            |name: Seq<char>| exists|i: int| #[trigger] self.holds(i, name),
            |name: Seq<char>| self.entries@[choose|i: int| #[trigger] self.holds(i, name)].1,
        )
    }
}

/// The names other than `name`, in their order. No name occurs twice.
pub open spec fn without(names: Seq<Seq<char>>, name: Seq<char>) -> Seq<Seq<char>> {
    if names.contains(name) {
        names.remove(names.index_of(name))
    } else {
        names
    }
}

impl<V: Clone> Clone for NameMap<V> {
    fn clone(&self) -> (r: Self)
        ensures
            self.wf() ==> r.wf(),
            r.names() == self.names(),
            r@.dom() == self@.dom(),
            self.wf() ==> forall|name: Seq<char>| #[trigger]
                r@.dom().contains(name) ==> cloned(self@[name], r@[name]),
    {
        let mut entries: Vec<(String, V)> = Vec::new();
        let mut i: usize = 0;
        while i < self.entries.len()
            invariant
                i <= self.entries@.len(),
                entries@.len() == i,
                forall|j: int|
                    0 <= j < i ==> (#[trigger] entries@[j]).0@ == self.entries@[j].0@ && cloned(
                        self.entries@[j].1,
                        entries@[j].1,
                    ),
            decreases self.entries@.len() - i,
        {
            entries.push((self.entries[i].0.clone(), self.entries[i].1.clone()));
            i += 1;
        }
        let r = NameMap { entries };
        proof {
            assert(r.names() =~= self.names());
            assert forall|n: Seq<char>| r@.dom().contains(n) <==> self@.dom().contains(n) by {
                if r@.dom().contains(n) {
                    let j = choose|j: int| #[trigger] r.holds(j, n);
                    assert(self.holds(j, n));
                }
                if self@.dom().contains(n) {
                    let j = choose|j: int| #[trigger] self.holds(j, n);
                    assert(r.holds(j, n));
                }
            }
            assert(r@.dom() =~= self@.dom());
            if self.wf() {
                assert forall|n: Seq<char>| #[trigger] r@.dom().contains(n) implies cloned(
                    self@[n],
                    r@[n],
                ) by {
                    let j = choose|j: int| #[trigger] r.holds(j, n);
                    r.lemma_at(j);
                    self.lemma_at(j);
                }
            }
        }
        r
    }
}

impl<V> NameMap<V> {
    spec fn holds(&self, i: int, name: Seq<char>) -> bool {
        0 <= i < self.entries@.len() && self.entries@[i].0@ == name
    }

    /// No name occurs twice.
    pub closed spec fn wf(&self) -> bool {
        forall|i: int, j: int|
            0 <= i < self.entries@.len() && 0 <= j < self.entries@.len() && (
            #[trigger] self.entries@[i]).0@ == (#[trigger] self.entries@[j]).0@ ==> i == j
    }

    /// The names in order of first insertion.
    pub closed spec fn names(&self) -> Seq<Seq<char>> {
        Seq::new(self.entries@.len(), |i: int| self.entries@[i].0@)
    }

    /// The names are the keys of the map, each once.
    pub proof fn lemma_names(&self)
        requires
            self.wf(),
        ensures
            self.names().no_duplicates(),
            forall|name: Seq<char>| #[trigger]
                self.names().contains(name) <==> self@.dom().contains(name),
            forall|i: int|
                0 <= i < self.names().len() ==> self@.dom().contains(#[trigger] self.names()[i]),
    {
        assert forall|name: Seq<char>| #[trigger] self.names().contains(name) implies self@.dom().contains(
            name,
        ) by {
            let i = self.names().index_of(name);
            assert(self.holds(i, name));
        }
        assert forall|name: Seq<char>| self@.dom().contains(name) implies #[trigger] self.names().contains(
            name,
        ) by {
            let i = choose|i: int| #[trigger] self.holds(i, name);
            assert(self.names()[i] == name);
        }
        assert forall|i: int| 0 <= i < self.names().len() implies self@.dom().contains(
            #[trigger] self.names()[i],
        ) by {
            assert(self.names().contains(self.names()[i]));
        }
    }

    proof fn lemma_at(&self, i: int)
        requires
            self.wf(),
            0 <= i < self.entries@.len(),
        ensures
            self@.dom().contains(self.entries@[i].0@),
            self@[self.entries@[i].0@] == self.entries@[i].1,
    {
        assert(self.holds(i, self.entries@[i].0@));
    }

    proof fn lemma_update(&self, after: Self, i: int)
        requires
            self.wf(),
            0 <= i < self.entries@.len(),
            after.entries@ == self.entries@.update(
                i,
                (self.entries@[i].0, after.entries@[i].1),
            ),
        ensures
            after.wf(),
            after.names() == self.names(),
            after@ == self@.insert(self.entries@[i].0@, after.entries@[i].1),
    {
        let name = self.entries@[i].0@;
        assert(after.names() =~= self.names());
        assert forall|n: Seq<char>| after@.dom().contains(n) <==> self@.insert(
            name,
            after.entries@[i].1,
        ).dom().contains(n) by {
            if after@.dom().contains(n) {
                let j = choose|j: int| #[trigger] after.holds(j, n);
                assert(self.holds(j, n));
            }
            if self@.dom().contains(n) {
                let j = choose|j: int| #[trigger] self.holds(j, n);
                assert(after.holds(j, n));
            }
            assert(after.holds(i, name));
        }
        assert forall|n: Seq<char>| after@.dom().contains(n) implies after@[n] == self@.insert(
            name,
            after.entries@[i].1,
        )[n] by {
            let j = choose|j: int| #[trigger] after.holds(j, n);
            after.lemma_at(j);
            self.lemma_at(j);
        }
        assert(after@ =~= self@.insert(name, after.entries@[i].1));
    }

    /// The empty map.
    pub fn new() -> (r: Self)
        ensures
            r.wf(),
            r@ == Map::<Seq<char>, V>::empty(),
            r.names() == Seq::<Seq<char>>::empty(),
    {
        let r = NameMap { entries: Vec::new() };
        assert(r@ =~= Map::<Seq<char>, V>::empty());
        r
    }

    fn find(&self, name: &str) -> (r: Option<usize>)
        requires
            self.wf(),
        ensures
            match r {
                Some(i) => self.holds(i as int, name@),
                None => !self@.dom().contains(name@),
            },
    {
        let key = name.to_owned();
        let mut i: usize = 0;
        while i < self.entries.len()
            invariant
                key@ == name@,
                i <= self.entries@.len(),
                forall|j: int| 0 <= j < i ==> !self.holds(j, name@),
            decreases self.entries@.len() - i,
        {
            if self.entries[i].0 == key {
                return Some(i);
            }
            i += 1;
        }
        None
    }

    /// The value stored under `name`.
    pub fn get(&self, name: &str) -> (r: Option<&V>)
        requires
            self.wf(),
        ensures
            match r {
                Some(v) => self@.dom().contains(name@) && *v == self@[name@],
                None => !self@.dom().contains(name@),
            },
    {
        match self.find(name) {
            Some(i) => {
                proof {
                    self.lemma_at(i as int);
                }
                Some(&self.entries[i].1)
            },
            None => None,
        }
    }

    /// The value stored under `name`, open for change.
    pub fn get_mut(&mut self, name: &str) -> (r: Option<&mut V>)
        requires
            old(self).wf(),
        ensures
            final(self).wf(),
            final(self).names() == old(self).names(),
            match r {
                Some(v) => old(self)@.dom().contains(name@) && *v == old(self)@[name@]
                    && final(self)@ == old(self)@.insert(name@, *final(v)),
                None => !old(self)@.dom().contains(name@) && *final(self) == *old(self),
            },
    {
        match self.find(name) {
            Some(i) => {
                proof {
                    self.lemma_at(i as int);
                    let before = *self;
                    assert forall|after: Self|
                        after.entries@.len() == before.entries@.len() && after.entries@ == before.entries@.update(
                            i as int,
                            (before.entries@[i as int].0, after.entries@[i as int].1),
                        ) implies #[trigger] after@ == before@.insert(
                        name@,
                        after.entries@[i as int].1,
                    ) && after.wf() && after.names() == before.names() by {
                        before.lemma_update(after, i as int);
                    }
                }
                Some(&mut self.entries[i].1)
            },
            None => None,
        }
    }

    /// Whether a value is stored under `name`.
    pub fn contains(&self, name: &str) -> (r: bool)
        requires
            self.wf(),
        ensures
            r == self@.dom().contains(name@),
    {
        match self.find(name) {
            Some(i) => {
                proof {
                    self.lemma_at(i as int);
                }
                true
            },
            None => false,
        }
    }

    /// Stores `value` under `name`. A value that was there before is replaced
    /// and the name keeps its place; a new name comes last.
    pub fn insert(&mut self, name: String, value: V)
        requires
            old(self).wf(),
        ensures
            final(self).wf(),
            final(self)@ == old(self)@.insert(name@, value),
            final(self).names() == (if old(self)@.dom().contains(name@) {
                old(self).names()
            } else {
                old(self).names().push(name@)
            }),
    {
        match self.find(name.as_str()) {
            Some(i) => {
                let ghost before = *self;
                proof {
                    self.lemma_at(i as int);
                }
                self.entries[i].1 = value;
                proof {
                    before.lemma_update(*self, i as int);
                }
            },
            None => {
                let ghost before = *self;
                self.entries.push((name, value));
                proof {
                    assert(self.entries@.drop_last() =~= before.entries@);
                    before.lemma_push(*self, name@, value);
                }
            },
        }
    }

    proof fn lemma_push(&self, after: Self, name: Seq<char>, value: V)
        requires
            self.wf(),
            !self@.dom().contains(name),
            after.entries@.len() == self.entries@.len() + 1,
            after.entries@.drop_last() == self.entries@,
            after.entries@.last().0@ == name,
            after.entries@.last().1 == value,
        ensures
            after.wf(),
            after.names() == self.names().push(name),
            after@ == self@.insert(name, value),
    {
        let last = self.entries@.len() as int;
        assert forall|j: int| 0 <= j < last implies after.entries@[j] == #[trigger] self.entries@[j] by {
            assert(after.entries@.drop_last()[j] == after.entries@[j]);
        }
        assert forall|j: int| 0 <= j < last implies (#[trigger] after.entries@[j]).0@ != name by {
            assert(after.entries@[j] == self.entries@[j]);
            self.lemma_at(j);
        }
        assert forall|i: int, j: int|
            0 <= i < after.entries@.len() && 0 <= j < after.entries@.len() && (
            #[trigger] after.entries@[i]).0@ == (#[trigger] after.entries@[j]).0@ implies i == j by {
            if i < last && j < last {
                assert(after.entries@[i] == self.entries@[i]);
                assert(after.entries@[j] == self.entries@[j]);
            }
        }
        assert(after.names() =~= self.names().push(name)) by {
            assert forall|j: int| 0 <= j < last implies after.names()[j] == self.names()[j] by {
                assert(after.entries@[j] == self.entries@[j]);
            }
        }
        assert forall|n: Seq<char>| after@.dom().contains(n) <==> self@.insert(
            name,
            value,
        ).dom().contains(n) by {
            if after@.dom().contains(n) && n != name {
                let j = choose|j: int| #[trigger] after.holds(j, n);
                assert(after.entries@[j] == self.entries@[j]);
                assert(self.holds(j, n));
            }
            if self@.dom().contains(n) {
                let j = choose|j: int| #[trigger] self.holds(j, n);
                assert(after.entries@[j] == self.entries@[j]);
                assert(after.holds(j, n));
            }
            assert(after.holds(last, name));
        }
        assert forall|n: Seq<char>| after@.dom().contains(n) implies after@[n] == self@.insert(
            name,
            value,
        )[n] by {
            let j = choose|j: int| #[trigger] after.holds(j, n);
            after.lemma_at(j);
            if n != name {
                assert(after.entries@[j] == self.entries@[j]);
                self.lemma_at(j);
            }
        }
        assert(after@ =~= self@.insert(name, value));
    }

    /// Forgets `name` and its value; the other names keep their order.
    pub fn remove(&mut self, name: &str)
        requires
            old(self).wf(),
        ensures
            final(self).wf(),
            final(self)@ == old(self)@.remove(name@),
            final(self).names() == without(old(self).names(), name@),
    {
        proof {
            self.lemma_names();
        }
        match self.find(name) {
            Some(i) => {
                let ghost before = *self;
                self.entries.remove(i);
                proof {
                    before.lemma_remove(*self, i as int);
                }
            },
            None => {
                assert(self@.remove(name@) =~= self@);
            },
        }
    }

    proof fn lemma_remove(&self, after: Self, i: int)
        requires
            self.wf(),
            0 <= i < self.entries@.len(),
            after.entries@ == self.entries@.remove(i),
        ensures
            after.wf(),
            after@ == self@.remove(self.entries@[i].0@),
            after.names() == without(self.names(), self.entries@[i].0@),
    {
        let name = self.entries@[i].0@;
        assert(self.names()[i] == name);
        let k = self.names().index_of(name);
        assert(self.names()[k] == name);
        assert(self.entries@[k].0@ == self.entries@[i].0@);
        assert(after.names() =~= self.names().remove(i));
        assert forall|j: int| 0 <= j < after.entries@.len() implies #[trigger] after.entries@[j]
            == self.entries@[if j < i {
            j
        } else {
            j + 1
        }] by {}
        assert forall|n: Seq<char>| after@.dom().contains(n) <==> self@.remove(name).dom().contains(
            n,
        ) by {
            if after@.dom().contains(n) {
                let j = choose|j: int| #[trigger] after.holds(j, n);
                let k = if j < i {
                    j
                } else {
                    j + 1
                };
                assert(after.entries@[j] == self.entries@[k]);
                assert(self.holds(k, n));
            }
            if self@.remove(name).dom().contains(n) {
                let k = choose|k: int| #[trigger] self.holds(k, n);
                let j = if k < i {
                    k
                } else {
                    k - 1
                };
                assert(after.entries@[j] == self.entries@[k]);
                assert(after.holds(j, n));
            }
        }
        assert forall|n: Seq<char>| after@.dom().contains(n) implies after@[n] == self@.remove(
            name,
        )[n] by {
            let j = choose|j: int| #[trigger] after.holds(j, n);
            let k = if j < i {
                j
            } else {
                j + 1
            };
            after.lemma_at(j);
            assert(after.entries@[j] == self.entries@[k]);
            self.lemma_at(k);
        }
        assert(after@ =~= self@.remove(name));
    }

    /// The number of names.
    pub fn len(&self) -> (r: usize)
        ensures
            r == self.names().len(),
    {
        self.entries.len()
    }

    /// The name at place `i` in order of insertion.
    pub fn name_at(&self, i: usize) -> (r: &String)
        requires
            i < self.names().len(),
        ensures
            r@ == self.names()[i as int],
    {
        &self.entries[i].0
    }

    /// The value at place `i` in order of insertion.
    pub fn value_at(&self, i: usize) -> (r: &V)
        requires
            self.wf(),
            i < self.names().len(),
        ensures
            self@.dom().contains(self.names()[i as int]),
            *r == self@[self.names()[i as int]],
    {
        proof {
            self.lemma_at(i as int);
        }
        &self.entries[i].1
    }

    /// The value at place `i` in order of insertion, open for change.
    pub fn value_at_mut(&mut self, i: usize) -> (r: &mut V)
        requires
            old(self).wf(),
            i < old(self).names().len(),
        ensures
            final(self).wf(),
            final(self).names() == old(self).names(),
            *r == old(self)@[old(self).names()[i as int]],
            final(self)@ == old(self)@.insert(old(self).names()[i as int], *final(r)),
    {
        proof {
            self.lemma_at(i as int);
            let before = *self;
            let name = before.entries@[i as int].0@;
            assert forall|after: Self|
                after.entries@.len() == before.entries@.len() && after.entries@ == before.entries@.update(
                    i as int,
                    (before.entries@[i as int].0, after.entries@[i as int].1),
                ) implies #[trigger] after@ == before@.insert(name, after.entries@[i as int].1)
                && after.wf() && after.names() == before.names() by {
                before.lemma_update(after, i as int);
            }
        }
        &mut self.entries[i].1
    }
}

/// To take a name out leaves every other name, in its order, and leaves that name
/// out.
pub proof fn law_other_names_keep_their_order(
    names: Seq<Seq<char>>,
    name: Seq<char>,
    other: Seq<char>,
)
    requires
        names.no_duplicates(),
        other != name,
    ensures
        !without(names, name).contains(name),
        without(names, name).contains(other) <==> names.contains(other),
        without(names, name).no_duplicates(),
        without(names, name) == names.filter(|n: Seq<char>| n != name),
{
    let rest = without(names, name);
    let keep = |n: Seq<char>| n != name;
    crate::sequences::lemma_filter_subset(names, keep);
    if names.contains(name) {
        let k = names.index_of(name);
        assert(names[k] == name);
        let head = names.take(k);
        let tail = names.skip(k + 1);
        assert(names =~= head + seq![name] + tail);
        assert(rest =~= head + tail);
        lemma_all_kept(head, name);
        lemma_all_kept(tail, name);
        Seq::filter_distributes_over_add(head + seq![name], tail, keep);
        Seq::filter_distributes_over_add(head, seq![name], keep);
        assert(seq![name].filter(keep) =~= Seq::empty()) by {
            reveal(Seq::filter);
            assert(seq![name].drop_last() =~= Seq::empty());
        }
        assert(names.filter(keep) =~= head + tail);
    } else {
        lemma_all_kept(names, name);
    }
}

proof fn lemma_all_kept(names: Seq<Seq<char>>, name: Seq<char>)
    requires
        !names.contains(name),
    ensures
        names.filter(|n: Seq<char>| n != name) == names,
    decreases names.len(),
{
    reveal(Seq::filter);
    if names.len() > 0 {
        let init = names.drop_last();
        assert forall|i: int| 0 <= i < init.len() implies init[i] != name by {
            assert(names.contains(names[i]));
        }
        lemma_all_kept(init, name);
        assert(names.contains(names[names.len() - 1]));
        assert(init.push(names.last()) =~= names);
    } else {
        assert(names.filter(|n: Seq<char>| n != name) =~= names);
    }
}

} // verus!
