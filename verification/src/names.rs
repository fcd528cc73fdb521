//! Collections keyed by text.
use vstd::prelude::*;
use crate::text::same_text;

verus! {

/// A map from text to values. Every key occurs once.
#[derive(Debug)]
pub struct NameMap<V> {
    pub(crate) entries: Vec<(String, V)>,
}

impl<V> NameMap<V> {
    pub closed spec fn well_formed(&self) -> bool {
        forall|i: int, j: int| 0 <= i < j < self.entries@.len() ==> (
            #[trigger] self.entries@[i]
        ).0@ != (#[trigger] self.entries@[j]).0@
    }

    pub closed spec fn key_index(&self, key: Seq<char>) -> int {
        choose|i: int| 0 <= i < self.entries@.len() && (#[trigger] self.entries@[i]).0@ == key
    }

    pub closed spec fn view(&self) -> Map<Seq<char>, V> {
        Map::new(
            |key: Seq<char>| exists|i: int| 0 <= i < self.entries@.len() && (#[trigger] self.entries@[i]).0@ == key,
            |key: Seq<char>| self.entries@[self.key_index(key)].1,
        )
    }

    proof fn lemma_entry(&self, i: int)
        requires
            self.well_formed(),
            0 <= i < self.entries@.len(),
        ensures
            self@.dom().contains(self.entries@[i].0@),
            self@[self.entries@[i].0@] == self.entries@[i].1,
    {
        let key = self.entries@[i].0@;
        let j = self.key_index(key);
        assert(0 <= j < self.entries@.len() && self.entries@[j].0@ == key);
        if j < i {
            assert(self.entries@[j].0@ != self.entries@[i].0@);
        }
        if i < j {
            assert(self.entries@[i].0@ != self.entries@[j].0@);
        }
    }

    pub fn new() -> (result: Self)
        ensures
            result.well_formed(),
            result@ == Map::<Seq<char>, V>::empty(),
    {
        let result = NameMap { entries: Vec::new() };
        assert(result@ =~= Map::<Seq<char>, V>::empty());
        result
    }

    fn position(&self, key: &str) -> (result: Option<usize>)
        requires
            self.well_formed(),
        ensures
            match result {
                Some(i) => i < self.entries@.len() && self.entries@[i as int].0@ == key@,
                None => forall|i: int| 0 <= i < self.entries@.len() ==> (#[trigger] self.entries@[i]).0@ != key@,
            },
    {
        let mut i: usize = 0;
        while i < self.entries.len()
            invariant
                i <= self.entries@.len(),
                forall|k: int| 0 <= k < i ==> (#[trigger] self.entries@[k]).0@ != key@,
            decreases self.entries@.len() - i,
        {
            if same_text(self.entries[i].0.as_str(), key) {
                return Some(i);
            }
            i += 1;
        }
        None
    }

    /// The value bound to `key`.
    pub fn get(&self, key: &str) -> (result: Option<&V>)
        requires
            self.well_formed(),
        ensures
            match result {
                Some(value) => self@.dom().contains(key@) && *value == self@[key@],
                None => !self@.dom().contains(key@),
            },
    {
        match self.position(key) {
            Some(i) => {
                proof {
                    self.lemma_entry(i as int);
                }
                Some(&self.entries[i].1)
            }
            None => None,
        }
    }

    /// Binds `key` to `value`, replacing an earlier binding of `key`.
    pub fn insert(&mut self, key: String, value: V)
        requires
            old(self).well_formed(),
        ensures
            final(self).well_formed(),
            final(self)@ == old(self)@.insert(key@, value),
    {
        let ghost before = *self;
        match self.position(key.as_str()) {
            Some(i) => {
                let ghost name = key@;
                self.entries[i] = (key, value);
                proof {
                    assert forall|k: int| 0 <= k < before.entries@.len() implies (#[trigger] self.entries@[k]).0@
                        == before.entries@[k].0@ by {}
                    assert(self.well_formed());
                    assert(self@ =~= before@.insert(name, value)) by {
                        assert forall|other: Seq<char>| self@.dom().contains(other) <==> before@.insert(
                            name,
                            value,
                        ).dom().contains(other) by {
                            if self@.dom().contains(other) {
                                let k = choose|k: int| 0 <= k < self.entries@.len() && (
                                    #[trigger] self.entries@[k]
                                ).0@ == other;
                                assert(before.entries@[k].0@ == other);
                            }
                            if before@.dom().contains(other) {
                                let k = choose|k: int| 0 <= k < before.entries@.len() && (
                                    #[trigger] before.entries@[k]
                                ).0@ == other;
                                assert(self.entries@[k].0@ == other);
                            }
                            if other == name {
                                assert(self.entries@[i as int].0@ == other);
                            }
                        }
                        assert forall|other: Seq<char>| self@.dom().contains(other) implies self@[other]
                            == before@.insert(name, value)[other] by {
                            let k = self.key_index(other);
                            assert(0 <= k < self.entries@.len() && self.entries@[k].0@ == other);
                            before.lemma_entry(k);
                            self.lemma_entry(k);
                            if k != i as int && other == name {
                                if k < i as int {
                                    assert(self.entries@[k].0@ != self.entries@[i as int].0@);
                                } else {
                                    assert(self.entries@[i as int].0@ != self.entries@[k].0@);
                                }
                            }
                        }
                    }
                }
            }
            None => {
                let ghost name = key@;
                self.entries.push((key, value));
                proof {
                    let last = before.entries@.len() as int;
                    assert forall|k: int| 0 <= k < last implies (
                        #[trigger] self.entries@[k]
                    ) == before.entries@[k] by {}
                    assert(self.well_formed());
                    assert(self@ =~= before@.insert(name, value)) by {
                        self.lemma_entry(last);
                        assert forall|other: Seq<char>| self@.dom().contains(other) <==> before@.insert(
                            name,
                            value,
                        ).dom().contains(other) by {
                            if self@.dom().contains(other) {
                                let k = choose|k: int| 0 <= k < self.entries@.len() && (
                                    #[trigger] self.entries@[k]
                                ).0@ == other;
                                if k < last {
                                    assert(before.entries@[k].0@ == other);
                                }
                            }
                            if before@.dom().contains(other) {
                                let k = choose|k: int| 0 <= k < before.entries@.len() && (
                                    #[trigger] before.entries@[k]
                                ).0@ == other;
                                assert(self.entries@[k].0@ == other);
                            }
                        }
                        assert forall|other: Seq<char>| self@.dom().contains(other) implies self@[other]
                            == before@.insert(name, value)[other] by {
                            let k = self.key_index(other);
                            assert(0 <= k < self.entries@.len() && self.entries@[k].0@ == other);
                            self.lemma_entry(k);
                            if k < last {
                                before.lemma_entry(k);
                            }
                        }
                    }
                }
            }
        }
    }
}

impl<V> NameMap<V> {
    /// Every entry is found under its key.
    pub(crate) proof fn lemma_entries(&self)
        requires
            self.well_formed(),
        ensures
            forall|i: int|
                0 <= i < self.entries@.len() ==> self@.dom().contains((#[trigger] self.entries@[i]).0@)
                    && self@[self.entries@[i].0@] == self.entries@[i].1,
            forall|key: Seq<char>| #[trigger]
                self@.dom().contains(key) ==> exists|i: int|
                    0 <= i < self.entries@.len() && (#[trigger] self.entries@[i]).0@ == key,
    {
        assert forall|i: int| 0 <= i < self.entries@.len() implies self@.dom().contains(
            (#[trigger] self.entries@[i]).0@,
        ) && self@[self.entries@[i].0@] == self.entries@[i].1 by {
            self.lemma_entry(i);
        }
    }

    /// Maps are well formed when their keys are distinct.
    pub(crate) proof fn lemma_distinct(&self)
        ensures
            self.well_formed() <==> forall|i: int, j: int|
                0 <= i < j < self.entries@.len() ==> (
                    #[trigger] self.entries@[i]
                ).0@ != (#[trigger] self.entries@[j]).0@,
    {
    }

    /// Takes the binding of `key` out.
    pub fn remove(&mut self, key: &str) -> (result: Option<V>)
        requires
            old(self).well_formed(),
        ensures
            final(self).well_formed(),
            final(self)@ == old(self)@.remove(key@),
            match result {
                Some(value) => old(self)@.dom().contains(key@) && value == old(self)@[key@],
                None => !old(self)@.dom().contains(key@),
            },
    {
        let ghost before = *self;
        match self.position(key) {
            Some(i) => {
                let entry = self.entries.remove(i);
                proof {
                    before.lemma_entries();
                    assert forall|k: int| 0 <= k < self.entries@.len() implies (#[trigger] self.entries@[k])
                        == before.entries@[if k < i {
                        k
                    } else {
                        k + 1
                    }] by {}
                    assert(self.well_formed());
                    self.lemma_entries();
                    assert forall|other: Seq<char>| self@.dom().contains(other) <==> before@.remove(
                        key@,
                    ).dom().contains(other) by {
                        if self@.dom().contains(other) {
                            let k = choose|k: int| 0 <= k < self.entries@.len() && (
                                #[trigger] self.entries@[k]
                            ).0@ == other;
                            let m = if k < i {
                                k
                            } else {
                                k + 1
                            };
                            assert(before.entries@[m].0@ == other);
                            if k < i {
                                assert(before.entries@[k].0@ != before.entries@[i as int].0@);
                            } else {
                                assert(before.entries@[i as int].0@ != before.entries@[k + 1].0@);
                            }
                        }
                        if before@.dom().contains(other) && other != key@ {
                            let k = choose|k: int| 0 <= k < before.entries@.len() && (
                                #[trigger] before.entries@[k]
                            ).0@ == other;
                            let m = if k < i {
                                k
                            } else {
                                k - 1
                            };
                            assert(self.entries@[m].0@ == other);
                        }
                    }
                    assert forall|other: Seq<char>| self@.dom().contains(other) implies self@[other]
                        == before@[other] by {
                        let k = choose|k: int| 0 <= k < self.entries@.len() && (
                            #[trigger] self.entries@[k]
                        ).0@ == other;
                        let m = if k < i {
                            k
                        } else {
                            k + 1
                        };
                        assert(before.entries@[m] == self.entries@[k]);
                    }
                    assert(self@ =~= before@.remove(key@));
                    before.lemma_entry(i as int);
                }
                Some(entry.1)
            }
            None => {
                assert(self@ =~= before@.remove(key@));
                None
            }
        }
    }
}

impl NameMap<String> {
    /// The bindings read as text.
    pub open spec fn texts(&self) -> Map<Seq<char>, Seq<char>> {
        self@.map_values(|value: String| value@)
    }

    /// The text bound to `key`.
    pub fn lookup(&self, key: &str) -> (result: Option<String>)
        requires
            self.well_formed(),
        ensures
            match result {
                Some(value) => self.texts().dom().contains(key@) && value@ == self.texts()[key@],
                None => !self.texts().dom().contains(key@),
            },
    {
        match self.get(key) {
            Some(value) => Some(value.clone()),
            None => None,
        }
    }

    /// Binds `key` to `value`, replacing an earlier binding of `key`.
    pub fn bind_text(&mut self, key: String, value: String)
        requires
            old(self).well_formed(),
        ensures
            final(self).well_formed(),
            final(self).texts() == old(self).texts().insert(key@, value@),
    {
        let ghost before = self.texts();
        let ghost name = key@;
        let ghost text = value@;
        self.insert(key, value);
        assert(self.texts() =~= before.insert(name, text));
    }

    /// An equal map.
    pub fn copy(&self) -> (result: Self)
        requires
            self.well_formed(),
        ensures
            result.well_formed(),
            result@ == self@,
    {
        let mut entries: Vec<(String, String)> = Vec::new();
        let mut i: usize = 0;
        while i < self.entries.len()
            invariant
                i <= self.entries@.len(),
                entries@ == self.entries@.take(i as int),
            decreases self.entries@.len() - i,
        {
            entries.push((self.entries[i].0.clone(), self.entries[i].1.clone()));
            i += 1;
            assert(entries@ =~= self.entries@.take(i as int));
        }
        assert(entries@ =~= self.entries@);
        let result = NameMap { entries };
        assert(result@ =~= self@);
        result
    }
}

/// Whether `name` occurs in `names`.
pub open spec fn names_contain(names: Seq<String>, name: Seq<char>) -> bool {
    exists|i: int| 0 <= i < names.len() && (#[trigger] names[i])@ == name
}

/// The names as a set.
pub open spec fn name_set(names: Seq<String>) -> Set<Seq<char>> {
    Set::new(|name: Seq<char>| names_contain(names, name))
}

/// After a push, the pushed name and the earlier ones are contained.
pub proof fn lemma_contain_push(names: Seq<String>, name: String)
    ensures
        forall|other: Seq<char>|
            #[trigger] names_contain(names.push(name), other) == (other == name@ || names_contain(names, other)),
{
    let after = names.push(name);
    assert forall|other: Seq<char>|
        #[trigger] names_contain(after, other) == (other == name@ || names_contain(names, other)) by {
        if names_contain(names, other) {
            let k = choose|k: int| 0 <= k < names.len() && (#[trigger] names[k])@ == other;
            assert(after[k]@ == other);
        }
        if other == name@ {
            assert(after[names.len() as int]@ == other);
        }
        if names_contain(after, other) {
            let k = choose|k: int| 0 <= k < after.len() && (#[trigger] after[k])@ == other;
            if k < names.len() {
                assert(names[k]@ == other);
            }
        }
    }
}

/// Whether `name` occurs in `names`.
pub fn has_name(names: &Vec<String>, name: &str) -> (found: bool)
    ensures
        found == names_contain(names@, name@),
{
    let mut i: usize = 0;
    while i < names.len()
        invariant
            i <= names.len(),
            forall|k: int| 0 <= k < i ==> (#[trigger] names@[k])@ != name@,
        decreases names.len() - i,
    {
        if same_text(names[i].as_str(), name) {
            return true;
        }
        i += 1;
    }
    false
}

} // verus!
