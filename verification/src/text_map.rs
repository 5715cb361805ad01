//! A map keyed by text, kept as a list of entries with distinct keys in the
//! order in which the keys were first inserted.

use vstd::prelude::*;

verus! {

/// A map from text keys to values.
#[derive(Debug)]
pub struct TextMap<V> {
    entries: Vec<(String, V)>,
}

impl<V> TextMap<V> {
    /// No key occurs twice among the entries.
    #[verifier::type_invariant]
    spec fn keys_distinct(self) -> bool {
        forall|i: int, j: int|
            0 <= i < j < self.entries@.len() ==> #[trigger] self.entries@[i].0@
                != #[trigger] self.entries@[j].0@
    }

    /// The keys, in the order in which they were first inserted.
    pub closed spec fn key_seq(self) -> Seq<Seq<char>> {
        self.entries@.map_values(|e: (String, V)| e.0@)
    }

    /// The index of the entry that holds `k`.
    spec fn index_of(self, k: Seq<char>) -> int {
        choose|i: int| 0 <= i < self.entries@.len() && self.entries@[i].0@ == k
    }

    /// The mapping from keys to values.
    pub closed spec fn view(self) -> Map<Seq<char>, V> {
        Map::new(
            |k: Seq<char>| exists|i: int| 0 <= i < self.entries@.len() && self.entries@[i].0@ == k,
            |k: Seq<char>| self.entries@[self.index_of(k)].1,
        )
    }

    proof fn lemma_entry(self, i: int)
        requires
            self.keys_distinct(),
            0 <= i < self.entries@.len(),
        ensures
            self.view().contains_key(self.entries@[i].0@),
            self.view()[self.entries@[i].0@] == self.entries@[i].1,
            self.index_of(self.entries@[i].0@) == i,
    {
        let k = self.entries@[i].0@;
        assert(self.view().contains_key(k));
        let j = self.index_of(k);
        if j != i {
            if j < i {
                assert(self.entries@[j].0@ != self.entries@[i].0@);
            } else {
                assert(self.entries@[i].0@ != self.entries@[j].0@);
            }
        }
    }

    /// The empty map.
    pub fn new() -> (r: TextMap<V>)
        ensures
            r.view() == Map::<Seq<char>, V>::empty(),
            r.key_seq() == Seq::<Seq<char>>::empty(),
    {
        let r = TextMap { entries: Vec::new() };
        assert(r.view() =~= Map::<Seq<char>, V>::empty());
        assert(r.key_seq() =~= Seq::<Seq<char>>::empty());
        r
    }

    /// The number of keys.
    pub fn len(&self) -> (r: usize)
        ensures
            r == self.view().len(),
            r == self.key_seq().len(),
    {
        proof {
            use_type_invariant(self);
            self.lemma_len();
        }
        self.entries.len()
    }

    proof fn lemma_len(self)
        requires
            self.keys_distinct(),
        ensures
            self.view().len() == self.entries@.len(),
            self.view().dom() == self.key_seq().to_set(),
            self.key_seq().no_duplicates(),
    {
        let ks = self.key_seq();
        assert forall|i: int, j: int| 0 <= i < ks.len() && 0 <= j < ks.len() && i != j implies ks[i]
            != ks[j] by {
            if i < j {
                assert(self.entries@[i].0@ != self.entries@[j].0@);
            } else {
                assert(self.entries@[j].0@ != self.entries@[i].0@);
            }
        }
        assert forall|k: Seq<char>| self.view().dom().contains(k) <==> ks.to_set().contains(k) by {
            if self.view().dom().contains(k) {
                let i = choose|i: int| 0 <= i < self.entries@.len() && self.entries@[i].0@ == k;
                assert(ks[i] == k);
            }
            if ks.to_set().contains(k) {
                let i = choose|i: int| 0 <= i < ks.len() && ks[i] == k;
                assert(self.entries@[i].0@ == k);
            }
        }
        assert(self.view().dom() =~= ks.to_set());
        ks.unique_seq_to_set();
    }

    /// The position of `key` among the entries, if it is there.
    fn find(&self, key: &String) -> (r: Option<usize>)
        ensures
            match r {
                Some(i) => i < self.entries@.len() && self.entries@[i as int].0@ == key@,
                None => !self.view().contains_key(key@),
            },
    {
        let mut i: usize = 0;
        while i < self.entries.len()
            invariant
                i <= self.entries@.len(),
                forall|j: int| 0 <= j < i ==> self.entries@[j].0@ != key@,
            decreases self.entries@.len() - i,
        {
            if self.entries[i].0 == *key {
                return Some(i);
            }
            i = i + 1;
        }
        None
    }

    /// Whether `key` has a value.
    pub fn contains_key(&self, key: &str) -> (r: bool)
        ensures
            r == self.view().contains_key(key@),
    {
        proof {
            use_type_invariant(self);
        }
        let k = String::from_str(key);
        match self.find(&k) {
            Some(i) => {
                proof {
                    self.lemma_entry(i as int);
                }
                true
            },
            None => false,
        }
    }

    /// The value of `key`, if it has one.
    pub fn get(&self, key: &str) -> (r: Option<&V>)
        ensures
            match r {
                Some(v) => self.view().contains_key(key@) && *v == self.view()[key@],
                None => !self.view().contains_key(key@),
            },
    {
        proof {
            use_type_invariant(self);
        }
        let k = String::from_str(key);
        match self.find(&k) {
            Some(i) => {
                proof {
                    self.lemma_entry(i as int);
                }
                Some(&self.entries[i].1)
            },
            None => None,
        }
    }

    /// Sets the value of `key`, replacing any value it had. A new key goes
    /// after the keys already there.
    pub fn insert(&mut self, key: String, value: V)
        ensures
            final(self).view() == old(self).view().insert(key@, value),
            old(self).view().contains_key(key@) ==> final(self).key_seq() == old(self).key_seq(),
            !old(self).view().contains_key(key@) ==> final(self).key_seq() == old(self).key_seq().push(
                key@,
            ),
    {
        proof {
            use_type_invariant(&*self);
        }
        let ghost old_self = *self;
        let found = self.find(&key);
        let mut entries: Vec<(String, V)> = Vec::new();
        std::mem::swap(&mut entries, &mut self.entries);
        match found {
            Some(i) => {
                let ghost k = key@;
                entries.set(i, (key, value));
                self.entries = entries;
                proof {
                    assert(self.keys_distinct()) by {
                        assert forall|a: int, b: int|
                            0 <= a < b < self.entries@.len() implies #[trigger] self.entries@[a].0@
                            != #[trigger] self.entries@[b].0@ by {
                            assert(old_self.entries@[a].0@ != old_self.entries@[b].0@);
                        }
                    }
                    old_self.lemma_entry(i as int);
                    self.lemma_entry(i as int);
                    assert forall|kk: Seq<char>| #[trigger]
                        self.view().contains_key(kk) == old_self.view().insert(k, value).contains_key(
                            kk,
                        ) by {
                        if old_self.view().contains_key(kk) {
                            let j = choose|j: int|
                                0 <= j < old_self.entries@.len() && old_self.entries@[j].0@ == kk;
                            assert(self.entries@[j].0@ == kk);
                        }
                        if self.view().contains_key(kk) {
                            let j = choose|j: int|
                                0 <= j < self.entries@.len() && self.entries@[j].0@ == kk;
                            assert(old_self.entries@[j].0@ == kk);
                        }
                    }
                    assert forall|kk: Seq<char>|
                        self.view().contains_key(kk) && kk != k implies self.view()[kk]
                        == old_self.view()[kk] by {
                        let j = choose|j: int|
                            0 <= j < self.entries@.len() && self.entries@[j].0@ == kk;
                        self.lemma_entry(j);
                        old_self.lemma_entry(j);
                    }
                    assert(self.view() =~= old_self.view().insert(k, value));
                    assert(self.key_seq() =~= old_self.key_seq());
                }
            },
            None => {
                let ghost k = key@;
                entries.push((key, value));
                self.entries = entries;
                proof {
                    assert(self.keys_distinct()) by {
                        assert forall|a: int, b: int|
                            0 <= a < b < self.entries@.len() implies #[trigger] self.entries@[a].0@
                            != #[trigger] self.entries@[b].0@ by {
                            if b < old_self.entries@.len() {
                                assert(old_self.entries@[a].0@ != old_self.entries@[b].0@);
                            } else {
                                assert(old_self.entries@[a].0@ != k);
                            }
                        }
                    }
                    let n = old_self.entries@.len() as int;
                    self.lemma_entry(n);
                    assert forall|kk: Seq<char>| #[trigger]
                        self.view().contains_key(kk) == old_self.view().insert(k, value).contains_key(
                            kk,
                        ) by {
                        if old_self.view().contains_key(kk) {
                            let j = choose|j: int|
                                0 <= j < old_self.entries@.len() && old_self.entries@[j].0@ == kk;
                            assert(self.entries@[j].0@ == kk);
                        }
                        if self.view().contains_key(kk) && kk != k {
                            let j = choose|j: int|
                                0 <= j < self.entries@.len() && self.entries@[j].0@ == kk;
                            assert(old_self.entries@[j].0@ == kk);
                        }
                    }
                    assert forall|kk: Seq<char>|
                        self.view().contains_key(kk) && kk != k implies self.view()[kk]
                        == old_self.view()[kk] by {
                        let j = choose|j: int|
                            0 <= j < self.entries@.len() && self.entries@[j].0@ == kk;
                        self.lemma_entry(j);
                        old_self.lemma_entry(j);
                    }
                    assert(self.view() =~= old_self.view().insert(k, value));
                    assert(self.key_seq() =~= old_self.key_seq().push(k));
                }
            },
        }
    }
    /// Removes `key` and its value, if it is there; the other keys keep
    /// their order.
    pub fn remove(&mut self, key: &str)
        ensures
            final(self).view() == old(self).view().remove(key@),
    {
        proof {
            use_type_invariant(&*self);
        }
        let ghost old_self = *self;
        let k = String::from_str(key);
        match self.find(&k) {
            Some(i) => {
                let mut entries: Vec<(String, V)> = Vec::new();
                std::mem::swap(&mut entries, &mut self.entries);
                entries.remove(i);
                self.entries = entries;
                proof {
                    let n = old_self.entries@.len();
                    assert(self.keys_distinct()) by {
                        assert forall|a: int, b: int|
                            0 <= a < b < self.entries@.len() implies #[trigger] self.entries@[a].0@
                            != #[trigger] self.entries@[b].0@ by {
                            let a2 = if a < i { a } else { a + 1 };
                            let b2 = if b < i { b } else { b + 1 };
                            assert(self.entries@[a] == old_self.entries@[a2]);
                            assert(self.entries@[b] == old_self.entries@[b2]);
                            assert(old_self.entries@[a2].0@ != old_self.entries@[b2].0@);
                        }
                    }
                    old_self.lemma_entry(i as int);
                    assert forall|kk: Seq<char>| #[trigger]
                        self.view().contains_key(kk) == old_self.view().remove(key@).contains_key(kk) by {
                        if old_self.view().contains_key(kk) && kk != key@ {
                            let j = choose|j: int|
                                0 <= j < old_self.entries@.len() && old_self.entries@[j].0@ == kk;
                            assert(j != i);
                            if j < i {
                                assert(self.entries@[j].0@ == kk);
                            } else {
                                assert(self.entries@[j - 1].0@ == kk);
                            }
                        }
                        if self.view().contains_key(kk) {
                            let j = choose|j: int| 0 <= j < self.entries@.len() && self.entries@[j].0@ == kk;
                            let j2 = if j < i { j } else { j + 1 };
                            assert(old_self.entries@[j2].0@ == kk);
                            assert(j2 != i ==> old_self.entries@[j2].0@ != old_self.entries@[i as int].0@) by {
                                if j2 < i {
                                    assert(old_self.entries@[j2].0@ != old_self.entries@[i as int].0@);
                                } else if j2 > i {
                                    assert(old_self.entries@[i as int].0@ != old_self.entries@[j2].0@);
                                }
                            }
                        }
                    }
                    assert forall|kk: Seq<char>| self.view().contains_key(kk) implies self.view()[kk]
                        == old_self.view()[kk] by {
                        let j = choose|j: int| 0 <= j < self.entries@.len() && self.entries@[j].0@ == kk;
                        let j2 = if j < i { j } else { j + 1 };
                        self.lemma_entry(j);
                        old_self.lemma_entry(j2);
                    }
                    assert(self.view() =~= old_self.view().remove(key@));
                }
            },
            None => {
                assert(self.view() =~= old_self.view().remove(key@));
            },
        }
    }
}

impl TextMap<u64> {

    /// A copy of the map.
    pub fn duplicate(&self) -> (r: TextMap<u64>)
        ensures
            r.view() == self.view(),
            r.key_seq() == self.key_seq(),
    {
        proof {
            use_type_invariant(self);
        }
        let mut entries: Vec<(String, u64)> = Vec::new();
        let mut i: usize = 0;
        while i < self.entries.len()
            invariant
                i <= self.entries@.len(),
                entries@.len() == i,
                forall|j: int| 0 <= j < i ==> #[trigger] entries@[j] == self.entries@[j],
            decreases self.entries@.len() - i,
        {
            let k = self.entries[i].0.clone();
            let v = self.entries[i].1;
            entries.push((k, v));
            i = i + 1;
        }
        assert(entries@ =~= self.entries@);
        TextMap { entries }
    }
    /// The values, in the order of their keys.
    pub fn values(&self) -> (r: Vec<u64>)
        ensures
            r@.len() == self.key_seq().len(),
            forall|i: int| 0 <= i < r@.len() ==> r@[i] == self.view()[#[trigger] self.key_seq()[i]],
    {
        proof {
            use_type_invariant(self);
        }
        let mut r: Vec<u64> = Vec::new();
        let mut i: usize = 0;
        while i < self.entries.len()
            invariant
                self.keys_distinct(),
                i <= self.entries@.len(),
                r@.len() == i,
                forall|j: int| 0 <= j < i ==> #[trigger] r@[j] == self.entries@[j].1,
            decreases self.entries@.len() - i,
        {
            r.push(self.entries[i].1);
            i = i + 1;
        }
        proof {
            assert forall|j: int| 0 <= j < r@.len() implies r@[j] == self.view()[#[trigger] self.key_seq()[j]] by {
                self.lemma_entry(j);
            }
        }
        r
    }
}

impl TextMap<String> {
    /// A copy of the map.
    pub fn duplicate(&self) -> (r: TextMap<String>)
        ensures
            r.view() == self.view(),
            r.key_seq() == self.key_seq(),
    {
        proof {
            use_type_invariant(self);
        }
        let mut entries: Vec<(String, String)> = Vec::new();
        let mut i: usize = 0;
        while i < self.entries.len()
            invariant
                i <= self.entries@.len(),
                entries@.len() == i,
                forall|j: int| 0 <= j < i ==> #[trigger] entries@[j] == self.entries@[j],
            decreases self.entries@.len() - i,
        {
            let k = self.entries[i].0.clone();
            let v = self.entries[i].1.clone();
            entries.push((k, v));
            i = i + 1;
        }
        assert(entries@ =~= self.entries@);
        TextMap { entries }
    }
}

impl TextMap<bool> {
    /// A copy of the map.
    pub fn duplicate(&self) -> (r: TextMap<bool>)
        ensures
            r.view() == self.view(),
            r.key_seq() == self.key_seq(),
    {
        proof {
            use_type_invariant(self);
        }
        let mut entries: Vec<(String, bool)> = Vec::new();
        let mut i: usize = 0;
        while i < self.entries.len()
            invariant
                i <= self.entries@.len(),
                entries@.len() == i,
                forall|j: int| 0 <= j < i ==> #[trigger] entries@[j] == self.entries@[j],
            decreases self.entries@.len() - i,
        {
            let k = self.entries[i].0.clone();
            let v = self.entries[i].1;
            entries.push((k, v));
            i = i + 1;
        }
        assert(entries@ =~= self.entries@);
        TextMap { entries }
    }
}

} // verus!
