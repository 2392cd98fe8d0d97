use crate::ids::Key;
use vstd::prelude::*;

verus! {

/// What a sequence of (key, value) pairs maps each key to.
pub open spec fn entries_map<K: DeepView, V: DeepView>(s: Seq<(K, V)>) -> Map<K::V, V::V> {
    Map::new(
        |k: K::V| exists|i: int| 0 <= i < s.len() && s[i].0.deep_view() == k,
        |k: K::V| s[choose|i: int| 0 <= i < s.len() && s[i].0.deep_view() == k].1.deep_view(),
    )
}

/// No key occurs twice in the sequence.
pub open spec fn keys_unique<K: DeepView, V>(s: Seq<(K, V)>) -> bool {
    forall|i: int, j: int|
        0 <= i < s.len() && 0 <= j < s.len() && i != j ==> s[i].0.deep_view() != s[j].0.deep_view()
}

proof fn lemma_entry<K: DeepView, V: DeepView>(s: Seq<(K, V)>, i: int)
    requires
        keys_unique(s),
        0 <= i < s.len(),
    ensures
        entries_map(s).contains_key(s[i].0.deep_view()),
        entries_map(s)[s[i].0.deep_view()] == s[i].1.deep_view(),
{
    let k = s[i].0.deep_view();
    assert(entries_map(s).dom().contains(k));
    let j = choose|j: int| 0 <= j < s.len() && s[j].0.deep_view() == k;
    assert(j == i);
}

/// A key-value table with unique keys, standing for the environment's
/// key-value storage.
pub struct Table<K, V> {
    entries: Vec<(K, V)>,
}

impl<K: Key, V: DeepView> DeepView for Table<K, V> {
    type V = Map<K::V, V::V>;

    closed spec fn deep_view(&self) -> Map<K::V, V::V> {
        entries_map(self.entries@)
    }
}

impl<K: Key, V: DeepView> Table<K, V> {
    pub closed spec fn wf(&self) -> bool {
        keys_unique(self.entries@)
    }

    pub fn new() -> (r: Self)
        ensures
            r.wf(),
            r.deep_view() == Map::<K::V, V::V>::empty(),
    {
        let r = Table { entries: Vec::new() };
        assert(r.deep_view() =~= Map::<K::V, V::V>::empty());
        r
    }

    fn find(&self, k: &K) -> (r: Option<usize>)
        requires
            self.wf(),
        ensures
            match r {
                Some(i) => i < self.entries@.len() && self.entries@[i as int].0.deep_view()
                    == k.deep_view(),
                None => !self.deep_view().contains_key(k.deep_view()),
            },
    {
        let mut i: usize = 0;
        while i < self.entries.len()
            invariant
                0 <= i <= self.entries@.len(),
                forall|j: int| 0 <= j < i ==> self.entries@[j].0.deep_view() != k.deep_view(),
            decreases self.entries@.len() - i,
        {
            if self.entries[i].0.same(k) {
                return Some(i);
            }
            i = i + 1;
        }
        None
    }

    pub fn get(&self, k: &K) -> (r: Option<&V>)
        requires
            self.wf(),
        ensures
            match r {
                Some(v) => self.deep_view().contains_key(k.deep_view()) && self.deep_view()[k.deep_view()]
                    == v.deep_view(),
                None => !self.deep_view().contains_key(k.deep_view()),
            },
    {
        match self.find(k) {
            Some(i) => {
                proof {
                    lemma_entry(self.entries@, i as int);
                }
                Some(&self.entries[i].1)
            },
            None => None,
        }
    }

    pub fn insert(&mut self, k: K, v: V)
        requires
            old(self).wf(),
        ensures
            final(self).wf(),
            final(self).deep_view() == old(self).deep_view().insert(k.deep_view(), v.deep_view()),
    {
        let ghost old_s = self.entries@;
        let ghost kv = k.deep_view();
        let ghost vv = v.deep_view();
        match self.find(&k) {
            Some(i) => {
                self.entries.set(i, (k, v));
                let ghost s = self.entries@;
                assert(keys_unique(s)) by {
                    assert forall|a: int, b: int|
                        0 <= a < s.len() && 0 <= b < s.len() && a != b implies s[a].0.deep_view()
                        != s[b].0.deep_view() by {
                        assert(old_s[a].0.deep_view() == s[a].0.deep_view());
                        assert(old_s[b].0.deep_view() == s[b].0.deep_view());
                    }
                }
                assert forall|key: K::V| #![auto]
                    entries_map(s).contains_key(key) == old(self).deep_view().insert(
                        kv,
                        vv,
                    ).contains_key(key) by {
                    if entries_map(s).contains_key(key) {
                        let j = choose|j: int| 0 <= j < s.len() && s[j].0.deep_view() == key;
                        assert(old_s[j].0.deep_view() == key);
                    }
                    if old(self).deep_view().contains_key(key) {
                        let j = choose|j: int| 0 <= j < old_s.len() && old_s[j].0.deep_view() == key;
                        assert(s[j].0.deep_view() == key);
                    }
                    if key == kv {
                        assert(s[i as int].0.deep_view() == key);
                    }
                }
                assert forall|key: K::V| #[trigger]
                    entries_map(s).contains_key(key) implies entries_map(s)[key] == old(
                        self,
                    ).deep_view().insert(kv, vv)[key] by {
                    let j = choose|j: int| 0 <= j < s.len() && s[j].0.deep_view() == key;
                    lemma_entry(s, j);
                    if j != i {
                        lemma_entry(old_s, j);
                    }
                }
                assert(entries_map(s) =~= old(self).deep_view().insert(kv, vv));
            },
            None => {
                self.entries.push((k, v));
                let ghost s = self.entries@;
                let ghost n = old_s.len() as int;
                assert(keys_unique(s)) by {
                    assert forall|a: int, b: int|
                        0 <= a < s.len() && 0 <= b < s.len() && a != b implies s[a].0.deep_view()
                        != s[b].0.deep_view() by {
                        if a < n && b < n {
                            assert(old_s[a] == s[a] && old_s[b] == s[b]);
                        } else if a < n {
                            assert(old_s[a] == s[a]);
                            assert(old(self).deep_view().contains_key(old_s[a].0.deep_view()));
                        } else {
                            assert(old_s[b] == s[b]);
                            assert(old(self).deep_view().contains_key(old_s[b].0.deep_view()));
                        }
                    }
                }
                assert forall|key: K::V| #![auto]
                    entries_map(s).contains_key(key) == old(self).deep_view().insert(
                        kv,
                        vv,
                    ).contains_key(key) by {
                    if entries_map(s).contains_key(key) {
                        let j = choose|j: int| 0 <= j < s.len() && s[j].0.deep_view() == key;
                        if j < n {
                            assert(old_s[j] == s[j]);
                        }
                    }
                    if old(self).deep_view().contains_key(key) {
                        let j = choose|j: int| 0 <= j < old_s.len() && old_s[j].0.deep_view() == key;
                        assert(s[j] == old_s[j]);
                    }
                    if key == kv {
                        assert(s[n].0.deep_view() == key);
                    }
                }
                assert forall|key: K::V| #[trigger]
                    entries_map(s).contains_key(key) implies entries_map(s)[key] == old(
                        self,
                    ).deep_view().insert(kv, vv)[key] by {
                    let j = choose|j: int| 0 <= j < s.len() && s[j].0.deep_view() == key;
                    lemma_entry(s, j);
                    if j < n {
                        assert(old_s[j] == s[j]);
                        lemma_entry(old_s, j);
                    }
                }
                assert(entries_map(s) =~= old(self).deep_view().insert(kv, vv));
            },
        }
    }

    /// Takes the value under `k` out of the table.
    pub fn remove(&mut self, k: &K) -> (r: Option<V>)
        requires
            old(self).wf(),
        ensures
            final(self).wf(),
            final(self).deep_view() == old(self).deep_view().remove(k.deep_view()),
            match r {
                Some(v) => old(self).deep_view().contains_key(k.deep_view()) && old(
                    self,
                ).deep_view()[k.deep_view()] == v.deep_view(),
                None => !old(self).deep_view().contains_key(k.deep_view()),
            },
    {
        let ghost old_s = self.entries@;
        let ghost kv = k.deep_view();
        match self.find(k) {
            Some(i) => {
                proof {
                    lemma_entry(old_s, i as int);
                }
                let (_, v) = self.entries.remove(i);
                let ghost s = self.entries@;
                let ghost ii = i as int;
                assert forall|a: int| 0 <= a < s.len() implies #[trigger] s[a] == old_s[if a < ii {
                    a
                } else {
                    a + 1
                }] by {}
                assert(keys_unique(s)) by {
                    assert forall|a: int, b: int|
                        0 <= a < s.len() && 0 <= b < s.len() && a != b implies s[a].0.deep_view()
                        != s[b].0.deep_view() by {
                        let a1 = if a < ii { a } else { a + 1 };
                        let b1 = if b < ii { b } else { b + 1 };
                        assert(s[a] == old_s[a1]);
                        assert(s[b] == old_s[b1]);
                    }
                }
                assert forall|key: K::V| #![auto]
                    entries_map(s).contains_key(key) == old(self).deep_view().remove(
                        kv,
                    ).contains_key(key) by {
                    if entries_map(s).contains_key(key) {
                        let j = choose|j: int| 0 <= j < s.len() && s[j].0.deep_view() == key;
                        let j1 = if j < ii { j } else { j + 1 };
                        assert(s[j] == old_s[j1]);
                    }
                    if old(self).deep_view().remove(kv).contains_key(key) {
                        let j = choose|j: int| 0 <= j < old_s.len() && old_s[j].0.deep_view() == key;
                        assert(j != ii);
                        let j0 = if j < ii { j } else { j - 1 };
                        assert(s[j0] == old_s[j]);
                    }
                }
                assert forall|key: K::V| #[trigger]
                    entries_map(s).contains_key(key) implies entries_map(s)[key] == old(
                        self,
                    ).deep_view().remove(kv)[key] by {
                    let j = choose|j: int| 0 <= j < s.len() && s[j].0.deep_view() == key;
                    let j1 = if j < ii { j } else { j + 1 };
                    assert(s[j] == old_s[j1]);
                    lemma_entry(s, j);
                    lemma_entry(old_s, j1);
                }
                assert(entries_map(s) =~= old(self).deep_view().remove(kv));
                Some(v)
            },
            None => {
                assert(old(self).deep_view().remove(kv) =~= old(self).deep_view());
                None
            },
        }
    }
}

} // verus!
