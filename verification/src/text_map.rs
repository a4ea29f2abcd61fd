//! A map from texts to values, kept as a list of entries.
use crate::text::{clone_texts, str_eq};
use vstd::prelude::*;

verus! {

/// A map whose keys are texts. Entries keep the order of their first insertion.
pub struct TextMap<V> {
    entries: Vec<(String, V)>,
}

/// The position of the first entry with a key, or the number of entries.
spec fn position<V>(entries: Seq<(String, V)>, key: Seq<char>) -> int
    decreases entries.len(),
{
    if entries.len() == 0 || entries[0].0@ == key {
        0
    } else {
        1 + position(entries.drop_first(), key)
    }
}

proof fn lemma_position<V>(entries: Seq<(String, V)>, key: Seq<char>)
    ensures
        0 <= position(entries, key) <= entries.len(),
        position(entries, key) < entries.len() ==> entries[position(entries, key)].0@ == key,
        forall|j: int| 0 <= j < position(entries, key) ==> (#[trigger] entries[j]).0@ != key,
    decreases entries.len(),
{
    if entries.len() == 0 || entries[0].0@ == key {
    } else {
        lemma_position(entries.drop_first(), key);
        assert forall|j: int| 0 <= j < position(entries, key) implies (#[trigger] entries[j]).0@
            != key by {
            if j > 0 {
                assert(entries[j] == entries.drop_first()[j - 1]);
            }
        }
    }
}

proof fn lemma_position_is<V>(entries: Seq<(String, V)>, key: Seq<char>, k: int)
    requires
        0 <= k <= entries.len(),
        k < entries.len() ==> entries[k].0@ == key,
        forall|j: int| 0 <= j < k ==> (#[trigger] entries[j]).0@ != key,
    ensures
        position(entries, key) == k,
{
    lemma_position(entries, key);
}

/// The map that a list of entries stands for.
spec fn entries_map<V: DeepView>(entries: Seq<(String, V)>) -> Map<Seq<char>, V::V> {
    Map::new(
        |k: Seq<char>| position(entries, k) < entries.len(),
        |k: Seq<char>| entries[position(entries, k)].1.deep_view(),
    )
}

proof fn lemma_entries_map_step<V: DeepView>(entries: Seq<(String, V)>)
    requires
        entries.len() > 0,
    ensures
        entries_map(entries) == entries_map(entries.drop_first()).insert(
            entries[0].0@,
            entries[0].1.deep_view(),
        ),
{
    let rest = entries.drop_first();
    assert forall|k: Seq<char>|
        entries_map(entries).contains_key(k) == entries_map(rest).insert(
            entries[0].0@,
            entries[0].1.deep_view(),
        ).contains_key(k) && (entries_map(entries).contains_key(k) ==> entries_map(entries)[k]
            == entries_map(rest).insert(entries[0].0@, entries[0].1.deep_view())[k]) by {
        lemma_position(entries, k);
        lemma_position(rest, k);
        if entries[0].0@ != k && position(rest, k) < rest.len() {
            assert(rest[position(rest, k)] == entries[position(entries, k)]);
        }
    }
    assert(entries_map(entries) =~= entries_map(rest).insert(
        entries[0].0@,
        entries[0].1.deep_view(),
    ));
}

/// Two lists of entries with the same keys and the same values stand for the
/// same map.
proof fn lemma_entries_map_same<V: DeepView>(a: Seq<(String, V)>, b: Seq<(String, V)>)
    requires
        a.len() == b.len(),
        forall|i: int|
            0 <= i < a.len() ==> (#[trigger] a[i]).0@ == b[i].0@ && a[i].1.deep_view()
                == b[i].1.deep_view(),
    ensures
        entries_map(a) == entries_map(b),
    decreases a.len(),
{
    if a.len() == 0 {
        assert(entries_map(a) =~= entries_map(b));
    } else {
        assert forall|i: int| 0 <= i < a.drop_first().len() implies (#[trigger] a.drop_first()[i]).0@
            == b.drop_first()[i].0@ && a.drop_first()[i].1.deep_view()
            == b.drop_first()[i].1.deep_view() by {
            assert(a[i + 1].0@ == b[i + 1].0@);
        }
        lemma_entries_map_same(a.drop_first(), b.drop_first());
        lemma_entries_map_step(a);
        lemma_entries_map_step(b);
        assert(a[0].0@ == b[0].0@);
    }
}

impl<V: DeepView> View for TextMap<V> {
    type V = Map<Seq<char>, V::V>;

    closed spec fn view(&self) -> Map<Seq<char>, V::V> {
        entries_map(self.entries@)
    }
}

impl<V: DeepView> DeepView for TextMap<V> {
    type V = Map<Seq<char>, V::V>;

    open spec fn deep_view(&self) -> Map<Seq<char>, V::V> {
        self.view()
    }
}

impl<V> TextMap<V> {
    /// The keys, in the order of the entries.
    pub closed spec fn keys(&self) -> Seq<Seq<char>> {
        Seq::new(self.entries@.len(), |i: int| self.entries@[i].0@)
    }

    /// No key occurs twice.
    pub open spec fn wf(&self) -> bool {
        self.keys().no_duplicates()
    }
}

impl<V: DeepView> TextMap<V> {
    /// The keys are the domain of the map.
    pub proof fn lemma_keys(&self, key: Seq<char>)
        ensures
            self.keys().contains(key) <==> self@.contains_key(key),
    {
        lemma_position(self.entries@, key);
        if self.keys().contains(key) {
            let i = choose|i: int| 0 <= i < self.keys().len() && self.keys()[i] == key;
            assert(self.entries@[i].0@ == key);
        }
        if self@.contains_key(key) {
            let p = position(self.entries@, key);
            assert(self.keys()[p] == key);
        }
    }

    /// An empty map.
    pub fn new() -> (r: Self)
        ensures
            r@ == Map::<Seq<char>, V::V>::empty(),
            r.keys() == Seq::<Seq<char>>::empty(),
            r.wf(),
    {
        let r = TextMap { entries: Vec::new() };
        proof {
            assert(r@ =~= Map::<Seq<char>, V::V>::empty());
            assert(r.keys() =~= Seq::<Seq<char>>::empty());
        }
        r
    }

    fn find(&self, key: &str) -> (r: usize)
        ensures
            r == position(self.entries@, key@),
            r <= self.entries@.len(),
    {
        let mut i: usize = 0;
        while i < self.entries.len() && !str_eq(self.entries[i].0.as_str(), key)
            invariant
                i <= self.entries@.len(),
                forall|j: int| 0 <= j < i ==> (#[trigger] self.entries@[j]).0@ != key@,
            decreases self.entries@.len() - i,
        {
            i = i + 1;
        }
        proof {
            lemma_position_is(self.entries@, key@, i as int);
        }
        i
    }

    /// The number of entries.
    pub fn len(&self) -> (r: usize)
        ensures
            r == self.keys().len(),
    {
        self.entries.len()
    }

    /// The entry at a position.
    pub fn entry(&self, i: usize) -> (r: (&String, &V))
        requires
            i < self.keys().len(),
        ensures
            r.0@ == self.keys()[i as int],
            self@.contains_key(r.0@),
            self.wf() ==> r.1.deep_view() == self@[r.0@],
    {
        let e = &self.entries[i];
        proof {
            self.lemma_keys(e.0@);
            assert(self.keys()[i as int] == e.0@);
            lemma_position(self.entries@, e.0@);
            let p = position(self.entries@, e.0@);
            assert(self.keys()[p] == e.0@);
            assert(self.keys().contains(e.0@));
        }
        (&e.0, &e.1)
    }

    /// Tells whether a key is present.
    pub fn contains_key(&self, key: &str) -> (r: bool)
        ensures
            r == self@.contains_key(key@),
    {
        self.find(key) < self.entries.len()
    }

    /// The value of a key.
    pub fn get(&self, key: &str) -> (r: Option<&V>)
        ensures
            match r {
                Some(v) => self@.contains_key(key@) && v.deep_view() == self@[key@],
                None => !self@.contains_key(key@),
            },
    {
        let i: usize = self.find(key);
        if i < self.entries.len() {
            Some(&self.entries[i].1)
        } else {
            None
        }
    }

    /// Sets the value of a key.
    pub fn insert(&mut self, key: String, value: V)
        ensures
            final(self)@ == old(self)@.insert(key@, value.deep_view()),
            final(self).keys() == (if old(self)@.contains_key(key@) {
                old(self).keys()
            } else {
                old(self).keys().push(key@)
            }),
            old(self).wf() ==> final(self).wf(),
    {
        let i: usize = self.find(key.as_str());
        let ghost before = self.entries@;
        let ghost k = key@;
        proof {
            self.lemma_keys(k);
        }
        if i < self.entries.len() {
            self.entries.set(i, (key, value));
        } else {
            self.entries.push((key, value));
        }
        proof {
            let after = self.entries@;
            lemma_position(before, k);
            assert forall|q: Seq<char>| #[trigger] self@.contains_key(q) == old(self)@.insert(
                k,
                value.deep_view(),
            ).contains_key(q) && (self@.contains_key(q) ==> self@[q] == old(self)@.insert(
                k,
                value.deep_view(),
            )[q]) by {
                lemma_position(before, q);
                let p = position(before, q);
                if q == k {
                    lemma_position_is(after, q, i as int);
                } else if p < before.len() {
                    lemma_position_is(after, q, p);
                } else {
                    assert forall|j: int| 0 <= j < after.len() implies (#[trigger] after[j]).0@
                        != q by {
                        if j < before.len() && j != i {
                            assert(after[j] == before[j]);
                        }
                    }
                    lemma_position_is(after, q, after.len() as int);
                }
            }
            assert(self@ =~= old(self)@.insert(k, value.deep_view()));
            if i < before.len() {
                assert(self.keys() =~= old(self).keys());
            } else {
                assert(self.keys() =~= old(self).keys().push(k));
                assert(!old(self).keys().contains(k));
            }
        }
    }

    /// Removes a key and gives its value.
    pub fn remove(&mut self, key: &str) -> (r: Option<V>)
        requires
            old(self).wf(),
        ensures
            final(self).wf(),
            final(self)@ == old(self)@.remove(key@),
            match r {
                Some(v) => old(self)@.contains_key(key@) && v.deep_view() == old(self)@[key@],
                None => !old(self)@.contains_key(key@),
            },
    {
        let i: usize = self.find(key);
        let ghost before = self.entries@;
        let ghost keys = self.keys();
        proof {
            lemma_position(before, key@);
        }
        if i < self.entries.len() {
            let e = self.entries.remove(i);
            proof {
                let after = self.entries@;
                assert(self.keys() =~= keys.remove(i as int));
                assert forall|q: Seq<char>| #[trigger] self@.contains_key(q) == old(self)@.remove(
                    key@,
                ).contains_key(q) && (self@.contains_key(q) ==> self@[q] == old(self)@.remove(
                    key@,
                )[q]) by {
                    lemma_position(before, q);
                    let p = position(before, q);
                    if q == key@ {
                        assert forall|j: int| 0 <= j < after.len() implies (#[trigger] after[j]).0@
                            != q by {
                            assert(keys[i as int] == q);
                            if j < i {
                                assert(after[j] == before[j]);
                                assert(keys[j] != keys[i as int]);
                            } else {
                                assert(after[j] == before[j + 1]);
                                assert(keys[j + 1] != keys[i as int]);
                            }
                        }
                        lemma_position_is(after, q, after.len() as int);
                    } else if p < before.len() {
                        assert(p != i);
                        if p < i {
                            lemma_position_is(after, q, p);
                        } else {
                            assert forall|j: int| 0 <= j < p - 1 implies (#[trigger] after[j]).0@
                                != q by {
                                if j < i {
                                    assert(after[j] == before[j]);
                                } else {
                                    assert(after[j] == before[j + 1]);
                                }
                            }
                            lemma_position_is(after, q, p - 1);
                        }
                    } else {
                        assert forall|j: int| 0 <= j < after.len() implies (#[trigger] after[j]).0@
                            != q by {
                            if j < i {
                                assert(after[j] == before[j]);
                            } else {
                                assert(after[j] == before[j + 1]);
                            }
                        }
                        lemma_position_is(after, q, after.len() as int);
                    }
                }
                assert(self@ =~= old(self)@.remove(key@));
                assert(self.wf());
            }
            Some(e.1)
        } else {
            proof {
                assert(self@ =~= old(self)@.remove(key@));
            }
            None
        }
    }
}

impl TextMap<String> {
    /// Copies the map.
    pub fn copy(&self) -> (r: Self)
        ensures
            r@ == self@,
            r.keys() == self.keys(),
    {
        let mut out: Vec<(String, String)> = Vec::new();
        let mut i: usize = 0;
        while i < self.entries.len()
            invariant
                i == out@.len(),
                i <= self.entries@.len(),
                forall|j: int|
                    0 <= j < i ==> (#[trigger] out@[j]).0@ == self.entries@[j].0@
                        && out@[j].1.deep_view() == self.entries@[j].1.deep_view(),
            decreases self.entries@.len() - i,
        {
            out.push((self.entries[i].0.clone(), self.entries[i].1.clone()));
            i = i + 1;
        }
        let r = TextMap { entries: out };
        proof {
            lemma_entries_map_same(r.entries@, self.entries@);
            assert(r.keys() =~= self.keys());
        }
        r
    }

    /// Takes over the entries of another map, which win over those that are here.
    pub fn extend(&mut self, other: &TextMap<String>)
        ensures
            final(self)@ == old(self)@.union_prefer_right(other@),
            old(self).wf() ==> final(self).wf(),
    {
        let mut i: usize = other.entries.len();
        proof {
            assert(other.entries@.skip(i as int) =~= Seq::<(String, String)>::empty());
            assert(entries_map(other.entries@.skip(i as int)) =~= Map::<
                Seq<char>,
                Seq<char>,
            >::empty());
            assert(self@ =~= old(self)@.union_prefer_right(
                entries_map(other.entries@.skip(i as int)),
            ));
        }
        while i > 0
            invariant
                i <= other.entries@.len(),
                self@ == old(self)@.union_prefer_right(entries_map(other.entries@.skip(i as int))),
                old(self).wf() ==> self.wf(),
            decreases i,
        {
            let ghost later = entries_map(other.entries@.skip(i as int));
            i = i - 1;
            let key = other.entries[i].0.clone();
            let value = other.entries[i].1.clone();
            proof {
                let rest = other.entries@.skip(i as int);
                lemma_entries_map_step(rest);
                assert(rest.drop_first() =~= other.entries@.skip(i + 1));
                assert(old(self)@.union_prefer_right(later).insert(key@, value@)
                    =~= old(self)@.union_prefer_right(later.insert(key@, value@)));
            }
            self.insert(key, value);
        }
        proof {
            assert(other.entries@.skip(0) =~= other.entries@);
        }
    }
}

impl TextMap<Vec<String>> {
    /// Copies the map.
    pub fn copy_lists(&self) -> (r: Self)
        ensures
            r@ == self@,
            r.keys() == self.keys(),
    {
        let mut out: Vec<(String, Vec<String>)> = Vec::new();
        let mut i: usize = 0;
        while i < self.entries.len()
            invariant
                i == out@.len(),
                i <= self.entries@.len(),
                forall|j: int|
                    0 <= j < i ==> (#[trigger] out@[j]).0@ == self.entries@[j].0@
                        && out@[j].1.deep_view() == self.entries@[j].1.deep_view(),
            decreases self.entries@.len() - i,
        {
            let list = clone_texts(&self.entries[i].1);
            assert(list.deep_view() =~= self.entries@[i as int].1.deep_view());
            out.push((self.entries[i].0.clone(), list));
            i = i + 1;
        }
        let r = TextMap { entries: out };
        proof {
            lemma_entries_map_same(r.entries@, self.entries@);
            assert(r.keys() =~= self.keys());
        }
        r
    }
}

} // verus!
