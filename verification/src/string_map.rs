//! A map with text keys.
use vstd::prelude::*;

use crate::text;

verus! {

/// A map from texts to values: its entries, each key once, in the order in
/// which the keys were first inserted.
#[derive(Debug)]
pub struct StringMap<V> {
    entries: Vec<(String, V)>,
}

/// The position of a key among entries.
spec fn position_of<V>(entries: Seq<(String, V)>, key: Seq<char>) -> int {
    choose|i: int| 0 <= i < entries.len() && (#[trigger] entries[i]).0@ == key
}

/// Whether a key is among entries.
spec fn has_key<V>(entries: Seq<(String, V)>, key: Seq<char>) -> bool {
    exists|i: int| 0 <= i < entries.len() && (#[trigger] entries[i]).0@ == key
}

impl<V: View> View for StringMap<V> {
    type V = Map<Seq<char>, V::V>;

    closed spec fn view(&self) -> Map<Seq<char>, V::V> {
        Map::new(
            |k: Seq<char>| has_key(self.entries@, k),
            |k: Seq<char>| self.entries@[position_of(self.entries@, k)].1@,
        )
    }
}

impl<V> StringMap<V> {
    /// Every key stands once.
    #[verifier::type_invariant]
    spec fn inv(self) -> bool {
        forall|i: int, j: int|
            0 <= i < j < self.entries@.len() ==> (#[trigger] self.entries@[i]).0@ != (
            #[trigger] self.entries@[j]).0@
    }
}

impl<V: View> StringMap<V> {
    /// A map without entries.
    pub fn new() -> (r: StringMap<V>)
        ensures
            r@ == Map::<Seq<char>, V::V>::empty(),
    {
        let r = StringMap { entries: Vec::new() };
        assert(r@ =~= Map::<Seq<char>, V::V>::empty());
        r
    }

    /// The keys in order.
    pub closed spec fn keys_in_order(self) -> Seq<Seq<char>> {
        self.entries@.map_values(|e: (String, V)| e.0@)
    }

    /// The number of entries.
    pub fn len(&self) -> (n: usize)
        ensures
            n == self.keys_in_order().len(),
            n == self@.len(),
            self@.dom().finite(),
    {
        proof {
            use_type_invariant(self);
            self.lemma_keys();
        }
        self.entries.len()
    }

    /// The keys in order are those of the map, each once.
    proof fn lemma_keys(&self)
        requires
            self.inv(),
        ensures
            self.keys_in_order().no_duplicates(),
            self.keys_in_order().to_set() =~= self@.dom(),
            self@.dom().finite(),
            self@.len() == self.keys_in_order().len(),
            forall|k: Seq<char>| self@.dom().contains(k) <==> self.keys_in_order().contains(k),
            forall|i: int|
                0 <= i < self.entries@.len() ==> self@[(#[trigger] self.entries@[i]).0@]
                    == self.entries@[i].1@,
    {
        let keys = self.keys_in_order();
        assert forall|k: Seq<char>| self@.dom().contains(k) <==> keys.contains(k) by {
            if self@.dom().contains(k) {
                let i = position_of(self.entries@, k);
                assert(keys[i] == k);
            }
            if keys.contains(k) {
                let i = choose|i: int| 0 <= i < keys.len() && keys[i] == k;
                assert(self.entries@[i].0@ == k);
            }
        }
        assert forall|i: int| 0 <= i < self.entries@.len() implies self@[(
        #[trigger] self.entries@[i]).0@] == self.entries@[i].1@ by {
            let k = self.entries@[i].0@;
            let j = position_of(self.entries@, k);
            assert(self.entries@[j].0@ == k);
            assert(i == j);
        }
        assert(keys.to_set() =~= self@.dom());
        keys.unique_seq_to_set();
    }

    /// The keys in order are those of the map.
    pub proof fn lemma_keys_in_order(&self)
        ensures
            forall|k: Seq<char>| #[trigger]
                self@.dom().contains(k) <==> self.keys_in_order().contains(k),
    {
        assert forall|k: Seq<char>| #[trigger] self@.dom().contains(k)
            <==> self.keys_in_order().contains(k) by {
            let keys = self.keys_in_order();
            if self@.dom().contains(k) {
                let i = position_of(self.entries@, k);
                assert(keys[i] == k);
            }
            if keys.contains(k) {
                let i = choose|i: int| 0 <= i < keys.len() && keys[i] == k;
                assert(self.entries@[i].0@ == k);
            }
        }
    }

    /// Looks a key up.
    pub fn get(&self, key: &str) -> (r: Option<&V>)
        ensures
            match r {
                Some(v) => self@.dom().contains(key@) && self@[key@] == v@,
                None => !self@.dom().contains(key@),
            },
    {
        proof {
            use_type_invariant(self);
            self.lemma_keys();
        }
        let mut i: usize = 0;
        while i < self.entries.len()
            invariant
                i <= self.entries@.len(),
                forall|j: int| 0 <= j < i ==> (#[trigger] self.entries@[j]).0@ != key@,
                forall|k: int|
                    0 <= k < self.entries@.len() ==> self@[(#[trigger] self.entries@[k]).0@]
                        == self.entries@[k].1@,
            decreases self.entries@.len() - i,
        {
            if text::same(self.entries[i].0.as_str(), key) {
                return Some(&self.entries[i].1);
            }
            i += 1;
        }
        None
    }

    /// The positions of the entries in ascending order of their keys.
    pub fn order_by_key(&self) -> (r: Vec<usize>)
        ensures
            r@.len() == self.keys_in_order().len(),
            forall|i: int| 0 <= i < r@.len() ==> (#[trigger] r@[i]) < r@.len(),
            forall|i: int, j: int|
                0 <= i < j < r@.len() ==> text::precedes(
                    self.keys_in_order()[#[trigger] r@[i] as int],
                    self.keys_in_order()[#[trigger] r@[j] as int],
                ),
            forall|v: usize| v < r@.len() ==> #[trigger] r@.contains(v),
    {
        proof {
            use_type_invariant(self);
        }
        let ghost keys = self.keys_in_order();
        let mut out: Vec<usize> = Vec::new();
        for k in 0..self.entries.len()
            invariant
                self.inv(),
                keys == self.keys_in_order(),
                out@.len() == k,
                forall|i: int| 0 <= i < k ==> (#[trigger] out@[i]) < k,
                forall|i: int, j: int|
                    0 <= i < j < k ==> text::precedes(
                        keys[#[trigger] out@[i] as int],
                        keys[#[trigger] out@[j] as int],
                    ),
                forall|v: usize| v < k ==> #[trigger] out@.contains(v),
        {
            let ghost before = out@;
            let mut pos: usize = out.len();
            while pos > 0 && text::comes_before(
                self.entries[k].0.as_str(),
                self.entries[out[pos - 1]].0.as_str(),
            )
                invariant
                    pos <= out@.len(),
                    k < self.entries@.len(),
                    keys == self.keys_in_order(),
                    out@.len() == k,
                    forall|i: int| 0 <= i < k ==> (#[trigger] out@[i]) < k,
                    forall|i: int|
                        pos <= i < k ==> text::precedes(
                            keys[k as int],
                            keys[#[trigger] out@[i] as int],
                        ),
                decreases pos,
            {
                pos = pos - 1;
            }
            proof {
                assert forall|i: int| 0 <= i < pos implies text::precedes(
                    keys[#[trigger] out@[i] as int],
                    keys[k as int],
                ) by {
                    let last = out@[pos - 1];
                    assert(self.entries@[last as int].0@ != self.entries@[k as int].0@);
                    text::lemma_precedes_total(keys[last as int], keys[k as int]);
                    if i < pos - 1 {
                        text::lemma_precedes_transitive(
                            keys[out@[i] as int],
                            keys[last as int],
                            keys[k as int],
                        );
                    }
                }
            }
            out.insert(pos, k);
            proof {
                assert forall|i: int| 0 <= i < k + 1 implies (#[trigger] out@[i]) < k + 1 by {
                    if i < pos {
                        assert(out@[i] == before[i]);
                    } else if i > pos {
                        assert(out@[i] == before[i - 1]);
                    }
                }
                assert forall|i: int, j: int| 0 <= i < j < k + 1 implies text::precedes(
                    keys[#[trigger] out@[i] as int],
                    keys[#[trigger] out@[j] as int],
                ) by {
                    let a = if i < pos { i } else { i - 1 };
                    let b = if j < pos { j } else { j - 1 };
                    if i == pos {
                        assert(out@[j] == before[b]);
                    } else if j == pos {
                        assert(out@[i] == before[a]);
                    } else {
                        assert(out@[i] == before[a] && out@[j] == before[b]);
                    }
                }
                assert forall|v: usize| v < k + 1 implies #[trigger] out@.contains(v) by {
                    if v == k {
                        assert(out@[pos as int] == v);
                    } else {
                        assert(before.contains(v));
                        let i = choose|i: int| 0 <= i < k && #[trigger] before[i] == v;
                        if i < pos {
                            assert(out@[i] == v);
                        } else {
                            assert(out@[i + 1] == v);
                        }
                    }
                }
            }
        }
        out
    }

    /// A copy, given that the copies of values hold what they hold.
    pub fn duplicate(&self) -> (r: StringMap<V>) where V: Clone
        requires
            forall|a: V, b: V| #[trigger] cloned(a, b) ==> a@ == b@,
        ensures
            r@ == self@,
            r.keys_in_order() == self.keys_in_order(),
    {
        proof {
            use_type_invariant(self);
        }
        let mut entries: Vec<(String, V)> = Vec::new();
        for i in 0..self.entries.len()
            invariant
                entries@.len() == i,
                forall|a: V, b: V| #[trigger] cloned(a, b) ==> a@ == b@,
                forall|j: int|
                    0 <= j < i ==> (#[trigger] entries@[j]).0@ == self.entries@[j].0@
                        && entries@[j].1@ == self.entries@[j].1@,
        {
            let value = self.entries[i].1.clone();
            assert(cloned(self.entries@[i as int].1, value));
            entries.push((self.entries[i].0.clone(), value));
        }
        let r = StringMap { entries };
        proof {
            r.lemma_keys();
            self.lemma_keys();
            assert(r.keys_in_order() =~= self.keys_in_order());
            assert forall|k: Seq<char>| self@.dom().contains(k) implies #[trigger] r@[k]
                == self@[k] by {
                let i = position_of(self.entries@, k);
                assert(self.entries@[i].0@ == k);
                assert(r.entries@[i].0@ == k);
                assert(r@[r.entries@[i].0@] == r.entries@[i].1@);
                assert(self@[self.entries@[i].0@] == self.entries@[i].1@);
            }
            assert(r@ =~= self@);
        }
        r
    }

    /// Whether the map has a key.
    pub fn contains_key(&self, key: &str) -> (r: bool)
        ensures
            r == self@.dom().contains(key@),
    {
        self.get(key).is_some()
    }

    /// The entry at a position in the order of the keys.
    pub fn entry(&self, i: usize) -> (r: (&str, &V))
        requires
            i < self.keys_in_order().len(),
        ensures
            r.0@ == self.keys_in_order()[i as int],
            self@.dom().contains(r.0@),
            self@[r.0@] == r.1@,
    {
        proof {
            use_type_invariant(self);
            self.lemma_keys();
            assert(self.keys_in_order()[i as int] == self.entries@[i as int].0@);
            assert(self.keys_in_order().contains(self.entries@[i as int].0@));
        }
        (self.entries[i].0.as_str(), &self.entries[i].1)
    }

    /// Sets the value of a key; returns the value that it had.
    #[verifier::loop_isolation(false)]
    pub fn insert(&mut self, key: String, value: V) -> (r: Option<V>)
        ensures
            final(self)@ == old(self)@.insert(key@, value@),
            match r {
                Some(v) => old(self)@.dom().contains(key@) && old(self)@[key@] == v@,
                None => !old(self)@.dom().contains(key@),
            },
    {
        proof {
            use_type_invariant(&*self);
            self.lemma_keys();
        }
        let ghost before = self.entries@;
        let ghost map = self@;
        let mut entries: Vec<(String, V)> = Vec::new();
        std::mem::swap(&mut entries, &mut self.entries);
        let mut i: usize = 0;
        while i < entries.len()
            invariant
                i <= entries@.len(),
                entries@ == before,
                forall|j: int| 0 <= j < i ==> (#[trigger] before[j]).0@ != key@,
            decreases entries@.len() - i,
        {
            if text::same(entries[i].0.as_str(), key.as_str()) {
                let mut value = value;
                let ghost given = value@;
                std::mem::swap(&mut entries[i].1, &mut value);
                let ghost after = entries@;
                assert(after.len() == before.len());
                assert(forall|j: int|
                    0 <= j < after.len() ==> (#[trigger] after[j]).0@ == before[j].0@);
                self.entries = entries;
                proof {
                    self.lemma_keys();
                    assert(self@.dom() =~= map.dom().insert(key@)) by {
                        assert forall|k: Seq<char>| self@.dom().contains(k) <==> map.dom().insert(
                            key@,
                        ).contains(k) by {
                            if has_key(after, k) {
                                let j = position_of(after, k);
                                assert(before[j].0@ == k);
                            }
                            if has_key(before, k) {
                                let j = position_of(before, k);
                                assert(after[j].0@ == k);
                            }
                            assert(after[i as int].0@ == key@);
                        }
                    }
                    assert forall|k: Seq<char>| self@.dom().contains(k) implies #[trigger] self@[k]
                        == map.insert(key@, given)[k] by {
                        let j = position_of(after, k);
                        assert(after[j].0@ == k);
                        assert(self@[after[j].0@] == after[j].1@);
                        if k != key@ {
                            assert(j != i);
                            assert(before[j].0@ == k);
                            assert(has_key(before, k));
                            let m = position_of(before, k);
                            assert(before[m].0@ == k);
                            assert(m == j);
                        } else {
                            assert(after[i as int].0@ == key@);
                        }
                    }
                    assert(self@ =~= map.insert(key@, given));
                    assert(before[i as int].0@ == key@);
                    let m = position_of(before, key@);
                    assert(before[m].0@ == key@);
                    assert(m == i);
                }
                return Some(value);
            }
            i += 1;
        }
        entries.push((key, value));
        let ghost after = entries@;
        self.entries = entries;
        proof {
            self.lemma_keys();
            assert(!map.dom().contains(key@));
            assert forall|k: Seq<char>| self@.dom().contains(k) <==> map.dom().insert(
                key@,
            ).contains(k) by {
                if has_key(after, k) {
                    let j = position_of(after, k);
                    assert(after[j].0@ == k);
                    if j < before.len() {
                        assert(before[j].0@ == k);
                    }
                }
                if has_key(before, k) {
                    let j = position_of(before, k);
                    assert(after[j].0@ == k);
                }
                assert(after[before.len() as int].0@ == key@);
            }
            assert forall|k: Seq<char>| self@.dom().contains(k) implies #[trigger] self@[k]
                == map.insert(key@, value@)[k] by {
                let j = position_of(after, k);
                assert(after[j].0@ == k);
                assert(self@[after[j].0@] == after[j].1@);
                if j < before.len() {
                    assert(before[j].0@ == k);
                    let m = position_of(before, k);
                    assert(before[m].0@ == k);
                    assert(m == j);
                }
            }
            assert(self@ =~= map.insert(key@, value@));
        }
        None
    }

    /// Removes a key; returns the value that it had.
    #[verifier::loop_isolation(false)]
    pub fn remove(&mut self, key: &str) -> (r: Option<V>)
        ensures
            final(self)@ == old(self)@.remove(key@),
            match r {
                Some(v) => old(self)@.dom().contains(key@) && old(self)@[key@] == v@,
                None => !old(self)@.dom().contains(key@),
            },
    {
        proof {
            use_type_invariant(&*self);
            self.lemma_keys();
        }
        let ghost before = self.entries@;
        let ghost map = self@;
        let mut entries: Vec<(String, V)> = Vec::new();
        std::mem::swap(&mut entries, &mut self.entries);
        let mut i: usize = 0;
        while i < entries.len()
            invariant
                i <= entries@.len(),
                entries@ == before,
                forall|j: int| 0 <= j < i ==> (#[trigger] before[j]).0@ != key@,
            decreases entries@.len() - i,
        {
            if text::same(entries[i].0.as_str(), key) {
                let (_, value) = entries.remove(i);
                let ghost after = entries@;
                proof {
                    assert forall|j: int| 0 <= j < after.len() implies #[trigger] after[j]
                        == before[if j < i { j } else { j + 1 }] by {}
                }
                self.entries = entries;
                proof {
                    self.lemma_keys();
                    assert forall|k: Seq<char>| self@.dom().contains(k) <==> map.dom().remove(
                        key@,
                    ).contains(k) by {
                        if has_key(after, k) {
                            let j = position_of(after, k);
                            assert(after[j].0@ == k);
                            let m = if j < i { j } else { j + 1 };
                            assert(before[m].0@ == k);
                            assert(before[i as int].0@ == key@);
                        }
                        if has_key(before, k) && k != key@ {
                            let j = position_of(before, k);
                            assert(before[j].0@ == k);
                            assert(j != i);
                            let m = if j < i { j } else { j - 1 };
                            assert(after[m].0@ == k);
                        }
                    }
                    assert forall|k: Seq<char>| self@.dom().contains(k) implies #[trigger] self@[k]
                        == map.remove(key@)[k] by {
                        let j = position_of(after, k);
                        assert(after[j].0@ == k);
                        assert(self@[after[j].0@] == after[j].1@);
                        let m = if j < i { j } else { j + 1 };
                        assert(before[m].0@ == k);
                        let p = position_of(before, k);
                        assert(before[p].0@ == k);
                        assert(m == p);
                    }
                    assert(self@ =~= map.remove(key@));
                    let m = position_of(before, key@);
                    assert(before[i as int].0@ == key@);
                    assert(before[m].0@ == key@);
                    assert(m == i);
                }
                return Some(value);
            }
            i += 1;
        }
        self.entries = entries;
        proof {
            assert(!map.dom().contains(key@));
            assert(self@ =~= map.remove(key@));
        }
        None
    }
}

} // verus!
