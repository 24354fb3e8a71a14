//! A small map from text keys to text values, kept as a list of entries with
//! distinct keys in insertion order.

use vstd::prelude::*;

use crate::text::str_eq;

verus! {

/// Map from `String` keys to `String` values.
#[derive(Debug)]
pub struct StringMap {
    entries: Vec<(String, String)>,
}

/// The entries of a map with distinct keys.
pub open spec fn distinct_keys(e: Seq<(String, String)>) -> bool {
    forall|i: int, j: int| 0 <= i < e.len() && 0 <= j < e.len() && i != j ==> (#[trigger] e[i]).0@ != (#[trigger] e[j]).0@
}

/// The map that a list of entries with distinct keys denotes.
pub open spec fn map_of_entries(e: Seq<(String, String)>) -> Map<Seq<char>, Seq<char>> {
    Map::new(
        |k: Seq<char>| exists|i: int| 0 <= i < e.len() && (#[trigger] e[i]).0@ == k,
        |k: Seq<char>| e[choose|i: int| 0 <= i < e.len() && (#[trigger] e[i]).0@ == k].1@,
    )
}

impl View for StringMap {
    type V = Map<Seq<char>, Seq<char>>;

    closed spec fn view(&self) -> Map<Seq<char>, Seq<char>> {
        map_of_entries(self.entries@)
    }
}

impl StringMap {
    /// Keys are distinct.
    #[verifier::type_invariant]
    pub closed spec fn wf(&self) -> bool {
        distinct_keys(self.entries@)
    }

    /// The entries, in insertion order.
    pub closed spec fn entry_seq(&self) -> Seq<(String, String)> {
        self.entries@
    }

    /// An empty map.
    pub fn new() -> (m: StringMap)
        ensures
            m@ == Map::<Seq<char>, Seq<char>>::empty(),
    {
        let m = StringMap { entries: Vec::new() };
        assert(m@ =~= Map::<Seq<char>, Seq<char>>::empty());
        m
    }

    /// Number of keys.
    pub fn len(&self) -> (n: usize)
        ensures
            n == self@.dom().len(),
    {
        proof {
            use_type_invariant(self);
            self.lemma_dom_len();
        }
        self.entries.len()
    }

    proof fn lemma_dom_len(&self)
        requires
            distinct_keys(self.entries@),
        ensures
            self@.dom().len() == self.entries@.len(),
            self@.dom().finite(),
        decreases self.entries@.len(),
    {
        let e = self.entries@;
        let keys = Seq::new(e.len(), |i: int| e[i].0@);
        assert forall|k: Seq<char>| #[trigger] self@.dom().contains(k) <==> keys.to_set().contains(k) by {
            if self@.dom().contains(k) {
                let c = choose|q: int| 0 <= q < e.len() && (#[trigger] e[q]).0@ == k;
                assert(keys[c] == k);
            }
            if keys.to_set().contains(k) {
                let c = choose|q: int| 0 <= q < keys.len() && keys[q] == k;
                assert(e[c].0@ == k);
            }
        }
        assert(self@.dom() =~= keys.to_set());
        assert forall|i: int, j: int| 0 <= i < keys.len() && 0 <= j < keys.len() && i != j implies keys[i] != keys[j] by {
            assert(e[i].0@ != e[j].0@);
        }
        keys.unique_seq_to_set();
    }

    /// Insert a key, replacing any previous value.
    pub fn insert(&mut self, key: String, value: String)
        ensures
            final(self)@ == old(self)@.insert(key@, value@),
    {
        proof {
            use_type_invariant(&*self);
        }
        let ghost e0 = self.entries@;
        let mut i: usize = 0;
        while i < self.entries.len()
            invariant
                0 <= i <= self.entries@.len(),
                self.entries@ == e0,
                e0 == old(self).entries@,
                distinct_keys(e0),
                forall|j: int| 0 <= j < i ==> (#[trigger] e0[j]).0@ != key@,
            decreases self.entries@.len() - i,
        {
            if str_eq(self.entries[i].0.as_str(), key.as_str()) {
                let mut entries: Vec<(String, String)> = Vec::new();
                std::mem::swap(&mut entries, &mut self.entries);
                entries.set(i, (key, value));
                let ghost e1 = entries@;
                assert(distinct_keys(e1)) by {
                    assert forall|a: int, b: int| 0 <= a < e1.len() && 0 <= b < e1.len() && a != b implies (#[trigger] e1[a]).0@ != (#[trigger] e1[b]).0@ by {
                        if a == i {
                            assert(e0[b].0@ != e0[a].0@);
                        } else if b == i {
                            assert(e0[b].0@ != e0[a].0@);
                        } else {
                            assert(e0[b].0@ != e0[a].0@);
                        }
                    }
                }
                self.entries = entries;
                proof {
                    let m1 = map_of_entries(e1);
                    let m0 = map_of_entries(e0).insert(key@, value@);
                    assert(e1[i as int].0@ == key@);
                    assert forall|k: Seq<char>| #[trigger] m1.dom().contains(k) <==> m0.dom().contains(k) by {
                        if k == key@ {
                            assert(e1[i as int].0@ == k);
                        }
                        if m0.dom().contains(k) && k != key@ {
                            let c = choose|q: int| 0 <= q < e0.len() && (#[trigger] e0[q]).0@ == k;
                            assert(e1[c].0@ == k);
                        }
                        if m1.dom().contains(k) {
                            let c = choose|q: int| 0 <= q < e1.len() && (#[trigger] e1[q]).0@ == k;
                            if c != i {
                                assert(e0[c].0@ == k);
                            }
                        }
                    }
                    assert forall|k: Seq<char>| m1.dom().contains(k) implies #[trigger] m1[k] == m0[k] by {
                        let c1 = choose|q: int| 0 <= q < e1.len() && (#[trigger] e1[q]).0@ == k;
                        if k == key@ {
                            assert(e1[i as int].0@ == k);
                            assert(c1 == i);
                        } else {
                            let c0 = choose|q: int| 0 <= q < e0.len() && (#[trigger] e0[q]).0@ == k;
                            assert(c1 != i);
                            assert(e0[c1].0@ == k);
                            assert(c0 == c1);
                        }
                    }
                    assert(m1 =~= m0);
                }
                return;
            }
            i += 1;
        }
        let ghost k = key@;
        let ghost v = value@;
        let mut entries: Vec<(String, String)> = Vec::new();
        std::mem::swap(&mut entries, &mut self.entries);
        entries.push((key, value));
        proof {
            let e1 = entries@;
            assert(distinct_keys(e1)) by {
                assert forall|a: int, b: int| 0 <= a < e1.len() && 0 <= b < e1.len() && a != b implies (#[trigger] e1[a]).0@ != (#[trigger] e1[b]).0@ by {
                    if a == e0.len() {
                        assert(e0[b].0@ != k);
                    } else if b == e0.len() {
                        assert(e0[a].0@ != k);
                    } else {
                        assert(e0[a] == e1[a]);
                        assert(e0[b] == e1[b]);
                    }
                }
            }
            let m1 = map_of_entries(e1);
            let m0 = map_of_entries(e0).insert(k, v);
            assert forall|kk: Seq<char>| #[trigger] m1.dom().contains(kk) <==> m0.dom().contains(kk) by {
                if m0.dom().contains(kk) && kk != k {
                    let c = choose|q: int| 0 <= q < e0.len() && (#[trigger] e0[q]).0@ == kk;
                    assert(e1[c] == e0[c]);
                }
                if kk == k {
                    assert(e1[e0.len() as int].0@ == k);
                }
                if m1.dom().contains(kk) {
                    let c = choose|q: int| 0 <= q < e1.len() && (#[trigger] e1[q]).0@ == kk;
                    if c < e0.len() {
                        assert(e1[c] == e0[c]);
                    }
                }
            }
            assert forall|kk: Seq<char>| m1.dom().contains(kk) implies #[trigger] m1[kk] == m0[kk] by {
                let c1 = choose|q: int| 0 <= q < e1.len() && (#[trigger] e1[q]).0@ == kk;
                if kk == k {
                    assert(e1[e0.len() as int].0@ == k);
                    if c1 < e0.len() {
                        assert(e1[c1] == e0[c1]);
                    }
                } else {
                    let c0 = choose|q: int| 0 <= q < e0.len() && (#[trigger] e0[q]).0@ == kk;
                    assert(e1[c0] == e0[c0]);
                    assert(c1 < e0.len());
                    assert(e1[c1] == e0[c1]);
                    assert(c0 == c1);
                }
            }
            assert(m1 =~= m0);
        }
        self.entries = entries;
    }

    /// The value of a key.
    pub fn get(&self, key: &str) -> (r: Option<&String>)
        ensures
            self@.dom().contains(key@) ==> (r matches Some(v) && v@ == self@[key@]),
            !self@.dom().contains(key@) ==> r is None,
    {
        proof {
            use_type_invariant(self);
        }
        let mut i: usize = 0;
        while i < self.entries.len()
            invariant
                0 <= i <= self.entries@.len(),
                distinct_keys(self.entries@),
                forall|j: int| 0 <= j < i ==> (#[trigger] self.entries@[j]).0@ != key@,
            decreases self.entries@.len() - i,
        {
            if str_eq(self.entries[i].0.as_str(), key) {
                proof {
                    let e = self.entries@;
                    let c = choose|q: int| 0 <= q < e.len() && (#[trigger] e[q]).0@ == key@;
                    if c != i {
                        assert(e[c].0@ != e[i as int].0@);
                    }
                }
                return Some(&self.entries[i].1);
            }
            i += 1;
        }
        None
    }

    /// Whether the key is present.
    pub fn contains_key(&self, key: &str) -> (r: bool)
        ensures
            r == self@.dom().contains(key@),
    {
        self.get(key).is_some()
    }

    /// The keys, in insertion order.
    pub fn keys(&self) -> (ks: Vec<String>)
        ensures
            ks@.len() == self.entry_seq().len(),
            forall|i: int| 0 <= i < ks@.len() ==> (#[trigger] ks@[i])@ == self.entry_seq()[i].0@,
            forall|k: Seq<char>| self@.dom().contains(k) <==> exists|i: int| 0 <= i < ks@.len() && (#[trigger] ks@[i])@ == k,
    {
        let mut ks: Vec<String> = Vec::new();
        let mut i: usize = 0;
        while i < self.entries.len()
            invariant
                0 <= i <= self.entries@.len(),
                ks@.len() == i,
                forall|j: int| 0 <= j < i ==> (#[trigger] ks@[j])@ == self.entries@[j].0@,
            decreases self.entries@.len() - i,
        {
            ks.push(self.entries[i].0.clone());
            i += 1;
        }
        proof {
            assert forall|k: Seq<char>| self@.dom().contains(k) <==> exists|j: int| 0 <= j < ks@.len() && (#[trigger] ks@[j])@ == k by {
                if self@.dom().contains(k) {
                    let c = choose|q: int| 0 <= q < self.entries@.len() && (#[trigger] self.entries@[q]).0@ == k;
                    assert(ks@[c]@ == k);
                }
                if exists|j: int| 0 <= j < ks@.len() && (#[trigger] ks@[j])@ == k {
                    let j = choose|j: int| 0 <= j < ks@.len() && (#[trigger] ks@[j])@ == k;
                    assert(self.entries@[j].0@ == k);
                }
            }
        }
        ks
    }
}

/// A read gives back what the last write of its key wrote, and writes of
/// other keys leave it unchanged.
pub proof fn lemma_read_after_write(m: Map<Seq<char>, Seq<char>>, k: Seq<char>, v: Seq<char>, other: Seq<char>)
    requires
        other != k,
    ensures
        m.insert(k, v).dom().contains(k),
        m.insert(k, v)[k] == v,
        m.insert(k, v).dom().contains(other) == m.dom().contains(other),
        m.dom().contains(other) ==> m.insert(k, v)[other] == m[other],
{
}

} // verus!
