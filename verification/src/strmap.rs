//! A map keyed by strings, kept in key order (the order of a `BTreeMap`).
use vstd::prelude::*;

use crate::order::{insert_by_key, lex_le, lex_lt, sorted_by_key, Keyed};
use crate::text::str_eq;

verus! {

/// One key and its value.
#[derive(Debug)]
pub struct MapEntry<V> {
    pub key: String,
    pub value: V,
}

impl<V> Keyed for MapEntry<V> {
    open spec fn key_of(&self) -> Seq<char> {
        self.key@
    }

    fn key(&self) -> (r: &str) {
        self.key.as_str()
    }
}

/// The map that a sequence of entries denotes: the first entry for a key wins.
pub open spec fn entries_map<V>(s: Seq<MapEntry<V>>) -> Map<Seq<char>, V>
    decreases s.len(),
{
    if s.len() == 0 {
        Map::empty()
    } else {
        entries_map(s.drop_first()).insert(s[0].key@, s[0].value)
    }
}

/// No key occurs twice.
pub open spec fn keys_unique<V>(s: Seq<MapEntry<V>>) -> bool {
    forall|i: int, j: int| 0 <= i < j < s.len() ==> s[i].key@ != s[j].key@
}

/// A map from strings to `V`, iterated in key order.
#[derive(Debug)]
pub struct StrMap<V> {
    entries: Vec<MapEntry<V>>,
}

proof fn lemma_map_absent<V>(s: Seq<MapEntry<V>>, k: Seq<char>)
    requires
        forall|i: int| 0 <= i < s.len() ==> (#[trigger] s[i]).key@ != k,
    ensures
        !entries_map(s).contains_key(k),
    decreases s.len(),
{
    if s.len() > 0 {
        assert forall|i: int| 0 <= i < s.drop_first().len() implies (
        #[trigger] s.drop_first()[i]).key@ != k by {
            assert(s.drop_first()[i] == s[i + 1]);
        }
        lemma_map_absent(s.drop_first(), k);
    }
}

proof fn lemma_map_at<V>(s: Seq<MapEntry<V>>, i: int)
    requires
        keys_unique(s),
        0 <= i < s.len(),
    ensures
        entries_map(s).contains_key(s[i].key@),
        entries_map(s)[s[i].key@] == s[i].value,
    decreases s.len(),
{
    if i > 0 {
        assert(s.drop_first()[i - 1] == s[i]);
        lemma_map_at(s.drop_first(), i - 1);
    }
}

proof fn lemma_map_insert<V>(s: Seq<MapEntry<V>>, p: int, x: MapEntry<V>)
    requires
        keys_unique(s),
        0 <= p <= s.len(),
        forall|i: int| 0 <= i < s.len() ==> (#[trigger] s[i]).key@ != x.key@,
    ensures
        entries_map(s.insert(p, x)) == entries_map(s).insert(x.key@, x.value),
        keys_unique(s.insert(p, x)),
    decreases s.len(),
{
    s.insert_ensures(p, x);
    if p == 0 {
        assert(s.insert(0, x).drop_first() =~= s);
    } else {
        let t = s.drop_first();
        assert forall|i: int| 0 <= i < t.len() implies (#[trigger] t[i]).key@ != x.key@ by {
            assert(t[i] == s[i + 1]);
        }
        lemma_map_insert(t, p - 1, x);
        assert(s.insert(p, x).drop_first() =~= t.insert(p - 1, x));
        assert(s.insert(p, x)[0] == s[0]);
        assert(entries_map(s.insert(p, x)) =~= entries_map(s).insert(x.key@, x.value));
    }
}

proof fn lemma_map_update<V>(s: Seq<MapEntry<V>>, p: int, x: MapEntry<V>)
    requires
        keys_unique(s),
        0 <= p < s.len(),
        s[p].key@ == x.key@,
    ensures
        entries_map(s.update(p, x)) == entries_map(s).insert(x.key@, x.value),
        keys_unique(s.update(p, x)),
    decreases s.len(),
{
    if p == 0 {
        assert(s.update(0, x).drop_first() =~= s.drop_first());
        assert(entries_map(s.update(p, x)) =~= entries_map(s).insert(x.key@, x.value));
    } else {
        let t = s.drop_first();
        lemma_map_update(t, p - 1, x);
        assert(s.update(p, x).drop_first() =~= t.update(p - 1, x));
        assert(s[0].key@ != s[p].key@);
        assert(entries_map(s.update(p, x)) =~= entries_map(s).insert(x.key@, x.value));
    }
}

proof fn lemma_map_remove<V>(s: Seq<MapEntry<V>>, p: int)
    requires
        keys_unique(s),
        0 <= p < s.len(),
    ensures
        entries_map(s.remove(p)) == entries_map(s).remove(s[p].key@),
        keys_unique(s.remove(p)),
    decreases s.len(),
{
    s.remove_ensures(p);
    if p == 0 {
        assert(s.remove(0) =~= s.drop_first());
        assert forall|i: int| 0 <= i < s.drop_first().len() implies (
        #[trigger] s.drop_first()[i]).key@ != s[0].key@ by {
            assert(s.drop_first()[i] == s[i + 1]);
        }
        lemma_map_absent(s.drop_first(), s[0].key@);
        assert(entries_map(s.remove(p)) =~= entries_map(s).remove(s[p].key@));
    } else {
        let t = s.drop_first();
        lemma_map_remove(t, p - 1);
        assert(s.remove(p).drop_first() =~= t.remove(p - 1));
        assert(s.remove(p)[0] == s[0]);
        assert(s[0].key@ != s[p].key@);
        assert(entries_map(s.remove(p)) =~= entries_map(s).remove(s[p].key@));
    }
}

impl<V> StrMap<V> {
    /// The well-formedness of the map: keys strictly ascending.
    pub closed spec fn wf(&self) -> bool {
        &&& sorted_by_key(self.entries@)
        &&& keys_unique(self.entries@)
    }

    /// The map as a mathematical map.
    pub closed spec fn view(&self) -> Map<Seq<char>, V> {
        entries_map(self.entries@)
    }

    /// The keys in iteration (ascending) order.
    pub closed spec fn key_seq(&self) -> Seq<Seq<char>> {
        self.entries@.map_values(|e: MapEntry<V>| e.key@)
    }

    /// Facts that relate the key order to the map.
    pub proof fn lemma_keys(&self)
        requires
            self.wf(),
        ensures
            self.key_seq().len() == self.view().dom().len(),
            forall|k: Seq<char>| self.view().contains_key(k) <==> self.key_seq().contains(k),
            forall|i: int, j: int|
                0 <= i < j < self.key_seq().len() ==> lex_lt(
                    self.key_seq()[i],
                    self.key_seq()[j],
                ),
            self.view().dom().finite(),
    {
        let s = self.entries@;
        assert forall|k: Seq<char>| self.view().contains_key(k) <==> self.key_seq().contains(k) by {
            if self.key_seq().contains(k) {
                let i = choose|i: int| 0 <= i < self.key_seq().len() && self.key_seq()[i] == k;
                lemma_map_at(s, i);
            } else {
                assert forall|i: int| 0 <= i < s.len() implies (#[trigger] s[i]).key@ != k by {
                    assert(self.key_seq()[i] == s[i].key@);
                }
                lemma_map_absent(s, k);
            }
        }
        assert forall|i: int, j: int| 0 <= i < j < self.key_seq().len() implies lex_lt(
            self.key_seq()[i],
            self.key_seq()[j],
        ) by {
            assert(lex_le(s[i].key_of(), s[j].key_of()));
            assert(self.key_seq()[i] == s[i].key@);
            assert(self.key_seq()[j] == s[j].key@);
            crate::order::lemma_lex_total(s[i].key@, s[j].key@);
        }
        self.lemma_dom_len(s);
    }

    proof fn lemma_dom_len(&self, s: Seq<MapEntry<V>>)
        requires
            keys_unique(s),
        ensures
            entries_map(s).dom().finite(),
            entries_map(s).dom().len() == s.len(),
        decreases s.len(),
    {
        if s.len() > 0 {
            let t = s.drop_first();
            assert forall|i: int| 0 <= i < t.len() implies (#[trigger] t[i]).key@ != s[0].key@ by {
                assert(t[i] == s[i + 1]);
            }
            lemma_map_absent(t, s[0].key@);
            self.lemma_dom_len(t);
        }
    }

    /// An empty map.
    pub fn new() -> (m: StrMap<V>)
        ensures
            m.wf(),
            m.view() == Map::<Seq<char>, V>::empty(),
    {
        StrMap { entries: Vec::new() }
    }

    /// The number of keys.
    pub fn len(&self) -> (n: usize)
        requires
            self.wf(),
        ensures
            n == self.view().dom().len(),
    {
        proof {
            self.lemma_dom_len(self.entries@);
        }
        self.entries.len()
    }

    fn position(&self, key: &str) -> (r: Option<usize>)
        requires
            self.wf(),
        ensures
            match r {
                Some(i) => i < self.entries@.len() && self.entries@[i as int].key@ == key@,
                None => forall|i: int|
                    0 <= i < self.entries@.len() ==> (#[trigger] self.entries@[i]).key@ != key@,
            },
    {
        let mut i: usize = 0;
        while i < self.entries.len()
            invariant
                i <= self.entries@.len(),
                forall|j: int| 0 <= j < i ==> (#[trigger] self.entries@[j]).key@ != key@,
            decreases self.entries.len() - i,
        {
            if str_eq(self.entries[i].key.as_str(), key) {
                return Some(i);
            }
            i = i + 1;
        }
        None
    }

    /// The value for `key`.
    pub fn get(&self, key: &str) -> (r: Option<&V>)
        requires
            self.wf(),
        ensures
            match r {
                Some(v) => self.view().contains_key(key@) && self.view()[key@] == *v,
                None => !self.view().contains_key(key@),
            },
    {
        match self.position(key) {
            Some(i) => {
                proof {
                    lemma_map_at(self.entries@, i as int);
                }
                Some(&self.entries[i].value)
            },
            None => {
                proof {
                    lemma_map_absent(self.entries@, key@);
                }
                None
            },
        }
    }

    /// Whether `key` has a value.
    pub fn contains_key(&self, key: &str) -> (r: bool)
        requires
            self.wf(),
        ensures
            r == self.view().contains_key(key@),
    {
        self.get(key).is_some()
    }

    /// Sets the value for `key`.
    pub fn insert(&mut self, key: String, value: V)
        requires
            old(self).wf(),
        ensures
            final(self).wf(),
            final(self).view() == old(self).view().insert(key@, value),
    {
        match self.position(key.as_str()) {
            Some(i) => {
                let ghost s = self.entries@;
                let e = MapEntry { key, value };
                let ghost ev = e;
                self.entries.set(i, e);
                proof {
                    lemma_map_update(s, i as int, ev);
                    assert(self.entries@ == s.update(i as int, ev));
                    assert forall|a: int, b: int| 0 <= a < b < self.entries@.len() implies lex_le(
                        self.entries@[a].key_of(),
                        self.entries@[b].key_of(),
                    ) by {
                        assert(lex_le(s[a].key_of(), s[b].key_of()));
                    }
                }
            },
            None => {
                let ghost s = self.entries@;
                let e = MapEntry { key, value };
                let ghost ev = e;
                insert_by_key(&mut self.entries, e);
                proof {
                    let p = choose|p: int|
                        0 <= p <= s.len() && self.entries@ == s.insert(p, ev) && (forall|k: int|
                            0 <= k < p ==> lex_le(#[trigger] s[k].key_of(), ev.key_of())) && (
                        forall|k: int|
                            p <= k < s.len() ==> lex_lt(ev.key_of(), #[trigger] s[k].key_of()));
                    lemma_map_insert(s, p, ev);
                }
            },
        }
    }

    /// Removes `key`, returning its value.
    pub fn remove(&mut self, key: &str) -> (r: Option<V>)
        requires
            old(self).wf(),
        ensures
            final(self).wf(),
            final(self).view() == old(self).view().remove(key@),
            match r {
                Some(v) => old(self).view().contains_key(key@) && old(self).view()[key@] == v,
                None => !old(self).view().contains_key(key@),
            },
    {
        match self.position(key) {
            Some(i) => {
                let ghost s = self.entries@;
                proof {
                    lemma_map_at(s, i as int);
                    lemma_map_remove(s, i as int);
                }
                let e = self.entries.remove(i);
                proof {
                    assert(self.entries@ =~= s.remove(i as int));
                    s.remove_ensures(i as int);
                    assert forall|a: int, b: int| 0 <= a < b < self.entries@.len() implies lex_le(
                        self.entries@[a].key_of(),
                        self.entries@[b].key_of(),
                    ) by {
                        let a2 = if a < i { a } else { a + 1 };
                        let b2 = if b < i { b } else { b + 1 };
                        assert(self.entries@[a] == s[a2]);
                        assert(self.entries@[b] == s[b2]);
                    }
                }
                Some(e.value)
            },
            None => {
                proof {
                    lemma_map_absent(self.entries@, key@);
                    assert(self.view().remove(key@) =~= self.view());
                }
                None
            },
        }
    }

    /// The keys, in ascending order.
    pub fn keys(&self) -> (out: Vec<String>)
        requires
            self.wf(),
        ensures
            out@.map_values(|k: String| k@) == self.key_seq(),
    {
        let mut out: Vec<String> = Vec::new();
        let mut i: usize = 0;
        while i < self.entries.len()
            invariant
                i <= self.entries@.len(),
                out@.map_values(|k: String| k@) == self.key_seq().take(i as int),
            decreases self.entries.len() - i,
        {
            out.push(self.entries[i].key.clone());
            assert(self.key_seq().take((i + 1) as int) =~= self.key_seq().take(i as int).push(
                self.entries@[i as int].key@,
            ));
            assert(out@.map_values(|k: String| k@) =~= self.key_seq().take(i as int).push(
                self.entries@[i as int].key@,
            ));
            i = i + 1;
        }
        assert(self.key_seq().take(self.entries@.len() as int) =~= self.key_seq());
        out
    }
}

} // verus!
