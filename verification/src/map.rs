//! A map keyed by strings, kept as a vector of entries with distinct keys.
//! Its view is a `Map` from key text to value.
use vstd::prelude::*;

use crate::text::str_is;

verus! {

/// Map from string keys to values; no key occurs twice.
#[derive(Debug)]
pub struct StringMap<V> {
    entries: Vec<(String, V)>,
}

/// No key text occurs twice in the list.
pub open spec fn keys_distinct<V>(es: Seq<(String, V)>) -> bool {
    forall|i: int, j: int|
        0 <= i < es.len() && 0 <= j < es.len() && i != j ==> (#[trigger] es[i]).0@ != (
        #[trigger] es[j]).0@
}

/// The map an entry list denotes.
pub open spec fn entries_map<V>(es: Seq<(String, V)>) -> Map<Seq<char>, V>
    decreases es.len(),
{
    if es.len() == 0 {
        Map::empty()
    } else {
        entries_map(es.drop_last()).insert(es.last().0@, es.last().1)
    }
}

pub proof fn lemma_entries_map<V>(es: Seq<(String, V)>)
    requires
        keys_distinct(es),
    ensures
        entries_map(es).dom().finite(),
        entries_map(es).len() == es.len(),
        forall|i: int|
            0 <= i < es.len() ==> #[trigger] entries_map(es).dom().contains(es[i].0@)
                && entries_map(es)[es[i].0@] == es[i].1,
        forall|k: Seq<char>|
            #[trigger] entries_map(es).dom().contains(k) ==> exists|i: int|
                0 <= i < es.len() && (#[trigger] es[i]).0@ == k,
    decreases es.len(),
{
    if es.len() > 0 {
        let d = es.drop_last();
        assert forall|i: int, j: int|
            0 <= i < d.len() && 0 <= j < d.len() && i != j implies (#[trigger] d[i]).0@ != (
            #[trigger] d[j]).0@ by {
            assert(d[i] == es[i]);
            assert(d[j] == es[j]);
        }
        lemma_entries_map(d);
        let last = es.last();
        assert(!entries_map(d).dom().contains(last.0@)) by {
            if entries_map(d).dom().contains(last.0@) {
                let i = choose|i: int| 0 <= i < d.len() && (#[trigger] d[i]).0@ == last.0@;
                assert(es[i] == d[i]);
                assert(es[es.len() - 1] == last);
            }
        }
        assert forall|i: int| 0 <= i < es.len() implies #[trigger] entries_map(es).dom().contains(
            es[i].0@,
        ) && entries_map(es)[es[i].0@] == es[i].1 by {
            if i < es.len() - 1 {
                assert(es[i] == d[i]);
                assert(es[i].0@ != last.0@) by {
                    assert(es[es.len() - 1] == last);
                }
            }
        }
        assert forall|k: Seq<char>| #[trigger] entries_map(es).dom().contains(k) implies exists|
            i: int,
        | 0 <= i < es.len() && (#[trigger] es[i]).0@ == k by {
            if k == last.0@ {
                assert(es[es.len() - 1].0@ == k);
            } else {
                let i = choose|i: int| 0 <= i < d.len() && (#[trigger] d[i]).0@ == k;
                assert(es[i] == d[i]);
            }
        }
    }
}

impl<V> View for StringMap<V> {
    type V = Map<Seq<char>, V>;

    closed spec fn view(&self) -> Map<Seq<char>, V> {
        entries_map(self.entries@)
    }
}

impl<V> StringMap<V> {
    #[verifier::type_invariant]
    closed spec fn distinct(&self) -> bool {
        keys_distinct(self.entries@)
    }

    /// The entries in their stored order, keys as text.
    pub closed spec fn pairs(&self) -> Seq<(Seq<char>, V)> {
        self.entries@.map_values(|e: (String, V)| (e.0@, e.1))
    }

    /// An empty map.
    pub fn new() -> (m: Self)
        ensures
            m@ == Map::<Seq<char>, V>::empty(),
    {
        StringMap { entries: Vec::new() }
    }

    /// Number of keys; the stored pairs are exactly the map's contents, each
    /// key once.
    pub fn len(&self) -> (n: usize)
        ensures
            n == self@.len(),
            n == self.pairs().len(),
            self@.dom().finite(),
            forall|i: int, j: int|
                0 <= i < self.pairs().len() && 0 <= j < self.pairs().len() && i != j
                    ==> (#[trigger] self.pairs()[i]).0 != (#[trigger] self.pairs()[j]).0,
            forall|i: int|
                0 <= i < self.pairs().len() ==> #[trigger] self@.dom().contains(
                    self.pairs()[i].0,
                ) && self@[self.pairs()[i].0] == self.pairs()[i].1,
            forall|k: Seq<char>|
                #[trigger] self@.dom().contains(k) ==> exists|i: int|
                    0 <= i < self.pairs().len() && (#[trigger] self.pairs()[i]).0 == k,
    {
        proof {
            use_type_invariant(self);
            lemma_entries_map(self.entries@);
            assert forall|i: int, j: int|
                0 <= i < self.pairs().len() && 0 <= j < self.pairs().len() && i != j
                    implies (#[trigger] self.pairs()[i]).0 != (#[trigger] self.pairs()[j]).0 by {
                assert(self.pairs()[i].0 == self.entries@[i].0@);
                assert(self.pairs()[j].0 == self.entries@[j].0@);
            }
            assert forall|k: Seq<char>| #[trigger] self@.dom().contains(k) implies exists|i: int|
                0 <= i < self.pairs().len() && (#[trigger] self.pairs()[i]).0 == k by {
                let i = choose|i: int|
                    0 <= i < self.entries@.len() && (#[trigger] self.entries@[i]).0@ == k;
                assert(self.pairs()[i].0 == k);
            }
        }
        self.entries.len()
    }

    /// Whether the map has no keys.
    pub fn is_empty(&self) -> (b: bool)
        ensures
            b == (self@.len() == 0),
    {
        proof {
            use_type_invariant(self);
            lemma_entries_map(self.entries@);
        }
        self.entries.len() == 0
    }

    /// The key and value stored at position `i`.
    pub fn entry_at(&self, i: usize) -> (r: (&String, &V))
        requires
            i < self.pairs().len(),
        ensures
            r.0@ == self.pairs()[i as int].0,
            *r.1 == self.pairs()[i as int].1,
    {
        let e = &self.entries[i];
        (&e.0, &e.1)
    }

    fn find(&self, k: &str) -> (r: Option<usize>)
        ensures
            match r {
                Some(i) => i < self.entries@.len() && self.entries@[i as int].0@ == k@,
                None => forall|i: int|
                    0 <= i < self.entries@.len() ==> (#[trigger] self.entries@[i]).0@ != k@,
            },
    {
        let mut i: usize = 0;
        while i < self.entries.len()
            invariant
                i <= self.entries@.len(),
                forall|j: int| 0 <= j < i ==> (#[trigger] self.entries@[j]).0@ != k@,
            decreases self.entries@.len() - i,
        {
            if str_is(self.entries[i].0.as_str(), k) {
                return Some(i);
            }
            i = i + 1;
        }
        None
    }

    /// The value stored under `k`, if any.
    pub fn get(&self, k: &str) -> (r: Option<&V>)
        ensures
            match r {
                Some(v) => self@.dom().contains(k@) && *v == self@[k@],
                None => !self@.dom().contains(k@),
            },
    {
        proof {
            use_type_invariant(self);
            lemma_entries_map(self.entries@);
        }
        match self.find(k) {
            Some(i) => {
                proof {
                    assert(entries_map(self.entries@).dom().contains(self.entries@[i as int].0@));
                }
                Some(&self.entries[i].1)
            },
            None => None,
        }
    }

    /// Whether `k` is a key.
    pub fn contains_key(&self, k: &str) -> (b: bool)
        ensures
            b == self@.dom().contains(k@),
    {
        proof {
            use_type_invariant(self);
            lemma_entries_map(self.entries@);
        }
        self.find(k).is_some()
    }

    /// Stores `v` under `k`, replacing any previous value.
    pub fn insert(&mut self, k: String, v: V)
        ensures
            final(self)@ == old(self)@.insert(k@, v),
    {
        proof {
            use_type_invariant(&*self);
            lemma_entries_map(self.entries@);
        }
        let found = self.find(k.as_str());
        let ghost old_es = self.entries@;
        let ghost kv = k@;
        match found {
            Some(i) => {
                let mut es: Vec<(String, V)> = Vec::new();
                std::mem::swap(&mut es, &mut self.entries);
                es.set(i, (k, v));
                proof {
                    let new_es = es@;
                    assert(new_es == old_es.update(i as int, new_es[i as int]));
                    assert forall|a: int, b: int|
                        0 <= a < new_es.len() && 0 <= b < new_es.len() && a != b implies (
                        #[trigger] new_es[a]).0@ != (#[trigger] new_es[b]).0@ by {
                        if a != i && b != i {
                            assert(new_es[a] == old_es[a]);
                            assert(new_es[b] == old_es[b]);
                        } else if a == i {
                            assert(new_es[b] == old_es[b]);
                        } else {
                            assert(new_es[a] == old_es[a]);
                        }
                    }
                    lemma_entries_map(new_es);
                    lemma_entries_map(old_es);
                    assert(entries_map(new_es) =~= entries_map(old_es).insert(kv, v)) by {
                        assert forall|key: Seq<char>| #[trigger] entries_map(new_es).dom().contains(key)
                            <==> entries_map(old_es).insert(kv, v).dom().contains(key) by {
                            if entries_map(new_es).dom().contains(key) {
                                let j = choose|j: int|
                                    0 <= j < new_es.len() && (#[trigger] new_es[j]).0@ == key;
                                if j != i {
                                    assert(new_es[j] == old_es[j]);
                                }
                            }
                            if entries_map(old_es).dom().contains(key) {
                                let j = choose|j: int|
                                    0 <= j < old_es.len() && (#[trigger] old_es[j]).0@ == key;
                                if j != i {
                                    assert(new_es[j] == old_es[j]);
                                }
                            }
                            assert(new_es[i as int].0@ == kv);
                        }
                        assert forall|key: Seq<char>| #[trigger] entries_map(new_es).dom().contains(key)
                            implies entries_map(new_es)[key] == entries_map(old_es).insert(
                            kv,
                            v,
                        )[key] by {
                            let j = choose|j: int|
                                0 <= j < new_es.len() && (#[trigger] new_es[j]).0@ == key;
                            if j != i {
                                assert(new_es[j] == old_es[j]);
                            }
                        }
                    }
                }
                self.entries = es;
            },
            None => {
                let mut es: Vec<(String, V)> = Vec::new();
                std::mem::swap(&mut es, &mut self.entries);
                es.push((k, v));
                proof {
                    let new_es = es@;
                    assert(new_es.drop_last() =~= old_es);
                    assert forall|a: int, b: int|
                        0 <= a < new_es.len() && 0 <= b < new_es.len() && a != b implies (
                        #[trigger] new_es[a]).0@ != (#[trigger] new_es[b]).0@ by {
                        if a < old_es.len() {
                            assert(new_es[a] == old_es[a]);
                        }
                        if b < old_es.len() {
                            assert(new_es[b] == old_es[b]);
                        }
                    }
                }
                self.entries = es;
            },
        }
    }

    /// Removes `k`, returning the value it held.
    pub fn remove(&mut self, k: &str) -> (r: Option<V>)
        ensures
            final(self)@ == old(self)@.remove(k@),
            match r {
                Some(v) => old(self)@.dom().contains(k@) && v == old(self)@[k@],
                None => !old(self)@.dom().contains(k@),
            },
    {
        proof {
            use_type_invariant(&*self);
            lemma_entries_map(self.entries@);
        }
        let ghost old_es = self.entries@;
        match self.find(k) {
            Some(i) => {
                let mut es: Vec<(String, V)> = Vec::new();
                std::mem::swap(&mut es, &mut self.entries);
                let (_key, v) = es.remove(i);
                proof {
                    let new_es = es@;
                    assert(new_es =~= old_es.remove(i as int));
                    assert forall|a: int, b: int|
                        0 <= a < new_es.len() && 0 <= b < new_es.len() && a != b implies (
                        #[trigger] new_es[a]).0@ != (#[trigger] new_es[b]).0@ by {
                        let a2 = if a < i { a } else { a + 1 };
                        let b2 = if b < i { b } else { b + 1 };
                        assert(new_es[a] == old_es[a2]);
                        assert(new_es[b] == old_es[b2]);
                    }
                    lemma_entries_map(new_es);
                    assert(entries_map(new_es) =~= entries_map(old_es).remove(k@)) by {
                        assert forall|key: Seq<char>| #[trigger] entries_map(new_es).dom().contains(key)
                            <==> entries_map(old_es).remove(k@).dom().contains(key) by {
                            if entries_map(new_es).dom().contains(key) {
                                let j = choose|j: int|
                                    0 <= j < new_es.len() && (#[trigger] new_es[j]).0@ == key;
                                let j2 = if j < i { j } else { j + 1 };
                                assert(new_es[j] == old_es[j2]);
                                assert(j2 != i);
                            }
                            if entries_map(old_es).remove(k@).dom().contains(key) {
                                let j = choose|j: int|
                                    0 <= j < old_es.len() && (#[trigger] old_es[j]).0@ == key;
                                assert(j != i);
                                let j1 = if j < i { j } else { j - 1 };
                                assert(new_es[j1] == old_es[j]);
                            }
                        }
                        assert forall|key: Seq<char>| #[trigger] entries_map(new_es).dom().contains(key)
                            implies entries_map(new_es)[key] == entries_map(old_es).remove(k@)[key] by {
                            let j = choose|j: int|
                                0 <= j < new_es.len() && (#[trigger] new_es[j]).0@ == key;
                            let j2 = if j < i { j } else { j + 1 };
                            assert(new_es[j] == old_es[j2]);
                        }
                    }
                }
                self.entries = es;
                Some(v)
            },
            None => {
                proof {
                    assert(!entries_map(old_es).dom().contains(k@)) by {
                        if entries_map(old_es).dom().contains(k@) {
                            let j = choose|j: int|
                                0 <= j < old_es.len() && (#[trigger] old_es[j]).0@ == k@;
                        }
                    }
                    assert(entries_map(old_es).remove(k@) =~= entries_map(old_es));
                }
                None
            },
        }
    }

    /// Keeps only the entries whose value satisfies `f` (called with `ctx`),
    /// which decides as `keep` does.
    pub fn retain<C, F: Fn(&V, &C) -> bool>(&mut self, f: F, ctx: &C, Ghost(keep): Ghost<spec_fn(V) -> bool>)
        requires
            forall|v: V| #[trigger] f.requires((&v, ctx)),
            forall|v: V, b: bool| f.ensures((&v, ctx), b) ==> b == keep(v),
        ensures
            final(self)@ == old(self)@.restrict(old(self)@.dom().filter(|k: Seq<char>| keep(old(self)@[k]))),
    {
        proof {
            use_type_invariant(&*self);
            lemma_entries_map(self.entries@);
        }
        let ghost old_es = self.entries@;
        let ghost old_map = entries_map(old_es);
        assert(old_es.take(old_es.len() as int) =~= old_es);
        let mut rest: Vec<(String, V)> = Vec::new();
        std::mem::swap(&mut rest, &mut self.entries);
        let mut kept: Vec<(String, V)> = Vec::new();
        let n = rest.len();
        let mut idx: usize = 0;
        // Entries are consumed from the back; `lo` is the first consumed index.
        while idx < n
            invariant
                n == old_es.len(),
                idx <= n,
                rest@ == old_es.take(n - idx),
                keys_distinct(old_es),
                forall|v: V| #[trigger] f.requires((&v, ctx)),
                forall|v: V, b: bool| f.ensures((&v, ctx), b) ==> b == keep(v),
                keys_distinct(kept@),
                forall|a: int| 0 <= a < kept@.len() ==> exists|j: int| n - idx <= j < n && #[trigger] kept@[a] == old_es[j],
                forall|j: int| n - idx <= j < n && keep(old_es[j].1) ==> exists|a: int| 0 <= a < kept@.len() && #[trigger] kept@[a] == old_es[j],
                forall|a: int| 0 <= a < kept@.len() ==> keep((#[trigger] kept@[a]).1),
            decreases n - idx,
        {
            let ghost before = kept@;
            let ghost cur = n - idx - 1;
            let e = rest.pop().unwrap();
            proof {
                assert(e == old_es[cur]);
                assert(rest@ =~= old_es.take(cur));
            }
            if f(&e.1, ctx) {
                kept.push(e);
                proof {
                    assert forall|a: int, b: int|
                        0 <= a < kept@.len() && 0 <= b < kept@.len() && a != b implies (
                        #[trigger] kept@[a]).0@ != (#[trigger] kept@[b]).0@ by {
                        if a < before.len() && b < before.len() {
                            assert(kept@[a] == before[a]);
                            assert(kept@[b] == before[b]);
                        } else if a < before.len() {
                            assert(kept@[a] == before[a]);
                            let j = choose|j: int| n - idx <= j < n && #[trigger] before[a] == old_es[j];
                            assert(j != cur);
                        } else {
                            assert(kept@[b] == before[b]);
                            let j = choose|j: int| n - idx <= j < n && #[trigger] before[b] == old_es[j];
                            assert(j != cur);
                        }
                    }
                    assert forall|a: int| 0 <= a < kept@.len() implies exists|j: int| n - (idx + 1) <= j < n && #[trigger] kept@[a] == old_es[j] by {
                        if a < before.len() {
                            assert(kept@[a] == before[a]);
                        } else {
                            assert(kept@[a] == old_es[cur]);
                        }
                    }
                    assert forall|j: int| n - (idx + 1) <= j < n && keep(old_es[j].1) implies exists|a: int| 0 <= a < kept@.len() && #[trigger] kept@[a] == old_es[j] by {
                        if j != cur {
                            let a = choose|a: int| 0 <= a < before.len() && #[trigger] before[a] == old_es[j];
                            assert(kept@[a] == before[a]);
                        } else {
                            assert(kept@[before.len() as int] == old_es[j]);
                        }
                    }
                    assert forall|a: int| 0 <= a < kept@.len() implies keep((#[trigger] kept@[a]).1) by {
                        if a < before.len() {
                            assert(kept@[a] == before[a]);
                        }
                    }
                }
            } else {
                proof {
                    assert forall|j: int| n - (idx + 1) <= j < n && keep(old_es[j].1) implies exists|a: int| 0 <= a < kept@.len() && #[trigger] kept@[a] == old_es[j] by {
                        assert(j != cur);
                    }
                }
            }
            idx = idx + 1;
        }
        proof {
            lemma_entries_map(kept@);
            let target = old_map.restrict(old_map.dom().filter(|k: Seq<char>| keep(old_map[k])));
            assert(entries_map(kept@) =~= target) by {
                assert forall|key: Seq<char>| #[trigger] entries_map(kept@).dom().contains(key)
                    <==> target.dom().contains(key) by {
                    if entries_map(kept@).dom().contains(key) {
                        let a = choose|a: int| 0 <= a < kept@.len() && (#[trigger] kept@[a]).0@ == key;
                        let j = choose|j: int| 0 <= j < n && #[trigger] kept@[a] == old_es[j];
                        assert(entries_map(old_es).dom().contains(old_es[j].0@));
                        assert(old_map[old_es[j].0@] == old_es[j].1);
                    }
                    if target.dom().contains(key) {
                        let j = choose|j: int| 0 <= j < old_es.len() && (#[trigger] old_es[j]).0@ == key;
                        assert(old_map[key] == old_es[j].1);
                        let a = choose|a: int| 0 <= a < kept@.len() && #[trigger] kept@[a] == old_es[j];
                    }
                }
                assert forall|key: Seq<char>| #[trigger] entries_map(kept@).dom().contains(key)
                    implies entries_map(kept@)[key] == target[key] by {
                    let a = choose|a: int| 0 <= a < kept@.len() && (#[trigger] kept@[a]).0@ == key;
                    let j = choose|j: int| 0 <= j < n && #[trigger] kept@[a] == old_es[j];
                    assert(entries_map(old_es).dom().contains(old_es[j].0@));
                    assert(old_map[old_es[j].0@] == old_es[j].1);
                }
            }
        }
        self.entries = kept;
    }
}

} // verus!
