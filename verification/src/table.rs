//! A table of values under distinct text keys, kept in insertion order.
use vstd::prelude::*;
use crate::text::{chars_eq, str_chars};

verus! {

/// No key occurs twice.
pub open spec fn keys_distinct<V>(s: Seq<(Seq<char>, V)>) -> bool {
    forall|i: int, j: int| 0 <= i < j < s.len() ==> #[trigger] s[i].0 != #[trigger] s[j].0
}

/// The map that a list of entries describes (a later entry wins).
pub open spec fn entries_map<V>(s: Seq<(Seq<char>, V)>) -> Map<Seq<char>, V>
    decreases s.len(),
{
    if s.len() == 0 {
        Map::empty()
    } else {
        entries_map(s.drop_last()).insert(s.last().0, s.last().1)
    }
}

pub proof fn lemma_entries_map_dom<V>(s: Seq<(Seq<char>, V)>, k: Seq<char>)
    ensures
        entries_map(s).dom().contains(k) <==> exists|i: int| 0 <= i < s.len() && s[i].0 == k,
    decreases s.len(),
{
    if s.len() > 0 {
        let p = s.drop_last();
        lemma_entries_map_dom(p, k);
        if exists|i: int| 0 <= i < p.len() && p[i].0 == k {
            let i = choose|i: int| 0 <= i < p.len() && p[i].0 == k;
            assert(s[i] == p[i]);
        }
        if exists|i: int| 0 <= i < s.len() && s[i].0 == k {
            let i = choose|i: int| 0 <= i < s.len() && s[i].0 == k;
            if i < s.len() - 1 {
                assert(p[i] == s[i]);
            }
        }
    }
}

pub proof fn lemma_entries_map_at<V>(s: Seq<(Seq<char>, V)>, i: int)
    requires
        keys_distinct(s),
        0 <= i < s.len(),
    ensures
        entries_map(s).dom().contains(s[i].0),
        entries_map(s)[s[i].0] == s[i].1,
    decreases s.len(),
{
    let p = s.drop_last();
    if i < s.len() - 1 {
        assert(p[i] == s[i]);
        assert(keys_distinct(p)) by {
            assert forall|a: int, b: int| 0 <= a < b < p.len() implies #[trigger] p[a].0 != #[trigger] p[b].0 by {
                assert(p[a] == s[a] && p[b] == s[b]);
            }
        }
        lemma_entries_map_at(p, i);
        assert(s[i].0 != s[s.len() - 1].0);
    }
}

proof fn lemma_distinct_prefix<V>(s: Seq<(Seq<char>, V)>)
    requires
        keys_distinct(s),
        s.len() > 0,
    ensures
        keys_distinct(s.drop_last()),
        !entries_map(s.drop_last()).dom().contains(s.last().0),
{
    let p = s.drop_last();
    assert forall|a: int, b: int| 0 <= a < b < p.len() implies #[trigger] p[a].0 != #[trigger] p[b].0 by {
        assert(p[a] == s[a] && p[b] == s[b]);
    }
    lemma_entries_map_dom(p, s.last().0);
    if exists|i: int| 0 <= i < p.len() && p[i].0 == s.last().0 {
        let i = choose|i: int| 0 <= i < p.len() && p[i].0 == s.last().0;
        assert(s[i] == p[i]);
        assert(s[i].0 != s[s.len() - 1].0);
    }
}

/// Replacing the value of an entry replaces it in the map.
pub proof fn lemma_entries_map_update<V>(s: Seq<(Seq<char>, V)>, i: int, v: V)
    requires
        keys_distinct(s),
        0 <= i < s.len(),
    ensures
        keys_distinct(s.update(i, (s[i].0, v))),
        entries_map(s.update(i, (s[i].0, v))) == entries_map(s).insert(s[i].0, v),
    decreases s.len(),
{
    let t = s.update(i, (s[i].0, v));
    assert forall|a: int, b: int| 0 <= a < b < t.len() implies #[trigger] t[a].0 != #[trigger] t[b].0 by {
        assert(t[a].0 == s[a].0 && t[b].0 == s[b].0);
    }
    let p = s.drop_last();
    lemma_distinct_prefix(s);
    if i == s.len() - 1 {
        assert(t.drop_last() =~= p);
        assert(entries_map(t) =~= entries_map(s).insert(s[i].0, v));
    } else {
        assert(t.drop_last() =~= p.update(i, (p[i].0, v)));
        lemma_entries_map_update(p, i, v);
        assert(p[i] == s[i]);
        assert(s[i].0 != s.last().0);
        assert(entries_map(t) =~= entries_map(s).insert(s[i].0, v));
    }
}

/// Removing an entry removes its key from the map.
pub proof fn lemma_entries_map_remove<V>(s: Seq<(Seq<char>, V)>, i: int)
    requires
        keys_distinct(s),
        0 <= i < s.len(),
    ensures
        keys_distinct(s.remove(i)),
        entries_map(s.remove(i)) == entries_map(s).remove(s[i].0),
    decreases s.len(),
{
    let t = s.remove(i);
    assert forall|a: int, b: int| 0 <= a < b < t.len() implies #[trigger] t[a].0 != #[trigger] t[b].0 by {
        let a0 = if a < i { a } else { a + 1 };
        let b0 = if b < i { b } else { b + 1 };
        assert(t[a] == s[a0] && t[b] == s[b0]);
    }
    let p = s.drop_last();
    lemma_distinct_prefix(s);
    if i == s.len() - 1 {
        assert(t =~= p);
        assert(entries_map(t) =~= entries_map(s).remove(s[i].0));
    } else {
        assert(t.drop_last() =~= p.remove(i));
        assert(t.last() == s.last());
        lemma_entries_map_remove(p, i);
        assert(p[i] == s[i]);
        assert(s[i].0 != s.last().0);
        assert(entries_map(t) =~= entries_map(s).remove(s[i].0));
    }
}

/// Inserting an entry with a fresh key at any position adds it to the map.
pub proof fn lemma_entries_map_insert<V>(s: Seq<(Seq<char>, V)>, i: int, k: Seq<char>, v: V)
    requires
        keys_distinct(s),
        0 <= i <= s.len(),
        !entries_map(s).dom().contains(k),
    ensures
        keys_distinct(s.insert(i, (k, v))),
        entries_map(s.insert(i, (k, v))) == entries_map(s).insert(k, v),
    decreases s.len(),
{
    let t = s.insert(i, (k, v));
    lemma_entries_map_dom(s, k);
    assert forall|a: int, b: int| 0 <= a < b < t.len() implies #[trigger] t[a].0 != #[trigger] t[b].0 by {
        if a != i && b != i {
            let a0 = if a < i { a } else { a - 1 };
            let b0 = if b < i { b } else { b - 1 };
            assert(t[a] == s[a0] && t[b] == s[b0]);
        } else if a == i {
            assert(t[b] == s[b - 1]);
        } else {
            assert(t[a] == s[a]);
        }
    }
    if i == s.len() {
        assert(t =~= s.push((k, v)));
        assert(t.drop_last() =~= s);
        assert(entries_map(t) =~= entries_map(s).insert(k, v));
    } else {
        let p = s.drop_last();
        lemma_distinct_prefix(s);
        assert(t.drop_last() =~= p.insert(i, (k, v)));
        assert(t.last() == s.last());
        lemma_entries_map_dom(p, k);
        if exists|j: int| 0 <= j < p.len() && p[j].0 == k {
            let j = choose|j: int| 0 <= j < p.len() && p[j].0 == k;
            assert(s[j] == p[j]);
        }
        lemma_entries_map_insert(p, i, k, v);
        assert(s.last().0 != k) by {
            assert(s[s.len() - 1] == s.last());
        }
        assert(entries_map(t) =~= entries_map(s).insert(k, v));
    }
}

/// Values under distinct text keys.
pub struct Table<V> {
    entries: Vec<(String, V)>,
}

impl<V> Table<V> {
    /// The entries as key texts and values, in order.
    pub closed spec fn entries(&self) -> Seq<(Seq<char>, V)> {
        self.entries@.map_values(|e: (String, V)| (e.0@, e.1))
    }

    /// The keys are distinct.
    pub open spec fn wf(&self) -> bool {
        keys_distinct(self.entries())
    }

    /// The table as a map.
    pub open spec fn map(&self) -> Map<Seq<char>, V> {
        entries_map(self.entries())
    }

    /// An empty table.
    pub fn new() -> (t: Self)
        ensures
            t.wf(),
            t.entries() == Seq::<(Seq<char>, V)>::empty(),
            t.map() == Map::<Seq<char>, V>::empty(),
    {
        let t = Table { entries: Vec::new() };
        proof {
            assert(t.entries() =~= Seq::<(Seq<char>, V)>::empty());
        }
        t
    }

    /// The number of entries.
    pub fn len(&self) -> (n: usize)
        ensures
            n == self.entries().len(),
    {
        self.entries.len()
    }

    /// The key and value of the entry at `i`.
    pub fn entry(&self, i: usize) -> (r: (&String, &V))
        requires
            i < self.entries().len(),
        ensures
            (r.0@, *r.1) == self.entries()[i as int],
    {
        let e = &self.entries[i];
        (&e.0, &e.1)
    }

    /// The position of `key`, if it is a key.
    pub fn find(&self, key: &str) -> (r: Option<usize>)
        requires
            self.wf(),
        ensures
            match r {
                Some(i) => i < self.entries().len() && self.entries()[i as int].0 == key@,
                None => !self.map().dom().contains(key@),
            },
            r is Some <==> self.map().dom().contains(key@),
    {
        proof {
            lemma_entries_map_dom(self.entries(), key@);
        }
        let k = str_chars(key);
        let mut i: usize = 0;
        while i < self.entries.len()
            invariant
                i <= self.entries().len(),
                self.entries().len() == self.entries@.len(),
                k@ == key@,
                forall|j: int| 0 <= j < i ==> #[trigger] self.entries()[j].0 != key@,
            decreases self.entries@.len() - i,
        {
            let name = str_chars(self.entries[i].0.as_str());
            if chars_eq(name.as_slice(), k.as_slice()) {
                proof {
                    assert(self.entries()[i as int].0 == key@);
                    lemma_entries_map_dom(self.entries(), key@);
                }
                return Some(i);
            }
            i += 1;
        }
        None
    }

    /// The value under `key`, if any.
    pub fn get(&self, key: &str) -> (r: Option<&V>)
        requires
            self.wf(),
        ensures
            r is Some <==> self.map().dom().contains(key@),
            r matches Some(v) ==> *v == self.map()[key@],
    {
        match self.find(key) {
            Some(i) => {
                proof {
                    lemma_entries_map_at(self.entries(), i as int);
                }
                Some(&self.entries[i].1)
            },
            None => None,
        }
    }

    /// Sets the value under `key`: in place where the key is present, as a
    /// new last entry where it is not.
    pub fn insert(&mut self, key: String, value: V)
        requires
            old(self).wf(),
        ensures
            final(self).wf(),
            final(self).map() == old(self).map().insert(key@, value),
            match old(self).map().dom().contains(key@) {
                true => exists|i: int| 0 <= i < old(self).entries().len() && old(self).entries()[i].0 == key@
                    && final(self).entries() == old(self).entries().update(i, (key@, value)),
                false => final(self).entries() == old(self).entries().push((key@, value)),
            },
    {
        let ghost before = self.entries();
        match self.find(key.as_str()) {
            Some(i) => {
                proof {
                    lemma_entries_map_update(before, i as int, value);
                }
                self.entries.set(i, (key, value));
                proof {
                    assert(self.entries() =~= before.update(i as int, (before[i as int].0, value)));
                }
            },
            None => {
                proof {
                    lemma_entries_map_insert(before, before.len() as int, key@, value);
                }
                self.entries.push((key, value));
                proof {
                    assert(self.entries() =~= before.insert(before.len() as int, (key@, value)));
                    assert(before.insert(before.len() as int, (key@, value)) =~= before.push((key@, value)));
                }
            },
        }
    }

    /// Removes the entry under `key` and gives back its position and value.
    pub fn take(&mut self, key: &str) -> (r: Option<(usize, V)>)
        requires
            old(self).wf(),
        ensures
            final(self).wf(),
            r is Some <==> old(self).map().dom().contains(key@),
            r is None ==> final(self).entries() == old(self).entries(),
            r matches Some((i, v)) ==> {
                &&& i < old(self).entries().len()
                &&& old(self).entries()[i as int] == (key@, v)
                &&& v == old(self).map()[key@]
                &&& final(self).entries() == old(self).entries().remove(i as int)
                &&& final(self).map() == old(self).map().remove(key@)
            },
    {
        let ghost before = self.entries();
        match self.find(key) {
            Some(i) => {
                proof {
                    lemma_entries_map_at(before, i as int);
                    lemma_entries_map_remove(before, i as int);
                }
                let (_, v) = self.entries.remove(i);
                proof {
                    assert(self.entries() =~= before.remove(i as int));
                }
                Some((i, v))
            },
            None => None,
        }
    }

    /// Puts an entry under a key that is not present back at position `i`.
    pub fn put_at(&mut self, i: usize, key: String, value: V)
        requires
            old(self).wf(),
            i <= old(self).entries().len(),
            !old(self).map().dom().contains(key@),
        ensures
            final(self).wf(),
            final(self).entries() == old(self).entries().insert(i as int, (key@, value)),
            final(self).map() == old(self).map().insert(key@, value),
    {
        let ghost before = self.entries();
        proof {
            lemma_entries_map_insert(before, i as int, key@, value);
        }
        self.entries.insert(i, (key, value));
        proof {
            assert(self.entries() =~= before.insert(i as int, (key@, value)));
        }
    }
}

/// The list under a key of a table of lists (empty where the key is absent).
pub open spec fn list_at<T>(m: Map<Seq<char>, Vec<T>>, k: Seq<char>) -> Seq<T> {
    if m.dom().contains(k) {
        m[k]@
    } else {
        Seq::empty()
    }
}

impl<T> Table<Vec<T>> {
    /// Appends `item` to the list under `key`, starting the list where there
    /// is none.
    pub fn append(&mut self, key: String, item: T)
        requires
            old(self).wf(),
        ensures
            final(self).wf(),
            final(self).map().dom() == old(self).map().dom().insert(key@),
            forall|k: Seq<char>| #[trigger] list_at(final(self).map(), k) == if k == key@ {
                list_at(old(self).map(), k).push(item)
            } else {
                list_at(old(self).map(), k)
            },
    {
        let ghost m0 = self.map();
        match self.take(key.as_str()) {
            Some((i, mut list)) => {
                list.push(item);
                let ghost l = list;
                self.put_at(i, key, list);
                proof {
                    assert(self.map() == m0.remove(key@).insert(key@, l));
                    assert(self.map().dom() =~= m0.dom().insert(key@));
                }
            },
            None => {
                let mut list: Vec<T> = Vec::new();
                list.push(item);
                let ghost l = list;
                self.insert(key, list);
                proof {
                    assert(self.map() == m0.insert(key@, l));
                    assert(self.map().dom() =~= m0.dom().insert(key@));
                    assert(l@ =~= Seq::<T>::empty().push(item));
                }
            },
        }
    }

    /// The items of the list under `key`, in order.
    pub fn list(&self, key: &str) -> (r: Vec<&T>)
        requires
            self.wf(),
        ensures
            r@.map_values(|x: &T| *x) == list_at(self.map(), key@),
    {
        let mut out: Vec<&T> = Vec::new();
        match self.get(key) {
            Some(v) => {
                let mut i: usize = 0;
                while i < v.len()
                    invariant
                        i <= v@.len(),
                        out@.map_values(|x: &T| *x) == v@.take(i as int),
                    decreases v@.len() - i,
                {
                    let ghost before = out@;
                    out.push(&v[i]);
                    proof {
                        assert(out@.map_values(|x: &T| *x) =~= before.map_values(|x: &T| *x).push(v@[i as int]));
                        assert(v@.take(i + 1) =~= v@.take(i as int).push(v@[i as int]));
                    }
                    i += 1;
                }
                proof {
                    assert(v@.take(v@.len() as int) =~= v@);
                }
            },
            None => {
                proof {
                    assert(out@.map_values(|x: &T| *x) =~= Seq::<T>::empty());
                }
            },
        }
        out
    }
}

} // verus!
