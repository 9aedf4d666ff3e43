//! A small association table with distinct keys: the keyed storage maps of
//! the contracts (balances by account, profiles and policies by number).
use crate::contract_env::Address;
use vstd::prelude::*;

verus! {

/// Keys whose equality the table can test.
pub trait TableKey: View + Sized {
    fn same_key(&self, other: &Self) -> (r: bool)
        ensures
            r == (self@ == other@),
    ;
}

impl TableKey for Address {
    fn same_key(&self, other: &Self) -> (r: bool) {
        self.same(other)
    }
}

impl TableKey for u32 {
    fn same_key(&self, other: &Self) -> (r: bool) {
        *self == *other
    }
}

/// The value stored under `k` in an entry list: the first entry with that key.
pub open spec fn find<K: View, V>(s: Seq<(K, V)>, k: K::V) -> Option<V>
    decreases s.len(),
{
    if s.len() == 0 {
        None
    } else if s[0].0@ == k {
        Some(s[0].1)
    } else {
        find(s.drop_first(), k)
    }
}

pub open spec fn keys_distinct<K: View, V>(s: Seq<(K, V)>) -> bool {
    forall|i: int, j: int|
        0 <= i < s.len() && 0 <= j < s.len() && i != j ==> #[trigger] s[i].0@ != #[trigger] s[j].0@
}

pub proof fn lemma_find_absent<K: View, V>(s: Seq<(K, V)>, k: K::V)
    requires
        forall|i: int| 0 <= i < s.len() ==> #[trigger] s[i].0@ != k,
    ensures
        find(s, k) is None,
    decreases s.len(),
{
    if s.len() > 0 {
        assert(s[0].0@ != k);
        assert forall|i: int| 0 <= i < s.drop_first().len() implies #[trigger] s.drop_first()[i].0@ != k by {
            assert(s.drop_first()[i] == s[i + 1]);
        }
        lemma_find_absent(s.drop_first(), k);
    }
}

pub proof fn lemma_find_at<K: View, V>(s: Seq<(K, V)>, i: int)
    requires
        keys_distinct(s),
        0 <= i < s.len(),
    ensures
        find(s, s[i].0@) == Some(s[i].1),
    decreases s.len(),
{
    if i > 0 {
        assert(s[0].0@ != s[i].0@);
        let t = s.drop_first();
        assert(t[i - 1] == s[i]);
        assert forall|a: int, b: int|
            0 <= a < t.len() && 0 <= b < t.len() && a != b implies #[trigger] t[a].0@ != #[trigger] t[b].0@ by {
            assert(t[a] == s[a + 1]);
            assert(t[b] == s[b + 1]);
        }
        lemma_find_at(t, i - 1);
    }
}

pub proof fn lemma_find_present<K: View, V>(s: Seq<(K, V)>, k: K::V)
    requires
        find(s, k) is Some,
    ensures
        exists|i: int| 0 <= i < s.len() && #[trigger] s[i].0@ == k,
    decreases s.len(),
{
    if s[0].0@ != k {
        lemma_find_present(s.drop_first(), k);
        let i = choose|i: int| 0 <= i < s.drop_first().len() && #[trigger] s.drop_first()[i].0@ == k;
        assert(s[i + 1] == s.drop_first()[i]);
    }
}

pub proof fn lemma_find_push<K: View, V>(s: Seq<(K, V)>, e: (K, V), k: K::V)
    ensures
        find(s.push(e), k) == (if find(s, k) is Some {
            find(s, k)
        } else if e.0@ == k {
            Some(e.1)
        } else {
            None
        }),
    decreases s.len(),
{
    if s.len() > 0 {
        assert(s.push(e)[0] == s[0]);
        assert(s.push(e).drop_first() =~= s.drop_first().push(e));
        lemma_find_push(s.drop_first(), e, k);
    } else {
        assert(s.push(e)[0] == e);
        assert(s.push(e).drop_first() =~= Seq::<(K, V)>::empty());
        assert(find(Seq::<(K, V)>::empty(), k) is None);
    }
}

/// The map an entry list stands for.
pub open spec fn entries_map<K: View, V>(s: Seq<(K, V)>) -> Map<K::V, V> {
    Map::new(|k: K::V| find(s, k) is Some, |k: K::V| find(s, k)->0)
}

/// An association table; its keys are pairwise distinct.
#[derive(Debug, Clone)]
pub struct Table<K, V> {
    entries: Vec<(K, V)>,
}

impl<K: TableKey, V> View for Table<K, V> {
    type V = Map<K::V, V>;

    closed spec fn view(&self) -> Map<K::V, V> {
        entries_map(self.entries@)
    }
}

impl<K: TableKey, V> Table<K, V> {
    pub closed spec fn wf(&self) -> bool {
        keys_distinct(self.entries@)
    }

    /// The entries in storage order.
    pub closed spec fn entry_seq(&self) -> Seq<(K, V)> {
        self.entries@
    }

    pub proof fn lemma_entries(&self)
        requires
            self.wf(),
        ensures
            keys_distinct(self.entry_seq()),
            self@ == entries_map(self.entry_seq()),
            forall|i: int|
                0 <= i < self.entry_seq().len() ==> #[trigger] self@.dom().contains(
                    self.entry_seq()[i].0@,
                ) && self@[self.entry_seq()[i].0@] == self.entry_seq()[i].1,
            forall|k: K::V|
                #[trigger] self@.dom().contains(k) ==> exists|i: int|
                    0 <= i < self.entry_seq().len() && #[trigger] self.entry_seq()[i].0@ == k,
    {
        assert forall|i: int| 0 <= i < self.entries@.len() implies #[trigger] self@.dom().contains(
            self.entries@[i].0@,
        ) && self@[self.entries@[i].0@] == self.entries@[i].1 by {
            lemma_find_at(self.entries@, i);
        }
        assert forall|k: K::V| #[trigger] self@.dom().contains(k) implies exists|i: int|
            0 <= i < self.entry_seq().len() && #[trigger] self.entry_seq()[i].0@ == k by {
            lemma_find_present(self.entries@, k);
            let i = choose|i: int| 0 <= i < self.entries@.len() && #[trigger] self.entries@[i].0@ == k;
            assert(self.entry_seq()[i].0@ == k);
        }
    }

    pub fn new() -> (t: Self)
        ensures
            t.wf(),
            t@ == Map::<K::V, V>::empty(),
            t.entry_seq().len() == 0,
    {
        let t = Table { entries: Vec::new() };
        assert(t@ =~= Map::<K::V, V>::empty());
        t
    }

    /// A table holding exactly `entries`, unless two of them share a key.
    pub fn from_entries(entries: Vec<(K, V)>) -> (r: Option<Self>)
        ensures
            r is Some <==> keys_distinct(entries@),
            r matches Some(t) ==> t.wf() && t.entry_seq() == entries@ && t@ == entries_map(entries@),
    {
        let n = entries.len();
        let mut i: usize = 0;
        while i < n
            invariant
                n == entries@.len(),
                0 <= i <= n,
                forall|a: int, b: int| 0 <= a < i && 0 <= b < n && a != b ==> #[trigger] entries@[a].0@ != #[trigger] entries@[b].0@,
            decreases n - i,
        {
            let mut j: usize = 0;
            while j < n
                invariant
                    n == entries@.len(),
                    0 <= i < n,
                    0 <= j <= n,
                    forall|a: int, b: int| 0 <= a < i && 0 <= b < n && a != b ==> #[trigger] entries@[a].0@ != #[trigger] entries@[b].0@,
                    forall|b: int| 0 <= b < j && b != i ==> entries@[i as int].0@ != #[trigger] entries@[b].0@,
                decreases n - j,
            {
                if j != i && entries[i].0.same_key(&entries[j].0) {
                    return None;
                }
                j = j + 1;
            }
            i = i + 1;
        }
        Some(Table { entries })
    }

    /// The entries in storage order.
    pub fn as_entries(&self) -> (r: &Vec<(K, V)>)
        ensures
            r@ == self.entry_seq(),
    {
        &self.entries
    }

    pub fn len(&self) -> (n: usize)
        ensures
            n == self.entry_seq().len(),
    {
        self.entries.len()
    }

    pub fn entry_at(&self, i: usize) -> (e: &(K, V))
        requires
            i < self.entry_seq().len(),
        ensures
            *e == self.entry_seq()[i as int],
    {
        &self.entries[i]
    }

    fn index_of(&self, k: &K) -> (r: Option<usize>)
        ensures
            match r {
                Some(i) => i < self.entries@.len() && self.entries@[i as int].0@ == k@,
                None => forall|i: int| 0 <= i < self.entries@.len() ==> #[trigger] self.entries@[i].0@ != k@,
            },
    {
        let mut i: usize = 0;
        while i < self.entries.len()
            invariant
                0 <= i <= self.entries@.len(),
                forall|j: int| 0 <= j < i ==> #[trigger] self.entries@[j].0@ != k@,
            decreases self.entries@.len() - i,
        {
            if self.entries[i].0.same_key(k) {
                return Some(i);
            }
            i = i + 1;
        }
        None
    }

    pub fn contains(&self, k: &K) -> (r: bool)
        requires
            self.wf(),
        ensures
            r == self@.dom().contains(k@),
    {
        match self.index_of(k) {
            Some(i) => {
                proof {
                    lemma_find_at(self.entries@, i as int);
                }
                true
            },
            None => {
                proof {
                    lemma_find_absent(self.entries@, k@);
                }
                false
            },
        }
    }

    pub fn get(&self, k: &K) -> (r: Option<&V>)
        requires
            self.wf(),
        ensures
            match r {
                Some(v) => self@.dom().contains(k@) && self@[k@] == *v,
                None => !self@.dom().contains(k@),
            },
    {
        match self.index_of(k) {
            Some(i) => {
                proof {
                    lemma_find_at(self.entries@, i as int);
                }
                Some(&self.entries[i].1)
            },
            None => {
                proof {
                    lemma_find_absent(self.entries@, k@);
                }
                None
            },
        }
    }

    /// Stores `v` under `k`, replacing what was there.
    pub fn set(&mut self, k: K, v: V)
        requires
            old(self).wf(),
        ensures
            final(self).wf(),
            final(self)@ == old(self)@.insert(k@, v),
            old(self)@.dom().contains(k@) ==> exists|i: int|
                0 <= i < old(self).entry_seq().len() && #[trigger] old(self).entry_seq()[i].0@ == k@
                    && final(self).entry_seq() == old(self).entry_seq().update(i, (k, v)),
            !old(self)@.dom().contains(k@) ==> final(self).entry_seq() == old(self).entry_seq().push(
                (k, v),
            ),
    {
        let ghost old_entries = self.entries@;
        let ghost kv = k@;
        let ghost entry = (k, v);
        match self.index_of(&k) {
            Some(i) => {
                self.entries.set(i, (k, v));
                assert(self.entries@ == old_entries.update(i as int, entry));
                assert(old(self).entry_seq()[i as int].0@ == kv);
                assert(self.entry_seq() == old(self).entry_seq().update(i as int, entry));
                proof {
                    let s = self.entries@;
                    assert(keys_distinct(s)) by {
                        assert forall|a: int, b: int|
                            0 <= a < s.len() && 0 <= b < s.len() && a != b implies #[trigger] s[a].0@
                            != #[trigger] s[b].0@ by {
                            if a != i && b != i {
                                assert(s[a] == old_entries[a] && s[b] == old_entries[b]);
                            } else if a == i {
                                assert(s[b] == old_entries[b]);
                                assert(old_entries[i as int].0@ != old_entries[b].0@);
                            } else {
                                assert(s[a] == old_entries[a]);
                                assert(old_entries[i as int].0@ != old_entries[a].0@);
                            }
                        }
                    }
                    assert forall|key: K::V| #[trigger] find(s, key) == (if key == kv {
                        Some(v)
                    } else {
                        find(old_entries, key)
                    }) by {
                        if key == kv {
                            lemma_find_at(s, i as int);
                        } else {
                            if find(old_entries, key) is Some {
                                lemma_find_present(old_entries, key);
                                let j = choose|j: int|
                                    0 <= j < old_entries.len() && #[trigger] old_entries[j].0@ == key;
                                lemma_find_at(old_entries, j);
                                assert(s[j] == old_entries[j]);
                                lemma_find_at(s, j);
                            } else {
                                assert forall|j: int| 0 <= j < s.len() implies #[trigger] s[j].0@ != key by {
                                    if j != i {
                                        assert(s[j] == old_entries[j]);
                                        if old_entries[j].0@ == key {
                                            lemma_find_at(old_entries, j);
                                        }
                                    }
                                }
                                lemma_find_absent(s, key);
                            }
                        }
                    }
                    assert(self@ =~= entries_map(old_entries).insert(kv, v));
                    lemma_find_at(old_entries, i as int);
                    assert(old_entries[i as int].0@ == kv);
                }
            },
            None => {
                proof {
                    lemma_find_absent(old_entries, kv);
                }
                self.entries.push((k, v));
                proof {
                    let s = self.entries@;
                    let n = old_entries.len() as int;
                    assert(keys_distinct(s)) by {
                        assert forall|a: int, b: int|
                            0 <= a < s.len() && 0 <= b < s.len() && a != b implies #[trigger] s[a].0@
                            != #[trigger] s[b].0@ by {
                            if a < n && b < n {
                                assert(s[a] == old_entries[a] && s[b] == old_entries[b]);
                            } else if a == n {
                                assert(s[b] == old_entries[b]);
                            } else {
                                assert(s[a] == old_entries[a]);
                            }
                        }
                    }
                    assert forall|key: K::V| #[trigger] find(s, key) == (if key == kv {
                        Some(v)
                    } else {
                        find(old_entries, key)
                    }) by {
                        if key == kv {
                            lemma_find_at(s, n);
                        } else {
                            if find(old_entries, key) is Some {
                                lemma_find_present(old_entries, key);
                                let j = choose|j: int|
                                    0 <= j < old_entries.len() && #[trigger] old_entries[j].0@ == key;
                                lemma_find_at(old_entries, j);
                                assert(s[j] == old_entries[j]);
                                lemma_find_at(s, j);
                            } else {
                                assert forall|j: int| 0 <= j < s.len() implies #[trigger] s[j].0@ != key by {
                                    if j < n {
                                        assert(s[j] == old_entries[j]);
                                        if old_entries[j].0@ == key {
                                            lemma_find_at(old_entries, j);
                                        }
                                    }
                                }
                                lemma_find_absent(s, key);
                            }
                        }
                    }
                    assert(self@ =~= entries_map(old_entries).insert(kv, v));
                }
            },
        }
    }

    /// Takes the entry under `k` out of the table.
    pub fn remove(&mut self, k: &K) -> (r: Option<V>)
        requires
            old(self).wf(),
        ensures
            final(self).wf(),
            final(self)@ == old(self)@.remove(k@),
            match r {
                Some(v) => old(self)@.dom().contains(k@) && old(self)@[k@] == v,
                None => !old(self)@.dom().contains(k@),
            },
            r is Some ==> exists|i: int|
                0 <= i < old(self).entry_seq().len() && #[trigger] old(self).entry_seq()[i].0@ == k@
                    && final(self).entry_seq() == old(self).entry_seq().remove(i),
            r is None ==> final(self).entry_seq() == old(self).entry_seq(),
    {
        let ghost old_entries = self.entries@;
        match self.index_of(k) {
            Some(i) => {
                proof {
                    lemma_find_at(old_entries, i as int);
                }
                let (_, v) = self.entries.remove(i);
                assert(old_entries[i as int].0@ == k@ && self.entries@ == old_entries.remove(i as int));
                assert(old(self).entry_seq()[i as int].0@ == k@);
                assert(self.entry_seq() == old(self).entry_seq().remove(i as int));
                proof {
                    let s = self.entries@;
                    assert(forall|j: int| 0 <= j < i ==> s[j] == old_entries[j]);
                    assert(forall|j: int| i <= j < s.len() ==> s[j] == old_entries[j + 1]);
                    assert(keys_distinct(s)) by {
                        assert forall|a: int, b: int|
                            0 <= a < s.len() && 0 <= b < s.len() && a != b implies #[trigger] s[a].0@
                            != #[trigger] s[b].0@ by {
                            let a2 = if a < i { a } else { a + 1 };
                            let b2 = if b < i { b } else { b + 1 };
                            assert(s[a] == old_entries[a2] && s[b] == old_entries[b2]);
                        }
                    }
                    assert forall|key: K::V| #[trigger] find(s, key) == (if key == k@ {
                        None
                    } else {
                        find(old_entries, key)
                    }) by {
                        if key == k@ {
                            assert forall|j: int| 0 <= j < s.len() implies #[trigger] s[j].0@ != key by {
                                let j2 = if j < i { j } else { j + 1 };
                                assert(s[j] == old_entries[j2]);
                                assert(j2 != i);
                            }
                            lemma_find_absent(s, key);
                        } else if find(old_entries, key) is Some {
                            lemma_find_present(old_entries, key);
                            let j = choose|j: int| 0 <= j < old_entries.len() && #[trigger] old_entries[j].0@ == key;
                            lemma_find_at(old_entries, j);
                            assert(j != i);
                            let j2 = if j < i { j } else { j - 1 };
                            assert(s[j2] == old_entries[j]);
                            lemma_find_at(s, j2);
                        } else {
                            assert forall|j: int| 0 <= j < s.len() implies #[trigger] s[j].0@ != key by {
                                let j2 = if j < i { j } else { j + 1 };
                                assert(s[j] == old_entries[j2]);
                                if old_entries[j2].0@ == key {
                                    lemma_find_at(old_entries, j2);
                                }
                            }
                            lemma_find_absent(s, key);
                        }
                    }
                    assert(self@ =~= entries_map(old_entries).remove(k@));
                }
                Some(v)
            },
            None => {
                proof {
                    lemma_find_absent(old_entries, k@);
                    assert(self@ =~= entries_map(old_entries).remove(k@));
                }
                None
            },
        }
    }
}

} // verus!
