//! Maps and sets over small key types, kept as vectors in which no key
//! occurs twice.

use vstd::prelude::*;

use crate::rows::lemma_next_is_fresh;

verus! {

/// A key that can be tested for equality.
pub trait Key: View + Sized {
    fn same_key(&self, other: &Self) -> (res: bool)
        ensures
            res == (self@ == other@),
    ;
}

impl Key for String {
    fn same_key(&self, other: &Self) -> (res: bool) {
        *self == *other
    }
}

/// The map that a row of entries denotes; a later entry of a key wins.
pub open spec fn entries_map<K: Key, V: View>(s: Seq<(K, V)>) -> Map<K::V, V::V>
    decreases s.len(),
{
    if s.len() == 0 {
        Map::empty()
    } else {
        entries_map(s.drop_last()).insert(s.last().0@, s.last().1@)
    }
}

spec fn distinct<K: Key, V: View>(s: Seq<(K, V)>) -> bool {
    forall|i: int, j: int|
        0 <= i < s.len() && 0 <= j < s.len() && i != j ==> (#[trigger] s[i]).0@ != (
        #[trigger] s[j]).0@
}

proof fn lemma_entry<K: Key, V: View>(s: Seq<(K, V)>, i: int)
    requires
        distinct(s),
        0 <= i < s.len(),
    ensures
        entries_map(s).contains_key(s[i].0@),
        entries_map(s)[s[i].0@] == s[i].1@,
    decreases s.len(),
{
    if i < s.len() - 1 {
        let t = s.drop_last();
        assert(forall|a: int| 0 <= a < t.len() ==> t[a] == s[a]);
        lemma_entry(t, i);
        assert(s[i].0@ != s[s.len() - 1].0@);
    }
}

proof fn lemma_no_entry<K: Key, V: View>(s: Seq<(K, V)>, k: K::V)
    requires
        forall|i: int| 0 <= i < s.len() ==> (#[trigger] s[i]).0@ != k,
    ensures
        !entries_map(s).contains_key(k),
    decreases s.len(),
{
    if s.len() > 0 {
        let t = s.drop_last();
        assert(forall|a: int| 0 <= a < t.len() ==> t[a] == s[a]);
        lemma_no_entry(t, k);
        assert(s[s.len() - 1].0@ != k);
    }
}

proof fn lemma_find<K: Key, V: View>(s: Seq<(K, V)>, k: K::V) -> (i: int)
    requires
        entries_map(s).contains_key(k),
    ensures
        0 <= i < s.len(),
        s[i].0@ == k,
    decreases s.len(),
{
    if s.last().0@ == k {
        s.len() - 1
    } else {
        lemma_find(s.drop_last(), k)
    }
}

proof fn lemma_remove<K: Key, V: View>(s: Seq<(K, V)>, i: int)
    requires
        distinct(s),
        0 <= i < s.len(),
    ensures
        distinct(s.remove(i)),
        entries_map(s.remove(i)) == entries_map(s).remove(s[i].0@),
{
    let t = s.remove(i);
    assert forall|a: int, b: int| 0 <= a < t.len() && 0 <= b < t.len() && a != b implies (
    #[trigger] t[a]).0@ != (#[trigger] t[b]).0@ by {
        let a2 = if a < i { a } else { a + 1 };
        let b2 = if b < i { b } else { b + 1 };
        assert(t[a] == s[a2] && t[b] == s[b2]);
    }
    let m = entries_map(s).remove(s[i].0@);
    assert forall|k: K::V| entries_map(t).contains_key(k) <==> m.contains_key(k) by {
        if entries_map(t).contains_key(k) {
            let a = lemma_find(t, k);
            let a2 = if a < i { a } else { a + 1 };
            assert(t[a] == s[a2]);
            lemma_entry(s, a2);
        }
        if m.contains_key(k) {
            let a2 = lemma_find(s, k);
            let a = if a2 < i { a2 } else { a2 - 1 };
            assert(t[a] == s[a2]);
            lemma_entry(t, a);
        }
    }
    assert forall|k: K::V| m.contains_key(k) implies entries_map(t)[k] == m[k] by {
        let a2 = lemma_find(s, k);
        let a = if a2 < i { a2 } else { a2 - 1 };
        assert(t[a] == s[a2]);
        lemma_entry(t, a);
        lemma_entry(s, a2);
    }
    assert(entries_map(t) =~= m);
}

/// A map with at most one value for each key.
pub struct AssocMap<K: Key, V: View> {
    entries: Vec<(K, V)>,
}

impl<K: Key, V: View> View for AssocMap<K, V> {
    type V = Map<K::V, V::V>;

    closed spec fn view(&self) -> Map<K::V, V::V> {
        entries_map(self.entries@)
    }
}

impl<K: Key, V: View> AssocMap<K, V> {
    #[verifier::type_invariant]
    spec fn no_key_twice(self) -> bool {
        distinct(self.entries@)
    }

    /// The keys in their order.
    pub closed spec fn keys(&self) -> Seq<K::V> {
        self.entries@.map_values(|e: (K, V)| e.0@)
    }

    /// The values in the order of their keys.
    pub closed spec fn values(&self) -> Seq<V> {
        self.entries@.map_values(|e: (K, V)| e.1)
    }

    pub fn new() -> (m: Self)
        ensures
            m@ == Map::<K::V, V::V>::empty(),
            m.keys() == Seq::<K::V>::empty(),
    {
        AssocMap { entries: Vec::new() }
    }

    fn position(&self, k: &K) -> (res: Option<usize>)
        ensures
            match res {
                Some(i) => i < self.entries@.len() && self.entries@[i as int].0@ == k@,
                None => forall|i: int|
                    0 <= i < self.entries@.len() ==> (#[trigger] self.entries@[i]).0@ != k@,
            },
    {
        let mut i: usize = 0;
        while i < self.entries.len()
            invariant
                i <= self.entries@.len(),
                forall|j: int| 0 <= j < i ==> (#[trigger] self.entries@[j]).0@ != k@,
            decreases self.entries@.len() - i,
        {
            if self.entries[i].0.same_key(k) {
                return Some(i);
            }
            i += 1;
        }
        None
    }

    /// The value of `k`.
    pub fn get(&self, k: &K) -> (res: Option<&V>)
        ensures
            match res {
                Some(v) => self@.contains_key(k@) && self@[k@] == v@,
                None => !self@.contains_key(k@),
            },
    {
        proof {
            use_type_invariant(self);
        }
        match self.position(k) {
            Some(i) => {
                proof {
                    lemma_entry(self.entries@, i as int);
                }
                Some(&self.entries[i].1)
            },
            None => {
                proof {
                    lemma_no_entry(self.entries@, k@);
                }
                None
            },
        }
    }

    pub fn contains_key(&self, k: &K) -> (res: bool)
        ensures
            res == self@.contains_key(k@),
    {
        self.get(k).is_some()
    }

    /// Removes `k` and hands out the value it had.
    pub fn remove(&mut self, k: &K) -> (res: Option<V>)
        ensures
            final(self)@ == old(self)@.remove(k@),
            match res {
                Some(v) => old(self)@.contains_key(k@) && old(self)@[k@] == v@,
                None => !old(self)@.contains_key(k@),
            },
    {
        proof {
            use_type_invariant(&*self);
        }
        match self.position(k) {
            Some(i) => {
                let mut entries: Vec<(K, V)> = Vec::new();
                std::mem::swap(&mut entries, &mut self.entries);
                proof {
                    lemma_entry(entries@, i as int);
                    lemma_remove(entries@, i as int);
                }
                let e = entries.remove(i);
                self.entries = entries;
                Some(e.1)
            },
            None => {
                proof {
                    lemma_no_entry(self.entries@, k@);
                    assert(self@.remove(k@) =~= self@);
                }
                None
            },
        }
    }

    /// Sets the value of `k` and hands out the one it replaces.
    pub fn insert(&mut self, k: K, v: V) -> (res: Option<V>)
        ensures
            final(self)@ == old(self)@.insert(k@, v@),
            match res {
                Some(w) => old(self)@.contains_key(k@) && old(self)@[k@] == w@,
                None => !old(self)@.contains_key(k@),
            },
    {
        let replaced = self.remove(&k);
        proof {
            use_type_invariant(&*self);
        }
        let mut entries: Vec<(K, V)> = Vec::new();
        std::mem::swap(&mut entries, &mut self.entries);
        let ghost before = entries@;
        proof {
            assert forall|i: int| 0 <= i < before.len() implies (#[trigger] before[i]).0@ != k@ by {
                lemma_entry(before, i);
            }
        }
        entries.push((k, v));
        assert(entries@.drop_last() =~= before);
        self.entries = entries;
        assert(self@ =~= old(self)@.insert(k@, v@));
        replaced
    }

    /// How many keys there are. Each is listed once, beside its value.
    pub fn len(&self) -> (n: usize)
        ensures
            n == self.keys().len(),
            n == self.values().len(),
            self.keys().no_duplicates(),
            forall|k: K::V| #[trigger] self@.contains_key(k) <==> self.keys().contains(k),
            forall|i: int|
                0 <= i < self.keys().len() ==> self@[#[trigger] self.keys()[i]]
                    == self.values()[i]@,
    {
        proof {
            use_type_invariant(self);
            let s = self.entries@;
            assert forall|k: K::V| #[trigger] self@.contains_key(k) <==> self.keys().contains(
                k,
            ) by {
                if self@.contains_key(k) {
                    let i = lemma_find(s, k);
                    assert(self.keys()[i] == k);
                }
                if self.keys().contains(k) {
                    let i = choose|i: int| 0 <= i < self.keys().len() && self.keys()[i] == k;
                    lemma_entry(s, i);
                }
            }
            assert forall|i: int| 0 <= i < self.keys().len() implies self@[#[trigger] self.keys()[i]]
                == self.values()[i]@ by {
                lemma_entry(s, i);
            }
        }
        self.entries.len()
    }

    /// The key at position `i`.
    pub fn key_at(&self, i: usize) -> (k: &K)
        requires
            i < self.keys().len(),
        ensures
            k@ == self.keys()[i as int],
    {
        &self.entries[i].0
    }

    /// The value of the key at position `i`.
    pub fn value_at(&self, i: usize) -> (v: &V)
        requires
            i < self.values().len(),
        ensures
            *v == self.values()[i as int],
    {
        &self.entries[i].1
    }
}

/// A value that can be copied without changing what it stands for.
pub trait Copied: View + Sized {
    fn copied(&self) -> (res: Self)
        ensures
            res@ == self@,
    ;
}

impl Copied for String {
    fn copied(&self) -> (res: Self) {
        self.clone()
    }
}

impl Copied for () {
    fn copied(&self) -> (res: Self) {
    }
}

impl<K: Key + Copied, V: Copied> Copied for AssocMap<K, V> {
    fn copied(&self) -> (res: Self) {
        let mut m: AssocMap<K, V> = AssocMap::new();
        let n: usize = self.len();
        let mut i: usize = 0;
        while i < n
            invariant
                i <= n == self.keys().len() == self.values().len(),
                self.keys().no_duplicates(),
                forall|k: K::V| #[trigger] self@.contains_key(k) <==> self.keys().contains(k),
                forall|j: int|
                    0 <= j < self.keys().len() ==> self@[#[trigger] self.keys()[j]]
                        == self.values()[j]@,
                forall|k: K::V| #[trigger]
                    m@.contains_key(k) <==> self.keys().take(i as int).contains(k),
                forall|k: K::V| #[trigger] m@.contains_key(k) ==> m@[k] == self@[k],
            decreases n - i,
        {
            let k = self.key_at(i).copied();
            let v = self.value_at(i).copied();
            m.insert(k, v);
            proof {
                lemma_next_is_fresh(self.keys(), i as int);
            }
            i += 1;
        }
        assert(self.keys().take(i as int) =~= self.keys());
        assert(m@ =~= self@);
        m
    }
}

/// A set of strings.
pub struct StrSet {
    members: AssocMap<String, ()>,
}

impl View for StrSet {
    type V = Set<Seq<char>>;

    closed spec fn view(&self) -> Set<Seq<char>> {
        self.members@.dom()
    }
}

impl StrSet {
    /// The members in their order.
    pub closed spec fn items(&self) -> Seq<Seq<char>> {
        self.members.keys()
    }

    pub fn new() -> (s: Self)
        ensures
            s@ == Set::<Seq<char>>::empty(),
    {
        let s = StrSet { members: AssocMap::new() };
        assert(s@ =~= Set::empty());
        s
    }

    pub fn contains(&self, x: &String) -> (res: bool)
        ensures
            res == self@.contains(x@),
    {
        self.members.contains_key(x)
    }

    /// Adds `x`; tells whether it was missing.
    pub fn insert(&mut self, x: String) -> (res: bool)
        ensures
            final(self)@ == old(self)@.insert(x@),
            res == !old(self)@.contains(x@),
    {
        let res = self.members.insert(x, ()).is_none();
        assert(self@ =~= old(self)@.insert(x@));
        res
    }

    /// Takes `x` out; tells whether it was there.
    pub fn remove(&mut self, x: &String) -> (res: bool)
        ensures
            final(self)@ == old(self)@.remove(x@),
            res == old(self)@.contains(x@),
    {
        let res = self.members.remove(x).is_some();
        assert(self@ =~= old(self)@.remove(x@));
        res
    }

    /// How many members there are. Each is listed once.
    pub fn len(&self) -> (n: usize)
        ensures
            n == self.items().len(),
            self.items().no_duplicates(),
            forall|x: Seq<char>| #[trigger] self@.contains(x) <==> self.items().contains(x),
    {
        let n: usize = self.members.len();
        assert forall|x: Seq<char>| #[trigger] self@.contains(x) <==> self.items().contains(x) by {
            assert(self@.contains(x) == self.members@.contains_key(x));
        }
        n
    }

    /// The member at position `i`.
    pub fn item_at(&self, i: usize) -> (x: &String)
        requires
            i < self.items().len(),
        ensures
            x@ == self.items()[i as int],
    {
        self.members.key_at(i)
    }
}

impl Copied for StrSet {
    fn copied(&self) -> (res: Self) {
        StrSet { members: self.members.copied() }
    }
}

} // verus!
