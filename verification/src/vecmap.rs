use vstd::prelude::*;
use crate::account::AccountId;

verus! {

/// A key usable in a [`VecMap`]: its view decides identity, and `mk_eq`
/// decides it executably.
pub trait MapKey: View + Sized {
    fn mk_eq(&self, other: &Self) -> (r: bool)
        ensures
            r == (self@ == other@),
    ;
}

impl MapKey for u64 {
    fn mk_eq(&self, other: &Self) -> (r: bool)
        ensures
            r == (self@ == other@),
    {
        *self == *other
    }
}

impl MapKey for AccountId {
    fn mk_eq(&self, other: &Self) -> (r: bool)
        ensures
            r == (self@ == other@),
    {
        self.hi == other.hi && self.lo == other.lo
    }
}

impl MapKey for String {
    fn mk_eq(&self, other: &Self) -> (r: bool)
        ensures
            r == (self@ == other@),
    {
        String::eq(self, other)
    }
}

impl MapKey for (u64, u16) {
    fn mk_eq(&self, other: &Self) -> (r: bool)
        ensures
            r == (self@ == other@),
    {
        self.0 == other.0 && self.1 == other.1
    }
}

impl MapKey for (u64, AccountId) {
    fn mk_eq(&self, other: &Self) -> (r: bool)
        ensures
            r == (self@ == other@),
    {
        self.0 == other.0 && self.1.hi == other.1.hi && self.1.lo == other.1.lo
    }
}

impl MapKey for (u64, AccountId, AccountId) {
    fn mk_eq(&self, other: &Self) -> (r: bool)
        ensures
            r == (self@ == other@),
    {
        self.0 == other.0 && self.1.hi == other.1.hi && self.1.lo == other.1.lo
            && self.2.hi == other.2.hi && self.2.lo == other.2.lo
    }
}

/// The map denoted by a sequence of entries; a later entry overrides an
/// earlier one with the same key.
pub open spec fn entries_map<K: MapKey, Val>(s: Seq<(K, Val)>) -> Map<<K as View>::V, Val>
    decreases s.len(),
{
    if s.len() == 0 {
        Map::empty()
    } else {
        entries_map(s.drop_last()).insert(s.last().0@, s.last().1)
    }
}

pub open spec fn entries_unique<K: MapKey, Val>(s: Seq<(K, Val)>) -> bool {
    forall|i: int, j: int| 0 <= i < j < s.len() ==> s[i].0@ != s[j].0@
}

pub proof fn lemma_entries_map_contains<K: MapKey, Val>(s: Seq<(K, Val)>, k: <K as View>::V)
    ensures
        entries_map(s).contains_key(k) <==> exists|i: int| 0 <= i < s.len() && s[i].0@ == k,
    decreases s.len(),
{
    if s.len() > 0 {
        lemma_entries_map_contains(s.drop_last(), k);
        if s.last().0@ == k {
            assert(s[s.len() - 1].0@ == k);
        } else {
            if entries_map(s).contains_key(k) {
                let i = choose|i: int| 0 <= i < s.drop_last().len() && s.drop_last()[i].0@ == k;
                assert(s[i].0@ == k);
            }
            if exists|i: int| 0 <= i < s.len() && s[i].0@ == k {
                let i = choose|i: int| 0 <= i < s.len() && s[i].0@ == k;
                assert(s.drop_last()[i].0@ == k);
            }
        }
    }
}

pub proof fn lemma_entries_map_index<K: MapKey, Val>(s: Seq<(K, Val)>, i: int)
    requires
        entries_unique(s),
        0 <= i < s.len(),
    ensures
        entries_map(s).contains_key(s[i].0@),
        entries_map(s)[s[i].0@] == s[i].1,
    decreases s.len(),
{
    if i == s.len() - 1 {
        lemma_entries_map_contains(s, s[i].0@);
    } else {
        lemma_entries_map_index(s.drop_last(), i);
        assert(s.drop_last()[i] == s[i]);
    }
}

pub proof fn lemma_entries_map_remove<K: MapKey, Val>(s: Seq<(K, Val)>, i: int)
    requires
        entries_unique(s),
        0 <= i < s.len(),
    ensures
        entries_map(s.remove(i)) == entries_map(s).remove(s[i].0@),
    decreases s.len(),
{
    let k = s[i].0@;
    if i == s.len() - 1 {
        assert(s.remove(i) =~= s.drop_last());
        lemma_entries_map_contains(s.drop_last(), k);
        assert(entries_map(s.drop_last()) =~= entries_map(s).remove(k));
    } else {
        let t = s.remove(i);
        assert(t.drop_last() =~= s.drop_last().remove(i));
        assert(t.last() == s.last());
        lemma_entries_map_remove(s.drop_last(), i);
        assert(entries_map(t) == entries_map(s.drop_last().remove(i)).insert(t.last().0@, t.last().1));
        assert(entries_map(s.drop_last().remove(i)) == entries_map(s.drop_last()).remove(k));
        assert(s.last().0@ != k);
        assert(entries_map(s.drop_last()).remove(k).insert(s.last().0@, s.last().1) =~= entries_map(
            s,
        ).remove(k));
    }
}

/// A keyed store backed by a vector of entries with pairwise-distinct keys.
#[derive(Debug)]
pub struct VecMap<K, Val> {
    pub entries: Vec<(K, Val)>,
}

impl<K: MapKey, Val> VecMap<K, Val> {
    /// The mathematical map this store holds.
    pub open spec fn m(self) -> Map<<K as View>::V, Val> {
        entries_map(self.entries@)
    }

    pub open spec fn wf(self) -> bool {
        entries_unique(self.entries@)
    }

    pub fn new() -> (r: Self)
        ensures
            r.wf(),
            r.m() == Map::<<K as View>::V, Val>::empty(),
    {
        VecMap { entries: Vec::new() }
    }

    pub fn get(&self, k: &K) -> (r: Option<&Val>)
        requires
            self.wf(),
        ensures
            match r {
                Some(v) => self.m().contains_key(k@) && *v == self.m()[k@],
                None => !self.m().contains_key(k@),
            },
    {
        let n = self.entries.len();
        let mut i: usize = 0;
        while i < n
            invariant
                self.wf(),
                n == self.entries@.len(),
                0 <= i <= n,
                forall|j: int| 0 <= j < i ==> self.entries@[j].0@ != k@,
            decreases n - i,
        {
            if self.entries[i].0.mk_eq(k) {
                proof {
                    lemma_entries_map_index(self.entries@, i as int);
                }
                return Some(&self.entries[i].1);
            }
            i = i + 1;
        }
        proof {
            lemma_entries_map_contains(self.entries@, k@);
        }
        None
    }

    pub fn contains_key(&self, k: &K) -> (r: bool)
        requires
            self.wf(),
        ensures
            r == self.m().contains_key(k@),
    {
        self.get(k).is_some()
    }

    /// Removes and returns the value stored under `k`, if any.
    pub fn take(&mut self, k: &K) -> (r: Option<Val>)
        requires
            old(self).wf(),
        ensures
            final(self).wf(),
            match r {
                Some(v) => old(self).m().contains_key(k@) && v == old(self).m()[k@] && final(self).m()
                    == old(self).m().remove(k@),
                None => !old(self).m().contains_key(k@) && final(self).m() == old(self).m(),
            },
    {
        let n = self.entries.len();
        let mut i: usize = 0;
        while i < n
            invariant
                self.wf(),
                self.entries@ == old(self).entries@,
                n == self.entries@.len(),
                0 <= i <= n,
                forall|j: int| 0 <= j < i ==> self.entries@[j].0@ != k@,
            decreases n - i,
        {
            if self.entries[i].0.mk_eq(k) {
                proof {
                    lemma_entries_map_index(self.entries@, i as int);
                    lemma_entries_map_remove(self.entries@, i as int);
                }
                let pair = self.entries.remove(i);
                return Some(pair.1);
            }
            i = i + 1;
        }
        proof {
            lemma_entries_map_contains(self.entries@, k@);
        }
        None
    }

    pub fn insert(&mut self, k: K, v: Val)
        requires
            old(self).wf(),
        ensures
            final(self).wf(),
            final(self).m() == old(self).m().insert(k@, v),
    {
        let _old = self.take(&k);
        let ghost pre = self.entries@;
        proof {
            lemma_entries_map_contains(pre, k@);
            assert(forall|j: int| 0 <= j < pre.len() ==> pre[j].0@ != k@);
        }
        self.entries.push((k, v));
        proof {
            assert(self.entries@.drop_last() =~= pre);
            assert(self.entries@.last() == (k, v));
            assert(self.m() == entries_map(pre).insert(k@, v));
            assert(entries_map(pre).insert(k@, v) =~= old(self).m().insert(k@, v));
        }
    }

    pub fn remove(&mut self, k: &K)
        requires
            old(self).wf(),
        ensures
            final(self).wf(),
            final(self).m() == old(self).m().remove(k@),
    {
        let _old = self.take(k);
        proof {
            if !old(self).m().contains_key(k@) {
                assert(old(self).m().remove(k@) =~= old(self).m());
            }
        }
    }
}

} // verus!
