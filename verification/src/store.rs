//! The shared key-value store.
//!
//! `Store` owns a mapping from key bytes to [`ValueWithExpiry`]. Its
//! mathematical model is a `Map<Seq<u8>, StoredValue>`. Lookup never
//! evaluates expiry: that decision, and the eviction it may trigger, belong
//! to the command layer.

use vstd::prelude::*;
use crate::types::{StoredValue, ValueWithExpiry};

verus! {

/// Mapping from key to stored value, with each operation atomic with respect
/// to the others (the caller holds the store behind one exclusive-access
/// primitive; nothing here suspends mid-operation).
pub struct Store {
    entries: Vec<(Vec<u8>, ValueWithExpiry)>,
}

spec fn assoc_view(s: Seq<(Vec<u8>, ValueWithExpiry)>) -> Map<Seq<u8>, StoredValue>
    decreases s.len(),
{
    if s.len() == 0 {
        Map::empty()
    } else {
        assoc_view(s.drop_last()).insert(s.last().0@, s.last().1@)
    }
}

spec fn unique_keys(s: Seq<(Vec<u8>, ValueWithExpiry)>) -> bool {
    forall|i: int, j: int| 0 <= i < j < s.len() ==> s[i].0@ != s[j].0@
}

impl View for Store {
    type V = Map<Seq<u8>, StoredValue>;

    closed spec fn view(&self) -> Map<Seq<u8>, StoredValue> {
        assoc_view(self.entries@)
    }
}

proof fn lemma_contains(s: Seq<(Vec<u8>, ValueWithExpiry)>, k: Seq<u8>)
    ensures
        assoc_view(s).contains_key(k) <==> exists|i: int| 0 <= i < s.len() && s[i].0@ == k,
    decreases s.len(),
{
    if s.len() > 0 {
        lemma_contains(s.drop_last(), k);
        if s.last().0@ == k {
            assert(s[s.len() - 1].0@ == k);
        } else {
            if exists|i: int| 0 <= i < s.len() && s[i].0@ == k {
                let i = choose|i: int| 0 <= i < s.len() && s[i].0@ == k;
                assert(s.drop_last()[i].0@ == k);
            }
            if exists|i: int| 0 <= i < s.drop_last().len() && s.drop_last()[i].0@ == k {
                let i = choose|i: int| 0 <= i < s.drop_last().len() && s.drop_last()[i].0@ == k;
                assert(s[i].0@ == k);
            }
        }
    }
}

proof fn lemma_unique_drop_last(s: Seq<(Vec<u8>, ValueWithExpiry)>)
    requires
        unique_keys(s),
        s.len() > 0,
    ensures
        unique_keys(s.drop_last()),
{
    assert forall|i: int, j: int| 0 <= i < j < s.drop_last().len() implies s.drop_last()[i].0@
        != s.drop_last()[j].0@ by {
        assert(s[i].0@ != s[j].0@);
    }
}

proof fn lemma_get(s: Seq<(Vec<u8>, ValueWithExpiry)>, k: Seq<u8>, i: int)
    requires
        unique_keys(s),
        0 <= i < s.len(),
        s[i].0@ == k,
    ensures
        assoc_view(s).contains_key(k),
        assoc_view(s)[k] == s[i].1@,
    decreases s.len(),
{
    if i == s.len() - 1 {
    } else {
        assert(s[i].0@ != s[s.len() - 1].0@);
        lemma_unique_drop_last(s);
        assert(s.drop_last()[i] == s[i]);
        lemma_get(s.drop_last(), k, i);
    }
}

proof fn lemma_update(s: Seq<(Vec<u8>, ValueWithExpiry)>, e: (Vec<u8>, ValueWithExpiry), i: int)
    requires
        unique_keys(s),
        0 <= i < s.len(),
        s[i].0@ == e.0@,
    ensures
        assoc_view(s.update(i, e)) == assoc_view(s).insert(e.0@, e.1@),
    decreases s.len(),
{
    let k = e.0@;
    if i == s.len() - 1 {
        assert(s.update(i, e).drop_last() =~= s.drop_last());
        assert(s.update(i, e).last() == e);
        assert(assoc_view(s.drop_last()).insert(k, e.1@) =~= assoc_view(s.drop_last()).insert(
            k,
            s[i].1@,
        ).insert(k, e.1@));
    } else {
        let t = s.update(i, e);
        assert(t.drop_last() =~= s.drop_last().update(i, e));
        assert(t.last() == s.last());
        lemma_unique_drop_last(s);
        assert(s.drop_last()[i] == s[i]);
        lemma_update(s.drop_last(), e, i);
        let lk = s.last().0@;
        let lv = s.last().1@;
        assert(s[i].0@ != s[s.len() - 1].0@);
        assert(assoc_view(s.drop_last()).insert(k, e.1@).insert(lk, lv) =~= assoc_view(
            s.drop_last(),
        ).insert(lk, lv).insert(k, e.1@));
    }
}

proof fn lemma_push(s: Seq<(Vec<u8>, ValueWithExpiry)>, e: (Vec<u8>, ValueWithExpiry))
    ensures
        assoc_view(s.push(e)) == assoc_view(s).insert(e.0@, e.1@),
{
    assert(s.push(e).drop_last() =~= s);
    assert(s.push(e).last() == e);
}

proof fn lemma_remove(s: Seq<(Vec<u8>, ValueWithExpiry)>, k: Seq<u8>, i: int)
    requires
        unique_keys(s),
        0 <= i < s.len(),
        s[i].0@ == k,
    ensures
        assoc_view(s.remove(i)) == assoc_view(s).remove(k),
    decreases s.len(),
{
    if i == s.len() - 1 {
        assert(s.remove(i) =~= s.drop_last());
        lemma_unique_drop_last(s);
        lemma_contains(s.drop_last(), k);
        assert(!assoc_view(s.drop_last()).contains_key(k)) by {
            if exists|j: int| 0 <= j < s.drop_last().len() && s.drop_last()[j].0@ == k {
                let j = choose|j: int| 0 <= j < s.drop_last().len() && s.drop_last()[j].0@ == k;
                assert(s[j].0@ != s[i].0@);
            }
        }
        assert(assoc_view(s.drop_last()).insert(k, s[i].1@).remove(k) =~= assoc_view(
            s.drop_last(),
        ));
    } else {
        let t = s.remove(i);
        assert(t.drop_last() =~= s.drop_last().remove(i));
        assert(t.last() == s.last());
        lemma_unique_drop_last(s);
        assert(s.drop_last()[i] == s[i]);
        lemma_remove(s.drop_last(), k, i);
        let lk = s.last().0@;
        let lv = s.last().1@;
        assert(s[i].0@ != s[s.len() - 1].0@);
        assert(assoc_view(s.drop_last()).remove(k).insert(lk, lv) =~= assoc_view(
            s.drop_last(),
        ).insert(lk, lv).remove(k));
    }
}

/// Byte-wise equality of two byte vectors.
pub fn bytes_eq(a: &Vec<u8>, b: &Vec<u8>) -> (r: bool)
    ensures
        r == (a@ == b@),
{
    if a.len() != b.len() {
        return false;
    }
    let mut i: usize = 0;
    while i < a.len()
        invariant
            a@.len() == b@.len(),
            i <= a@.len(),
            forall|j: int| 0 <= j < i ==> a@[j] == b@[j],
        decreases a@.len() - i,
    {
        if a[i] != b[i] {
            return false;
        }
        i += 1;
    }
    proof {
        assert(a@ =~= b@);
    }
    true
}

impl Store {
    /// All keys are distinct, so the association list and its map view agree.
    pub closed spec fn wf(&self) -> bool {
        unique_keys(self.entries@)
    }

    /// A fresh, empty store.
    pub fn new() -> (s: Store)
        ensures
            s.wf(),
            s@ == Map::<Seq<u8>, StoredValue>::empty(),
    {
        Store { entries: Vec::new() }
    }

    fn find(&self, key: &Vec<u8>) -> (r: Option<usize>)
        ensures
            match r {
                Some(i) => i < self.entries@.len() && self.entries@[i as int].0@ == key@,
                None => forall|i: int| 0 <= i < self.entries@.len() ==> self.entries@[i].0@ != key@,
            },
    {
        let mut idx: usize = 0;
        while idx < self.entries.len()
            invariant
                idx <= self.entries@.len(),
                forall|i: int| 0 <= i < idx ==> self.entries@[i].0@ != key@,
            decreases self.entries@.len() - idx,
        {
            if bytes_eq(&self.entries[idx].0, key) {
                return Some(idx);
            }
            idx += 1;
        }
        None
    }

    /// Returns the current entry for `key`, or absence, without evaluating
    /// expiry: the "is it expired" decision belongs to the caller.
    pub fn get_if_present(&self, key: &Vec<u8>) -> (r: Option<ValueWithExpiry>)
        requires
            self.wf(),
        ensures
            match r {
                Some(v) => self@.contains_key(key@) && v@ == self@[key@],
                None => !self@.contains_key(key@),
            },
    {
        match self.find(key) {
            Some(i) => {
                proof {
                    lemma_get(self.entries@, key@, i as int);
                }
                Some(self.entries[i].1.clone())
            },
            None => {
                proof {
                    lemma_contains(self.entries@, key@);
                }
                None
            },
        }
    }

    /// Unconditionally inserts or overwrites the entry for `key`.
    pub fn put(&mut self, key: Vec<u8>, v: ValueWithExpiry)
        requires
            old(self).wf(),
        ensures
            final(self).wf(),
            final(self)@ == old(self)@.insert(key@, v@),
    {
        let ghost s0 = self.entries@;
        match self.find(&key) {
            Some(i) => {
                proof {
                    lemma_update(s0, (key, v), i as int);
                }
                self.entries[i] = (key, v);
                assert(unique_keys(self.entries@)) by {
                    assert forall|a: int, b: int|
                        0 <= a < b < self.entries@.len() implies self.entries@[a].0@
                        != self.entries@[b].0@ by {
                        assert(s0[a].0@ != s0[b].0@);
                    }
                }
            },
            None => {
                self.entries.push((key, v));
                proof {
                    lemma_push(s0, (key, v));
                    assert forall|a: int, b: int|
                        0 <= a < b < self.entries@.len() implies self.entries@[a].0@
                        != self.entries@[b].0@ by {
                        if b < s0.len() {
                            assert(s0[a].0@ != s0[b].0@);
                        } else {
                            assert(s0[a].0@ != key@);
                        }
                    }
                }
            },
        }
    }

    /// Removes the entry for `key` if present; no effect if absent.
    pub fn delete(&mut self, key: &Vec<u8>)
        requires
            old(self).wf(),
        ensures
            final(self).wf(),
            final(self)@ == old(self)@.remove(key@),
    {
        let ghost s0 = self.entries@;
        match self.find(key) {
            Some(i) => {
                proof {
                    lemma_remove(s0, key@, i as int);
                }
                self.entries.remove(i);
                assert(unique_keys(self.entries@)) by {
                    assert forall|a: int, b: int|
                        0 <= a < b < self.entries@.len() implies self.entries@[a].0@
                        != self.entries@[b].0@ by {
                        let a0 = if a < i { a } else { a + 1 };
                        let b0 = if b < i { b } else { b + 1 };
                        assert(s0[a0].0@ != s0[b0].0@);
                    }
                }
            },
            None => {
                proof {
                    lemma_contains(s0, key@);
                    assert(self@.remove(key@) =~= self@);
                }
            },
        }
    }
}

} // verus!
