//! Attribute maps: from identifier to identifier, a key at most once.

use vstd::prelude::*;
use crate::ast::{alist_view, AListView, IdView, ID};

verus! {

/// The map that a list of pairs writes, a later pair overriding an earlier
/// one with the same key, on top of `base`.
pub open spec fn merge(base: Map<IdView, IdView>, pairs: AListView) -> Map<IdView, IdView>
    decreases pairs.len(),
{
    if pairs.len() == 0 {
        base
    } else {
        merge(base, pairs.drop_last()).insert(pairs.last().0, pairs.last().1)
    }
}

/// No key stands twice among the pairs.
pub open spec fn distinct_keys(pairs: AListView) -> bool {
    forall|i: int, j: int| 0 <= i < j < pairs.len() ==> pairs[i].0 != pairs[j].0
}

/// A key is in the merged map where it was in the base or is one of the
/// pairs' keys.
pub proof fn lemma_merge_dom(base: Map<IdView, IdView>, pairs: AListView, key: IdView)
    ensures
        merge(base, pairs).contains_key(key) <==> base.contains_key(key) || exists|i: int|
            0 <= i < pairs.len() && (#[trigger] pairs[i]).0 == key,
    decreases pairs.len(),
{
    if pairs.len() > 0 {
        let front = pairs.drop_last();
        lemma_merge_dom(base, front, key);
        if exists|i: int| 0 <= i < front.len() && (#[trigger] front[i]).0 == key {
            let i = choose|i: int| 0 <= i < front.len() && (#[trigger] front[i]).0 == key;
            assert(pairs[i].0 == key);
        }
        if exists|i: int| 0 <= i < pairs.len() && (#[trigger] pairs[i]).0 == key {
            let i = choose|i: int| 0 <= i < pairs.len() && (#[trigger] pairs[i]).0 == key;
            if i < pairs.len() - 1 {
                assert(front[i].0 == key);
            }
        }
    }
}

/// Pairs with distinct keys write a map with as many keys as there are
/// pairs.
pub proof fn lemma_distinct_keys_len(pairs: AListView)
    requires
        distinct_keys(pairs),
    ensures
        merge(Map::empty(), pairs).dom().finite(),
        merge(Map::empty(), pairs).dom().len() == pairs.len(),
    decreases pairs.len(),
{
    if pairs.len() > 0 {
        let front = pairs.drop_last();
        let key = pairs.last().0;
        assert forall|i: int, j: int| 0 <= i < j < front.len() implies front[i].0
            != front[j].0 by {
            assert(front[i] == pairs[i]);
            assert(front[j] == pairs[j]);
        }
        lemma_distinct_keys_len(front);
        lemma_merge_dom(Map::empty(), front, key);
        if exists|i: int| 0 <= i < front.len() && (#[trigger] front[i]).0 == key {
            let i = choose|i: int| 0 <= i < front.len() && (#[trigger] front[i]).0 == key;
            assert(pairs[i].0 == pairs[pairs.len() - 1].0);
        }
        let before = merge(Map::empty(), front);
        assert(!before.dom().contains(key));
        assert(merge(Map::empty(), pairs).dom() =~= before.dom().insert(key));
    }
}

/// Replacing the value of the last pair that holds a key is writing that key.
proof fn lemma_merge_update(pairs: AListView, j: int, key: IdView, value: IdView)
    requires
        0 <= j < pairs.len(),
        pairs[j].0 == key,
        forall|i: int| j < i < pairs.len() ==> (#[trigger] pairs[i]).0 != key,
    ensures
        merge(Map::empty(), pairs.update(j, (key, value))) == merge(Map::empty(), pairs).insert(
            key,
            value,
        ),
    decreases pairs.len(),
{
    let updated = pairs.update(j, (key, value));
    if j == pairs.len() - 1 {
        assert(updated.drop_last() =~= pairs.drop_last());
        assert(merge(Map::empty(), updated) =~= merge(Map::empty(), pairs).insert(key, value));
    } else {
        let front = pairs.drop_last();
        assert(updated.drop_last() =~= front.update(j, (key, value)));
        assert(updated.last() == pairs.last());
        assert(pairs.last().0 != key);
        assert forall|i: int| j < i < front.len() implies (#[trigger] front[i]).0 != key by {
            assert(front[i] == pairs[i]);
        }
        lemma_merge_update(front, j, key, value);
        assert(merge(Map::empty(), updated) =~= merge(Map::empty(), pairs).insert(key, value));
    }
}

/// A map from identifier to identifier that holds each key once, in the
/// order in which the keys were first written.
#[derive(Debug)]
pub struct AttrMap {
    entries: Vec<(ID, ID)>,
}

impl View for AttrMap {
    type V = Map<IdView, IdView>;

    open spec fn view(&self) -> Map<IdView, IdView> {
        merge(Map::empty(), self.pairs())
    }
}

impl AttrMap {
    /// The pairs of the map in the order in which their keys were first
    /// written.
    pub closed spec fn pairs(&self) -> AListView {
        alist_view(self.entries@)
    }

    /// No key stands twice.
    pub open spec fn wf(&self) -> bool {
        distinct_keys(self.pairs())
    }

    /// The empty map.
    pub fn new() -> (res: AttrMap)
        ensures
            res@ == Map::<IdView, IdView>::empty(),
            res.pairs() == Seq::<(IdView, IdView)>::empty(),
            res.wf(),
    {
        let res = AttrMap { entries: Vec::new() };
        assert(res.pairs() =~= Seq::<(IdView, IdView)>::empty());
        res
    }

    /// The number of pairs; where no key stands twice, the number of keys.
    pub fn len(&self) -> (n: usize)
        ensures
            n == self.pairs().len(),
            self.wf() ==> self@.dom().finite() && n == self@.dom().len(),
    {
        proof {
            if self.wf() {
                lemma_distinct_keys_len(self.pairs());
            }
        }
        self.entries.len()
    }

    /// The pairs of the map, in the order in which their keys were first
    /// written.
    pub fn entries(&self) -> (res: &Vec<(ID, ID)>)
        ensures
            alist_view(res@) == self.pairs(),
    {
        &self.entries
    }

    /// The index of the last pair that holds `key`, or the number of pairs
    /// where none does.
    fn find(&self, key: &ID) -> (j: usize)
        ensures
            j <= self.pairs().len(),
            j < self.pairs().len() ==> self.pairs()[j as int].0 == key@,
            forall|i: int| j < i < self.pairs().len() ==> (#[trigger] self.pairs()[i]).0 != key@,
            j == self.pairs().len() ==> forall|i: int|
                0 <= i < self.pairs().len() ==> (#[trigger] self.pairs()[i]).0 != key@,
            j == self.pairs().len() ==> !self@.contains_key(key@),
            j < self.pairs().len() ==> self@.contains_key(key@),
    {
        let n = self.entries.len();
        let mut i: usize = n;
        while i > 0
            invariant
                i <= n,
                n == self.entries.len(),
                forall|k: int| i <= k < n ==> (#[trigger] self.pairs()[k]).0 != key@,
            decreases i,
        {
            i -= 1;
            if self.entries[i].0 == *key {
                proof {
                    assert(self.pairs()[i as int].0 == key@);
                    lemma_merge_dom(Map::empty(), self.pairs(), key@);
                }
                return i;
            }
        }
        proof {
            lemma_merge_dom(Map::empty(), self.pairs(), key@);
        }
        n
    }

    /// The value written for `key`, if any.
    pub fn get(&self, key: &ID) -> (res: Option<&ID>)
        ensures
            match res {
                Some(value) => self@.contains_key(key@) && self@[key@] == value@,
                None => !self@.contains_key(key@),
            },
    {
        let j = self.find(key);
        if j < self.entries.len() {
            proof {
                let pairs = self.pairs();
                lemma_merge_update(pairs, j as int, key@, pairs[j as int].1);
                assert(pairs.update(j as int, (key@, pairs[j as int].1)) =~= pairs);
            }
            Some(&self.entries[j].1)
        } else {
            None
        }
    }

    /// Writes `value` for `key`, in place of the value that the key had, if
    /// it had one.
    pub fn set(&mut self, key: ID, value: ID)
        ensures
            final(self)@ == old(self)@.insert(key@, value@),
            old(self).wf() ==> final(self).wf(),
    {
        let j = self.find(&key);
        if j < self.entries.len() {
            proof {
                lemma_merge_update(self.pairs(), j as int, key@, value@);
            }
            let ghost before = self.pairs();
            self.entries.set(j, (key, value));
            assert(self.pairs() =~= before.update(j as int, (key@, value@)));
            assert(distinct_keys(before) ==> distinct_keys(self.pairs())) by {
                if distinct_keys(before) {
                    assert forall|a: int, b: int|
                        0 <= a < b < self.pairs().len() implies self.pairs()[a].0
                        != self.pairs()[b].0 by {
                        assert(self.pairs()[a].0 == before[a].0);
                        assert(self.pairs()[b].0 == before[b].0);
                    }
                }
            }
        } else {
            let ghost before = self.pairs();
            self.entries.push((key, value));
            assert(self.pairs() =~= before.push((key@, value@)));
            assert(self.pairs().drop_last() =~= before);
            assert(distinct_keys(before) ==> distinct_keys(self.pairs())) by {
                if distinct_keys(before) {
                    assert forall|a: int, b: int|
                        0 <= a < b < self.pairs().len() implies self.pairs()[a].0
                        != self.pairs()[b].0 by {
                        assert(self.pairs()[a] == before[a]);
                        if b < before.len() {
                            assert(self.pairs()[b] == before[b]);
                        }
                    }
                }
            }
        }
    }

    /// Writes each pair in turn.
    pub fn extend(&mut self, pairs: &Vec<(ID, ID)>)
        ensures
            final(self)@ == merge(old(self)@, alist_view(pairs@)),
            old(self).wf() ==> final(self).wf(),
    {
        let ghost v = alist_view(pairs@);
        let mut i: usize = 0;
        while i < pairs.len()
            invariant
                i <= pairs.len(),
                v == alist_view(pairs@),
                self@ == merge(old(self)@, v.take(i as int)),
                old(self).wf() ==> self.wf(),
            decreases pairs.len() - i,
        {
            self.set(pairs[i].0.clone(), pairs[i].1.clone());
            proof {
                let next = v.take(i + 1);
                assert(next.drop_last() =~= v.take(i as int));
                assert(next.last() == v[i as int]);
            }
            i += 1;
        }
        proof {
            assert(v.take(pairs.len() as int) =~= v);
        }
    }
}

impl Clone for AttrMap {
    fn clone(&self) -> (res: AttrMap)
        ensures
            res@ == self@,
            res.pairs() == self.pairs(),
    {
        let mut entries: Vec<(ID, ID)> = Vec::new();
        let mut i: usize = 0;
        while i < self.entries.len()
            invariant
                i <= self.entries.len(),
                entries.len() == i,
                forall|k: int| 0 <= k < i ==> entries[k] == self.entries[k],
            decreases self.entries.len() - i,
        {
            entries.push((self.entries[i].0.clone(), self.entries[i].1.clone()));
            i += 1;
        }
        let res = AttrMap { entries };
        assert(res.pairs() =~= self.pairs());
        res
    }
}

} // verus!
