//! A map from strings to sequences of values, kept as a list of entries
//! with distinct keys and seen as a `Map` in contracts.

use vstd::prelude::*;
use crate::text::str_eq;

verus! {

/// The map that a list of `(key, values)` entries stands for.
pub open spec fn entries_map<V>(e: Seq<(String, Vec<V>)>) -> Map<Seq<char>, Seq<V>>
    decreases e.len(),
{
    if e.len() == 0 {
        Map::empty()
    } else {
        entries_map(e.drop_last()).insert(e.last().0@, e.last().1@)
    }
}

/// No two entries share a key.
pub open spec fn distinct_keys<V>(e: Seq<(String, Vec<V>)>) -> bool {
    forall|i: int, j: int| 0 <= i < j < e.len() ==> (#[trigger] e[i]).0@ != (#[trigger] e[j]).0@
}

/// The values under `k`, or none.
pub open spec fn values_at<V>(m: Map<Seq<char>, Seq<V>>, k: Seq<char>) -> Seq<V> {
    if m.contains_key(k) {
        m[k]
    } else {
        Seq::empty()
    }
}

proof fn lemma_entry_found<V>(e: Seq<(String, Vec<V>)>, i: int)
    requires
        distinct_keys(e),
        0 <= i < e.len(),
    ensures
        entries_map(e).contains_key(e[i].0@),
        entries_map(e)[e[i].0@] == e[i].1@,
    decreases e.len(),
{
    if i < e.len() - 1 {
        lemma_entry_found(e.drop_last(), i);
        assert(e.drop_last()[i] == e[i]);
        assert(e[i].0@ != e[e.len() - 1].0@);
    }
}

proof fn lemma_entry_absent<V>(e: Seq<(String, Vec<V>)>, k: Seq<char>)
    requires
        forall|i: int| 0 <= i < e.len() ==> (#[trigger] e[i]).0@ != k,
    ensures
        !entries_map(e).contains_key(k),
    decreases e.len(),
{
    if e.len() > 0 {
        assert forall|i: int| 0 <= i < e.drop_last().len() implies (#[trigger] e.drop_last()[i]).0@ != k by {
            assert(e.drop_last()[i] == e[i]);
        }
        lemma_entry_absent(e.drop_last(), k);
        assert(e[e.len() - 1].0@ != k);
    }
}

proof fn lemma_entry_removed<V>(e: Seq<(String, Vec<V>)>, i: int)
    requires
        distinct_keys(e),
        0 <= i < e.len(),
    ensures
        entries_map(e.remove(i)) == entries_map(e).remove(e[i].0@),
    decreases e.len(),
{
    let k = e[i].0@;
    if i == e.len() - 1 {
        assert(e.remove(i) =~= e.drop_last());
        assert forall|j: int| 0 <= j < e.drop_last().len() implies (#[trigger] e.drop_last()[j]).0@ != k by {
            assert(e.drop_last()[j] == e[j]);
        }
        lemma_entry_absent(e.drop_last(), k);
        assert(entries_map(e.drop_last()) =~= entries_map(e).remove(k));
    } else {
        let d = e.drop_last();
        assert(distinct_keys(d)) by {
            assert forall|a: int, b: int| 0 <= a < b < d.len() implies (#[trigger] d[a]).0@ != (#[trigger] d[b]).0@ by {
                assert(d[a] == e[a] && d[b] == e[b]);
            }
        }
        assert(d[i] == e[i]);
        lemma_entry_removed(d, i);
        let r = d.remove(i).push(e.last());
        assert(e.remove(i) =~= r);
        assert(r.drop_last() =~= d.remove(i));
        assert(e.last().0@ != k);
        assert(entries_map(r) == entries_map(d.remove(i)).insert(e.last().0@, e.last().1@));
        assert(entries_map(e) == entries_map(d).insert(e.last().0@, e.last().1@));
        assert(entries_map(e.remove(i)) =~= entries_map(e).remove(k));
    }
}

/// A map from strings to the values pushed under them.
pub struct StrMultiMap<V> {
    entries: Vec<(String, Vec<V>)>,
}

impl<V> View for StrMultiMap<V> {
    type V = Map<Seq<char>, Seq<V>>;

    closed spec fn view(&self) -> Map<Seq<char>, Seq<V>> {
        entries_map(self.entries@)
    }
}

impl<V> StrMultiMap<V> {
    /// Well-formed: no two entries share a key.
    pub closed spec fn wf(&self) -> bool {
        distinct_keys(self.entries@)
    }

    /// The empty map.
    pub fn new() -> (m: StrMultiMap<V>)
        ensures
            m.wf(),
            m@ == Map::<Seq<char>, Seq<V>>::empty(),
    {
        StrMultiMap { entries: Vec::new() }
    }

    fn position(&self, k: &str) -> (r: Option<usize>)
        requires
            self.wf(),
        ensures
            match r {
                Some(i) => i < self.entries@.len() && self.entries@[i as int].0@ == k@,
                None => forall|i: int| 0 <= i < self.entries@.len() ==> (#[trigger] self.entries@[i]).0@ != k@,
            },
    {
        let mut i: usize = 0;
        while i < self.entries.len()
            invariant
                i <= self.entries@.len(),
                forall|j: int| 0 <= j < i ==> (#[trigger] self.entries@[j]).0@ != k@,
            decreases self.entries.len() - i,
        {
            if str_eq(self.entries[i].0.as_str(), k) {
                return Some(i);
            }
            i = i + 1;
        }
        None
    }

    /// The values under `k`, if any were pushed.
    pub fn get(&self, k: &str) -> (r: Option<&Vec<V>>)
        requires
            self.wf(),
        ensures
            match r {
                Some(v) => self@.contains_key(k@) && v@ == self@[k@],
                None => !self@.contains_key(k@),
            },
    {
        match self.position(k) {
            Some(i) => {
                proof {
                    lemma_entry_found(self.entries@, i as int);
                }
                Some(&self.entries[i].1)
            },
            None => {
                proof {
                    lemma_entry_absent(self.entries@, k@);
                }
                None
            },
        }
    }

    /// Removes and returns the values under `k` (none if absent).
    pub fn take(&mut self, k: &str) -> (r: Vec<V>)
        requires
            old(self).wf(),
        ensures
            final(self).wf(),
            r@ == values_at(old(self)@, k@),
            final(self)@ == old(self)@.remove(k@),
    {
        match self.position(k) {
            Some(i) => {
                proof {
                    lemma_entry_found(self.entries@, i as int);
                    lemma_entry_removed(self.entries@, i as int);
                }
                let ghost e0 = self.entries@;
                let (_key, vals) = self.entries.remove(i);
                assert(self.entries@ =~= e0.remove(i as int));
                assert(distinct_keys(self.entries@)) by {
                    assert forall|a: int, b: int| 0 <= a < b < self.entries@.len() implies (#[trigger] self.entries@[a]).0@
                        != (#[trigger] self.entries@[b]).0@ by {
                        let a0 = if a < i { a } else { a + 1 };
                        let b0 = if b < i { b } else { b + 1 };
                        assert(self.entries@[a] == e0[a0] && self.entries@[b] == e0[b0]);
                    }
                }
                vals
            },
            None => {
                proof {
                    lemma_entry_absent(self.entries@, k@);
                }
                assert(entries_map(self.entries@) =~= entries_map(self.entries@).remove(k@));
                Vec::new()
            },
        }
    }

    /// Sets the values under an absent key `k`.
    pub fn put(&mut self, k: &str, v: Vec<V>)
        requires
            old(self).wf(),
            !old(self)@.contains_key(k@),
        ensures
            final(self).wf(),
            final(self)@ == old(self)@.insert(k@, v@),
    {
        let ghost e0 = self.entries@;
        proof {
            assert forall|i: int| 0 <= i < e0.len() implies (#[trigger] e0[i]).0@ != k@ by {
                if e0[i].0@ == k@ {
                    lemma_entry_found(e0, i);
                }
            }
        }
        self.entries.push((String::from_str(k), v));
        assert(self.entries@.drop_last() =~= e0);
    }

    /// Appends `x` to the values under `k`.
    pub fn push(&mut self, k: &str, x: V)
        requires
            old(self).wf(),
        ensures
            final(self).wf(),
            final(self)@ == old(self)@.insert(k@, values_at(old(self)@, k@).push(x)),
    {
        let mut vals = self.take(k);
        vals.push(x);
        self.put(k, vals);
        assert(self@ =~= old(self)@.insert(k@, values_at(old(self)@, k@).push(x)));
    }
}

} // verus!
