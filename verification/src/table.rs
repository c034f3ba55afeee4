//! Keyed storage: a small map with a mathematical view.

use vstd::prelude::*;

use crate::lists::copy_list;

verus! {

/// A plain value by which a [`Table`] is keyed.
pub trait Key: Copy {
    /// Whether the two keys are the same value.
    fn same(self, other: Self) -> (b: bool)
        ensures
            b == (self == other),
    ;
}

impl Key for u64 {
    fn same(self, other: Self) -> (b: bool) {
        self == other
    }
}

/// The map that a list of entries stands for; where a key occurs twice the later entry counts.
pub open spec fn contents<K, V>(entries: Seq<(K, V)>) -> Map<K, V>
    decreases entries.len(),
{
    if entries.len() == 0 {
        Map::empty()
    } else {
        contents(entries.drop_last()).insert(entries.last().0, entries.last().1)
    }
}

/// A key is in the map exactly if some entry carries it.
proof fn lemma_contents_dom<K, V>(entries: Seq<(K, V)>, k: K)
    ensures
        contents(entries).contains_key(k) <==> exists|i: int|
            0 <= i < entries.len() && #[trigger] entries[i].0 == k,
    decreases entries.len(),
{
    if entries.len() > 0 {
        let rest = entries.drop_last();
        lemma_contents_dom(rest, k);
        if entries.last().0 == k {
            assert(entries[entries.len() - 1].0 == k);
        }
        if exists|i: int| 0 <= i < rest.len() && #[trigger] rest[i].0 == k {
            let i = choose|i: int| 0 <= i < rest.len() && #[trigger] rest[i].0 == k;
            assert(entries[i].0 == k);
        }
        if exists|i: int| 0 <= i < entries.len() && #[trigger] entries[i].0 == k {
            let i = choose|i: int| 0 <= i < entries.len() && #[trigger] entries[i].0 == k;
            if i < rest.len() {
                assert(rest[i].0 == k);
            }
        }
    }
}

/// Off the key `k`, the map does not depend on an entry for `k`.
proof fn lemma_contents_remove<K, V>(entries: Seq<(K, V)>, i: int, k: K)
    requires
        0 <= i < entries.len(),
        entries[i].0 == k,
    ensures
        contents(entries.remove(i)).remove(k) == contents(entries).remove(k),
    decreases entries.len(),
{
    let rest = entries.remove(i);
    if i == entries.len() - 1 {
        assert(rest =~= entries.drop_last());
    } else {
        assert(rest.len() > 0);
        assert(rest.drop_last() =~= entries.drop_last().remove(i));
        lemma_contents_remove(entries.drop_last(), i, k);
        let m = contents(entries.drop_last());
        let n = contents(rest.drop_last());
        let last = entries.last();
        assert(n.remove(k) == m.remove(k));
        assert(rest.last() == last);
        assert(n.insert(last.0, last.1).remove(k) =~= if last.0 == k {
            n.remove(k)
        } else {
            n.remove(k).insert(last.0, last.1)
        });
        assert(m.insert(last.0, last.1).remove(k) =~= if last.0 == k {
            m.remove(k)
        } else {
            m.remove(k).insert(last.0, last.1)
        });
    }
}

/// Where no later entry carries the key of the entry at `i`, the map holds that entry.
proof fn lemma_contents_last<K, V>(entries: Seq<(K, V)>, i: int)
    requires
        0 <= i < entries.len(),
        forall|j: int| i < j < entries.len() ==> #[trigger] entries[j].0 != entries[i].0,
    ensures
        contents(entries).contains_key(entries[i].0),
        contents(entries)[entries[i].0] == entries[i].1,
    decreases entries.len(),
{
    if i < entries.len() - 1 {
        let rest = entries.drop_last();
        assert forall|j: int| i < j < rest.len() implies #[trigger] rest[j].0 != rest[i].0 by {
            assert(entries[j].0 != entries[i].0);
        }
        lemma_contents_last(rest, i);
        assert(entries[entries.len() - 1].0 != entries[i].0);
    }
}

/// A map from keys to values, held as a list of entries.
pub struct Table<K, V> {
    entries: Vec<(K, V)>,
}

impl<K, V> View for Table<K, V> {
    type V = Map<K, V>;

    closed spec fn view(&self) -> Map<K, V> {
        contents(self.entries@)
    }
}

impl<K: Key, V> Table<K, V> {
    /// The empty table.
    pub fn new() -> (t: Self)
        ensures
            t@ == Map::<K, V>::empty(),
    {
        Table { entries: Vec::new() }
    }

    /// What the table holds at `k`.
    pub fn get(&self, k: K) -> (r: Option<&V>)
        ensures
            match r {
                Some(v) => self@.contains_key(k) && self@[k] == *v,
                None => !self@.contains_key(k),
            },
    {
        let mut i: usize = self.entries.len();
        while i > 0
            invariant
                i <= self.entries@.len(),
                forall|j: int| i <= j < self.entries@.len() ==> #[trigger] self.entries@[j].0 != k,
            decreases i,
        {
            i -= 1;
            if self.entries[i].0.same(k) {
                proof {
                    lemma_contents_last(self.entries@, i as int);
                }
                return Some(&self.entries[i].1);
            }
        }
        proof {
            lemma_contents_dom(self.entries@, k);
        }
        None
    }

    /// The entries of the table; where a key occurs twice the later entry counts.
    pub fn entries(&self) -> (r: &Vec<(K, V)>)
        ensures
            contents(r@) == self@,
    {
        &self.entries
    }

    /// Takes the key `k` out of the table.
    pub fn remove(&mut self, k: K)
        ensures
            final(self)@ == old(self)@.remove(k),
    {
        let mut i: usize = 0;
        while i < self.entries.len()
            invariant
                i <= self.entries@.len(),
                self@.remove(k) == old(self)@.remove(k),
                forall|j: int| 0 <= j < i ==> #[trigger] self.entries@[j].0 != k,
            decreases self.entries@.len() - i,
        {
            if self.entries[i].0.same(k) {
                proof {
                    lemma_contents_remove(self.entries@, i as int, k);
                }
                let _ = self.entries.remove(i);
            } else {
                i += 1;
            }
        }
        proof {
            lemma_contents_dom(self.entries@, k);
            assert(self@.remove(k) =~= self@);
        }
    }

    /// Lets the table hold `v` at `k`.
    pub fn put(&mut self, k: K, v: V)
        ensures
            final(self)@ == old(self)@.insert(k, v),
    {
        self.remove(k);
        proof {
            assert(self.entries@.push((k, v)).drop_last() =~= self.entries@);
            assert(old(self)@.remove(k).insert(k, v) =~= old(self)@.insert(k, v));
        }
        self.entries.push((k, v));
    }
}

impl<K: Key, V: Copy> Table<K, V> {
    /// A table with the same contents.
    pub fn duplicate(&self) -> (t: Self)
        ensures
            t@ == self@,
    {
        Table { entries: copy_list(&self.entries) }
    }
}

} // verus!
