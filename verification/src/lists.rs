//! Lists: membership, distinct items, pages and ends.

use vstd::prelude::*;

use crate::table::Key;

verus! {

/// The items of `s` without repetitions, in the order of their first occurrence.
pub open spec fn distinct<T>(s: Seq<T>) -> Seq<T>
    decreases s.len(),
{
    if s.len() == 0 {
        Seq::empty()
    } else {
        let d = distinct(s.drop_last());
        if d.contains(s.last()) {
            d
        } else {
            d.push(s.last())
        }
    }
}

/// The last `max` items of `s`.
pub open spec fn keep_last<T>(s: Seq<T>, max: nat) -> Seq<T> {
    if s.len() > max {
        s.skip(s.len() - max)
    } else {
        s
    }
}

/// Up to `limit` items of `s` from place `offset` on.
pub open spec fn page<T>(s: Seq<T>, offset: nat, limit: nat) -> Seq<T> {
    if offset >= s.len() {
        Seq::empty()
    } else if offset + limit >= s.len() {
        s.skip(offset as int)
    } else {
        s.subrange(offset as int, (offset + limit) as int)
    }
}

/// [`distinct`] keeps every item, and each once.
pub proof fn lemma_distinct<T>(s: Seq<T>)
    ensures
        distinct(s).no_duplicates(),
        distinct(s).len() <= s.len(),
        forall|x: T| #[trigger] distinct(s).contains(x) <==> s.contains(x),
    decreases s.len(),
{
    if s.len() > 0 {
        let d = distinct(s.drop_last());
        lemma_distinct(s.drop_last());
        assert forall|x: T| #[trigger] distinct(s).contains(x) <==> s.contains(x) by {
            if s.contains(x) {
                let i = choose|i: int| 0 <= i < s.len() && s[i] == x;
                if i < s.len() - 1 {
                    assert(s.drop_last()[i] == x);
                    assert(s.drop_last().contains(x));
                    assert(d.contains(x));
                    let k = choose|k: int| 0 <= k < d.len() && d[k] == x;
                    assert(distinct(s)[k] == x);
                } else if !d.contains(x) {
                    assert(distinct(s)[d.len() as int] == x);
                }
            }
            if distinct(s).contains(x) {
                let k = choose|k: int| 0 <= k < distinct(s).len() && distinct(s)[k] == x;
                if k < d.len() {
                    assert(d[k] == x);
                    assert(d.contains(x));
                    let i = choose|i: int|
                        0 <= i < s.drop_last().len() && s.drop_last()[i] == x;
                    assert(s[i] == x);
                } else {
                    assert(s[s.len() - 1] == x);
                }
            }
        }
    }
}

/// What one more item adds to a filtered list.
pub proof fn lemma_filter_step<T>(s: Seq<T>, i: int, p: spec_fn(T) -> bool)
    requires
        0 <= i < s.len(),
    ensures
        s.take(i + 1).filter(p) == if p(s[i]) {
            s.take(i).filter(p).push(s[i])
        } else {
            s.take(i).filter(p)
        },
{
    reveal(Seq::filter);
    assert(s.take(i + 1).drop_last() =~= s.take(i));
}

/// A filtered list of distinct items is one, and holds the items that pass.
pub proof fn lemma_filter_distinct<T>(s: Seq<T>, p: spec_fn(T) -> bool)
    requires
        s.no_duplicates(),
    ensures
        s.filter(p).no_duplicates(),
        s.filter(p).len() <= s.len(),
        forall|x: T| #[trigger] s.filter(p).contains(x) <==> s.contains(x) && p(x),
    decreases s.len(),
{
    reveal(Seq::filter);
    if s.len() > 0 {
        let t = s.drop_last();
        let f = t.filter(p);
        lemma_filter_distinct(t, p);
        assert forall|x: T| #[trigger] s.filter(p).contains(x) <==> s.contains(x) && p(x) by {
            if s.filter(p).contains(x) {
                let k = choose|k: int| 0 <= k < s.filter(p).len() && s.filter(p)[k] == x;
                if k < f.len() {
                    assert(f[k] == x);
                    assert(f.contains(x));
                    let i = choose|i: int| 0 <= i < t.len() && t[i] == x;
                    assert(s[i] == x);
                } else {
                    assert(s[s.len() - 1] == x);
                }
            }
            if s.contains(x) && p(x) {
                let i = choose|i: int| 0 <= i < s.len() && s[i] == x;
                if i < t.len() {
                    assert(t[i] == x);
                    assert(f.contains(x));
                    let k = choose|k: int| 0 <= k < f.len() && f[k] == x;
                    assert(s.filter(p)[k] == x);
                } else {
                    assert(s.filter(p)[f.len() as int] == x);
                }
            }
        }
        assert forall|i: int, j: int|
            0 <= i < j < s.filter(p).len() implies s.filter(p)[i] != s.filter(p)[j] by {
            if j == f.len() {
                assert(f.contains(f[i]));
                let k = choose|k: int| 0 <= k < t.len() && t[k] == f[i];
                assert(s[k] != s[s.len() - 1]);
            }
        }
    }
}

/// Whether `k` is in the list.
pub fn is_listed<K: Key>(list: &Vec<K>, k: K) -> (b: bool)
    ensures
        b == list@.contains(k),
{
    let mut i: usize = 0;
    while i < list.len()
        invariant
            i <= list@.len(),
            forall|j: int| 0 <= j < i ==> #[trigger] list@[j] != k,
        decreases list@.len() - i,
    {
        if list[i].same(k) {
            return true;
        }
        i += 1;
    }
    false
}

/// Appends `k` to a list of distinct items unless it is there.
pub fn push_distinct<K: Key>(list: &mut Vec<K>, k: K)
    ensures
        final(list)@ == if old(list)@.contains(k) {
            old(list)@
        } else {
            old(list)@.push(k)
        },
{
    if !is_listed(list, k) {
        list.push(k);
    }
}

/// Tells the items other than `k` apart.
pub open spec fn other_than<K>(k: K) -> spec_fn(K) -> bool {
    |x: K| x != k
}

/// The items of the list other than `k`.
pub fn without<K: Key>(list: &Vec<K>, k: K) -> (r: Vec<K>)
    ensures
        r@ == list@.filter(other_than(k)),
{
    let ghost p = other_than(k);
    let mut r: Vec<K> = Vec::new();
    let mut i: usize = 0;
    proof {
        reveal(Seq::filter);
        assert(list@.take(0).filter(p) =~= Seq::empty());
    }
    while i < list.len()
        invariant
            i <= list@.len(),
            p == other_than(k),
            r@ == list@.take(i as int).filter(p),
        decreases list@.len() - i,
    {
        proof {
            lemma_filter_step(list@, i as int, p);
        }
        if !list[i].same(k) {
            r.push(list[i]);
        }
        i += 1;
    }
    assert(list@.take(list@.len() as int) =~= list@);
    r
}

/// A list with the items from `from` up to `to`.
pub fn copy_range<T: Copy>(list: &Vec<T>, from: usize, to: usize) -> (r: Vec<T>)
    requires
        from <= to <= list@.len(),
    ensures
        r@ == list@.subrange(from as int, to as int),
{
    let mut r: Vec<T> = Vec::new();
    let mut i: usize = from;
    while i < to
        invariant
            from <= i <= to <= list@.len(),
            r@ =~= list@.subrange(from as int, i as int),
        decreases to - i,
    {
        r.push(list[i]);
        i += 1;
    }
    r
}

/// Whether the two lists hold the same bytes.
pub fn same_bytes(a: &Vec<u8>, b: &Vec<u8>) -> (r: bool)
    ensures
        r == (a@ == b@),
{
    if a.len() != b.len() {
        return false;
    }
    let mut i: usize = 0;
    while i < a.len()
        invariant
            i <= a@.len(),
            a@.len() == b@.len(),
            forall|j: int| 0 <= j < i ==> a@[j] == b@[j],
        decreases a@.len() - i,
    {
        if a[i] != b[i] {
            return false;
        }
        i += 1;
    }
    assert(a@ =~= b@);
    true
}

/// A list with the bytes of the slice.
pub fn copy_slice(bytes: &[u8]) -> (r: Vec<u8>)
    ensures
        r@ == bytes@,
{
    let mut r: Vec<u8> = Vec::new();
    let mut i: usize = 0;
    while i < bytes.len()
        invariant
            i <= bytes@.len(),
            r@ =~= bytes@.take(i as int),
        decreases bytes@.len() - i,
    {
        r.push(bytes[i]);
        i += 1;
    }
    r
}

/// A list with the same items.
pub fn copy_list<T: Copy>(list: &Vec<T>) -> (r: Vec<T>)
    ensures
        r@ == list@,
{
    let r = copy_range(list, 0, list.len());
    assert(r@ =~= list@);
    r
}

/// The last `max` items of the list.
pub fn copy_last<T: Copy>(list: &Vec<T>, max: u32) -> (r: Vec<T>)
    ensures
        r@ == keep_last(list@, max as nat),
{
    let n: usize = list.len();
    let start: usize = if n as u64 > max as u64 {
        n - max as usize
    } else {
        0
    };
    let r = copy_range(list, start, n);
    assert(r@ =~= keep_last(list@, max as nat));
    r
}

/// The bounds of the page of up to `limit` items from place `offset` on, in a list of `len` items.
pub fn page_bounds(len: usize, offset: u32, limit: u32) -> (r: (usize, usize))
    ensures
        r.0 <= r.1 <= len,
        offset >= len ==> r.0 == r.1,
        offset < len ==> r.0 == offset && r.1 == if offset + limit >= len {
            len as int
        } else {
            offset + limit
        },
{
    let from: u64 = offset as u64;
    let to: u64 = from + limit as u64;
    if from >= len as u64 {
        (0, 0)
    } else if to >= len as u64 {
        (from as usize, len)
    } else {
        (from as usize, to as usize)
    }
}

/// The page of up to `limit` items from place `offset` on.
pub fn copy_page<T: Copy>(list: &Vec<T>, offset: u32, limit: u32) -> (r: Vec<T>)
    ensures
        r@ == page(list@, offset as nat, limit as nat),
{
    let b: (usize, usize) = page_bounds(list.len(), offset, limit);
    let r = copy_range(list, b.0, b.1);
    assert(r@ =~= page(list@, offset as nat, limit as nat));
    r
}

} // verus!
