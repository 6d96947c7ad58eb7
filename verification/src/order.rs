//! Stable ordering of lists by a text key, as `slice::sort_by` with a string
//! comparison produces it.
use vstd::prelude::*;
use crate::text::{chars_lt, lemma_text_lt_asymmetric, lemma_text_lt_total, lemma_text_lt_transitive, text_lt};

verus! {

/// `x` placed into `s` just before the first element whose key is above
/// `x`'s key (after every element with an equal key).
pub open spec fn insert_by<T>(x: T, s: Seq<T>, key: spec_fn(T) -> Seq<char>) -> Seq<T>
    decreases s.len(),
{
    if s.len() == 0 {
        seq![x]
    } else if text_lt(key(x), key(s[0])) {
        seq![x] + s
    } else {
        seq![s[0]] + insert_by(x, s.drop_first(), key)
    }
}

/// `s` stably sorted by `key`: the order a stable sort gives, where items
/// with equal keys keep their relative order.
pub open spec fn sort_by<T>(s: Seq<T>, key: spec_fn(T) -> Seq<char>) -> Seq<T>
    decreases s.len(),
{
    if s.len() == 0 {
        s
    } else {
        insert_by(s.last(), sort_by(s.drop_last(), key), key)
    }
}

/// No item of `s` has a key below that of an item before it.
pub open spec fn sorted_by<T>(s: Seq<T>, key: spec_fn(T) -> Seq<char>) -> bool {
    forall|i: int, j: int| 0 <= i < j < s.len() ==> !text_lt(key(s[j]), key(s[i]))
}

/// `p` is where `insert_by` places `x` in `s`.
pub open spec fn is_insert_point<T>(x: T, s: Seq<T>, key: spec_fn(T) -> Seq<char>, p: int) -> bool {
    &&& 0 <= p <= s.len()
    &&& forall|i: int| 0 <= i < p ==> !text_lt(key(x), key(#[trigger] s[i]))
    &&& p < s.len() ==> text_lt(key(x), key(s[p]))
}

proof fn lemma_insert_by_at<T>(x: T, s: Seq<T>, key: spec_fn(T) -> Seq<char>, p: int)
    requires
        is_insert_point(x, s, key, p),
    ensures
        insert_by(x, s, key) == s.insert(p, x),
    decreases s.len(),
{
    if s.len() == 0 {
        assert(s.insert(p, x) =~= seq![x]);
    } else if text_lt(key(x), key(s[0])) {
        assert(p == 0);
        assert(s.insert(p, x) =~= seq![x] + s);
    } else {
        assert(p > 0);
        let t = s.drop_first();
        assert forall|i: int| 0 <= i < p - 1 implies !text_lt(key(x), key(#[trigger] t[i])) by {
            assert(t[i] == s[i + 1]);
        }
        lemma_insert_by_at(x, t, key, p - 1);
        assert(s.insert(p, x) =~= seq![s[0]] + t.insert(p - 1, x));
    }
}

proof fn lemma_insert_by_sorted<T>(x: T, s: Seq<T>, key: spec_fn(T) -> Seq<char>, p: int)
    requires
        sorted_by(s, key),
        is_insert_point(x, s, key, p),
    ensures
        sorted_by(s.insert(p, x), key),
{
    let r = s.insert(p, x);
    assert forall|i: int, j: int| 0 <= i < j < r.len() implies !text_lt(key(r[j]), key(r[i])) by {
        if j == p {
            assert(r[i] == s[i]);
        } else if i == p {
            assert(r[j] == s[j - 1]);
            if text_lt(key(s[j - 1]), key(x)) {
                lemma_text_lt_transitive(key(s[j - 1]), key(x), key(s[p]));
                if j - 1 == p {
                    lemma_text_lt_asymmetric(key(s[p]), key(x));
                }
            }
        } else {
            let si = if i < p {
                i
            } else {
                i - 1
            };
            let sj = if j < p {
                j
            } else {
                j - 1
            };
            assert(r[i] == s[si]);
            assert(r[j] == s[sj]);
        }
    }
}

/// A stably sorted list is sorted by its key.
pub proof fn lemma_sort_by_sorted<T>(s: Seq<T>, key: spec_fn(T) -> Seq<char>)
    ensures
        sorted_by(sort_by(s, key), key),
        sort_by(s, key).len() == s.len(),
    decreases s.len(),
{
    if s.len() > 0 {
        let t = sort_by(s.drop_last(), key);
        lemma_sort_by_sorted(s.drop_last(), key);
        let p = first_above(s.last(), t, key, 0);
        lemma_first_above(s.last(), t, key, 0);
        lemma_insert_by_at(s.last(), t, key, p);
        lemma_insert_by_sorted(s.last(), t, key, p);
    }
}

/// The first position at or after `from` whose key is above `x`'s.
pub open spec fn first_above<T>(x: T, s: Seq<T>, key: spec_fn(T) -> Seq<char>, from: int) -> int
    decreases s.len() - from,
{
    if from < 0 || from >= s.len() {
        s.len() as int
    } else if text_lt(key(x), key(s[from])) {
        from
    } else {
        first_above(x, s, key, from + 1)
    }
}

proof fn lemma_first_above<T>(x: T, s: Seq<T>, key: spec_fn(T) -> Seq<char>, from: int)
    requires
        0 <= from <= s.len(),
        forall|i: int| 0 <= i < from ==> !text_lt(key(x), key(#[trigger] s[i])),
    ensures
        is_insert_point(x, s, key, first_above(x, s, key, from)),
    decreases s.len() - from,
{
    if from < s.len() && !text_lt(key(x), key(s[from])) {
        lemma_first_above(x, s, key, from + 1);
    }
}

/// A stable sort rearranges the list: it holds the same items, each as often.
pub proof fn lemma_sort_by_permutes<T>(s: Seq<T>, key: spec_fn(T) -> Seq<char>)
    ensures
        sort_by(s, key).to_multiset() == s.to_multiset(),
    decreases s.len(),
{
    broadcast use vstd::seq_lib::group_to_multiset_ensures;

    if s.len() > 0 {
        let t = sort_by(s.drop_last(), key);
        lemma_sort_by_permutes(s.drop_last(), key);
        let p = first_above(s.last(), t, key, 0);
        lemma_first_above(s.last(), t, key, 0);
        lemma_insert_by_at(s.last(), t, key, p);
        lemma_insert_multiset(t, p, s.last());
        assert(s =~= s.drop_last().push(s.last()));
    }
}

proof fn lemma_insert_multiset<T>(s: Seq<T>, p: int, x: T)
    requires
        0 <= p <= s.len(),
    ensures
        s.insert(p, x).to_multiset() == s.to_multiset().insert(x),
{
    broadcast use vstd::seq_lib::group_to_multiset_ensures;

    let a = s.subrange(0, p);
    let b = s.subrange(p, s.len() as int);
    assert(s =~= a + b);
    assert(s.insert(p, x) =~= a.push(x) + b);
    vstd::seq_lib::lemma_multiset_commutative(a.push(x), b);
    vstd::seq_lib::lemma_multiset_commutative(a, b);
}

proof fn lemma_insert_by_map<T, U>(
    x: T,
    s: Seq<T>,
    f: spec_fn(T) -> U,
    key: spec_fn(T) -> Seq<char>,
    key2: spec_fn(U) -> Seq<char>,
)
    requires
        forall|y: T| #[trigger] key(y) == key2(f(y)),
    ensures
        insert_by(x, s, key).map_values(f) == insert_by(f(x), s.map_values(f), key2),
    decreases s.len(),
{
    if s.len() == 0 {
        assert(insert_by(x, s, key).map_values(f) =~= seq![f(x)]);
    } else {
        assert(key(x) == key2(f(x)));
        assert(key(s[0]) == key2(f(s[0])));
        assert(s.map_values(f)[0] == f(s[0]));
        if text_lt(key(x), key(s[0])) {
            assert((seq![x] + s).map_values(f) =~= seq![f(x)] + s.map_values(f));
        } else {
            lemma_insert_by_map(x, s.drop_first(), f, key, key2);
            assert(s.drop_first().map_values(f) =~= s.map_values(f).drop_first());
            assert((seq![s[0]] + insert_by(x, s.drop_first(), key)).map_values(f) =~= seq![f(s[0])]
                + insert_by(x, s.drop_first(), key).map_values(f));
        }
    }
}

/// Sorting commutes with a map that preserves the key.
pub proof fn lemma_sort_by_map<T, U>(
    s: Seq<T>,
    f: spec_fn(T) -> U,
    key: spec_fn(T) -> Seq<char>,
    key2: spec_fn(U) -> Seq<char>,
)
    requires
        forall|y: T| #[trigger] key(y) == key2(f(y)),
    ensures
        sort_by(s, key).map_values(f) == sort_by(s.map_values(f), key2),
    decreases s.len(),
{
    if s.len() == 0 {
        assert(s.map_values(f) =~= Seq::<U>::empty());
    } else {
        lemma_sort_by_map(s.drop_last(), f, key, key2);
        lemma_insert_by_map(s.last(), sort_by(s.drop_last(), key), f, key, key2);
        assert(s.drop_last().map_values(f) =~= s.map_values(f).drop_last());
    }
}

/// Sorts items stably by their key; each item comes with its key's
/// characters.
pub fn sort_keyed<T>(items: Vec<(Vec<char>, T)>, Ghost(key): Ghost<spec_fn(T) -> Seq<char>>) -> (r:
    Vec<T>)
    requires
        forall|i: int| 0 <= i < items.len() ==> (#[trigger] items@[i]).0@ == key(items@[i].1),
    ensures
        r@ == sort_by(items@.map_values(|p: (Vec<char>, T)| p.1), key),
{
    let ghost vals = items@.map_values(|p: (Vec<char>, T)| p.1);
    let n = items.len();
    let mut src = items;
    let mut rev: Vec<(Vec<char>, T)> = Vec::new();
    while src.len() > 0
        invariant
            src.len() + rev.len() == n,
            vals.len() == n,
            forall|i: int| 0 <= i < src.len() ==> (#[trigger] src@[i]).1 == vals[i],
            forall|i: int| 0 <= i < rev.len() ==> (#[trigger] rev@[i]).1 == vals[n - 1 - i],
            forall|i: int| 0 <= i < src.len() ==> (#[trigger] src@[i]).0@ == key(src@[i].1),
            forall|i: int| 0 <= i < rev.len() ==> (#[trigger] rev@[i]).0@ == key(rev@[i].1),
        decreases src.len(),
    {
        let it = src.pop().unwrap();
        rev.push(it);
    }
    let mut out: Vec<(Vec<char>, T)> = Vec::new();
    let ghost done: int = 0;
    while rev.len() > 0
        invariant
            rev.len() + done == n,
            0 <= done <= n,
            vals.len() == n,
            forall|i: int| 0 <= i < rev.len() ==> (#[trigger] rev@[i]).1 == vals[n - 1 - i],
            forall|i: int| 0 <= i < rev.len() ==> (#[trigger] rev@[i]).0@ == key(rev@[i].1),
            forall|i: int| 0 <= i < out.len() ==> (#[trigger] out@[i]).0@ == key(out@[i].1),
            out@.map_values(|p: (Vec<char>, T)| p.1) == sort_by(vals.take(done), key),
        decreases rev.len(),
    {
        let it = rev.pop().unwrap();
        let ghost x = it.1;
        let ghost before = out@.map_values(|p: (Vec<char>, T)| p.1);
        proof {
            assert(x == vals[done]);
        }
        let mut p: usize = 0;
        while p < out.len() && !chars_lt(&it.0, &out[p].0)
            invariant
                p <= out.len(),
                it.0@ == key(x),
                it.1 == x,
                before == out@.map_values(|q: (Vec<char>, T)| q.1),
                forall|i: int| 0 <= i < out.len() ==> (#[trigger] out@[i]).0@ == key(out@[i].1),
                forall|i: int| 0 <= i < p ==> !text_lt(key(x), key(#[trigger] before[i])),
            decreases out.len() - p,
        {
            p = p + 1;
        }
        proof {
            assert(is_insert_point(x, before, key, p as int));
            lemma_insert_by_at(x, before, key, p as int);
            assert(vals.take(done + 1).drop_last() =~= vals.take(done));
            assert(vals.take(done + 1).last() == x);
        }
        out.insert(p, it);
        proof {
            done = done + 1;
            assert(out@.map_values(|q: (Vec<char>, T)| q.1) =~= before.insert(p as int, x));
        }
    }
    proof {
        assert(vals.take(n as int) =~= vals);
        lemma_sort_by_sorted(vals, key);
    }
    let mut res: Vec<T> = Vec::new();
    let mut rev2: Vec<T> = Vec::new();
    let ghost sorted_vals = out@.map_values(|q: (Vec<char>, T)| q.1);
    while out.len() > 0
        invariant
            out.len() + rev2.len() == n,
            sorted_vals.len() == n,
            forall|i: int| 0 <= i < out.len() ==> (#[trigger] out@[i]).1 == sorted_vals[i],
            forall|i: int| 0 <= i < rev2.len() ==> (#[trigger] rev2@[i]) == sorted_vals[n - 1 - i],
        decreases out.len(),
    {
        let it = out.pop().unwrap();
        rev2.push(it.1);
    }
    while rev2.len() > 0
        invariant
            rev2.len() + res.len() == n,
            sorted_vals.len() == n,
            forall|i: int| 0 <= i < rev2.len() ==> (#[trigger] rev2@[i]) == sorted_vals[n - 1 - i],
            forall|i: int| 0 <= i < res.len() ==> (#[trigger] res@[i]) == sorted_vals[i],
        decreases rev2.len(),
    {
        let it = rev2.pop().unwrap();
        res.push(it);
    }
    proof {
        assert(res@ =~= sorted_vals);
    }
    res
}

} // verus!
