//! Stable ordering of findings by a numeric key, highest first.
use vstd::prelude::*;

verus! {

/// Inserts `x` into `s` after every element whose key is at least `x`'s
/// (scanning from the back), as one step of a stable insertion sort.
pub open spec fn insert_desc<T>(s: Seq<T>, x: T, key: spec_fn(T) -> int) -> Seq<T>
    decreases s.len(),
{
    if s.len() == 0 {
        seq![x]
    } else if key(s.last()) >= key(x) {
        s.push(x)
    } else {
        insert_desc(s.drop_last(), x, key).push(s.last())
    }
}

/// The stable sort of `s` by `key`, highest key first; equal keys keep
/// their order.
pub open spec fn sort_desc<T>(s: Seq<T>, key: spec_fn(T) -> int) -> Seq<T>
    decreases s.len(),
{
    if s.len() == 0 {
        seq![]
    } else {
        insert_desc(sort_desc(s.drop_last(), key), s.last(), key)
    }
}

/// `s` is ordered by `key`, highest first.
pub open spec fn is_sorted_desc<T>(s: Seq<T>, key: spec_fn(T) -> int) -> bool {
    forall|i: int, j: int| 0 <= i < j < s.len() ==> key(s[i]) >= key(s[j])
}

/// Inserting at the place found by scanning back over smaller keys is the
/// same as `insert_desc`.
proof fn lemma_insert_at<T>(s: Seq<T>, x: T, key: spec_fn(T) -> int, j: int)
    requires
        0 <= j <= s.len(),
        forall|i: int| j <= i < s.len() ==> key(#[trigger] s[i]) < key(x),
        j > 0 ==> key(s[j - 1]) >= key(x),
    ensures
        insert_desc(s, x, key) == s.subrange(0, j) + seq![x] + s.subrange(j, s.len() as int),
    decreases s.len(),
{
    if s.len() == 0 {
        assert(s.subrange(0, j) + seq![x] + s.subrange(j, s.len() as int) =~= seq![x]);
    } else if j == s.len() {
        assert(s.subrange(0, j) + seq![x] + s.subrange(j, s.len() as int) =~= s.push(x));
    } else {
        let p = s.drop_last();
        assert forall|i: int| j <= i < p.len() implies key(#[trigger] p[i]) < key(x) by {
            assert(p[i] == s[i]);
        }
        assert(key(s[s.len() - 1]) < key(x));
        lemma_insert_at(p, x, key, j);
        assert(p.subrange(0, j) + seq![x] + p.subrange(j, p.len() as int) + seq![s.last()]
            =~= s.subrange(0, j) + seq![x] + s.subrange(j, s.len() as int));
    }
}

/// Inserting into a sorted sequence keeps it sorted.
proof fn lemma_insert_sorted<T>(s: Seq<T>, x: T, key: spec_fn(T) -> int)
    requires
        is_sorted_desc(s, key),
    ensures
        is_sorted_desc(insert_desc(s, x, key), key),
        insert_desc(s, x, key).len() == s.len() + 1,
        insert_desc(s, x, key).to_multiset() == s.to_multiset().insert(x),
    decreases s.len(),
{
    broadcast use vstd::seq_lib::group_to_multiset_ensures;

    if s.len() == 0 {
        assert(seq![x] =~= Seq::<T>::empty().push(x));
    } else if key(s.last()) >= key(x) {
    } else {
        let p = s.drop_last();
        assert(is_sorted_desc(p, key));
        lemma_insert_sorted(p, x, key);
        let q = insert_desc(p, x, key);
        assert(s =~= p.push(s.last()));
        assert forall|i: int| 0 <= i < p.len() implies key(#[trigger] p[i]) >= key(s.last()) by {
            assert(p[i] == s[i]);
            assert(key(s[i]) >= key(s[s.len() - 1]));
        }
        lemma_insert_bound(p, x, key, key(s.last()));
        assert(q.push(s.last()).to_multiset() =~= q.to_multiset().insert(s.last()));
        assert(s.to_multiset() =~= p.to_multiset().insert(s.last()));
        assert(q.to_multiset().insert(s.last()) =~= s.to_multiset().insert(x));
    }
}

/// A lower bound on the keys of `s` and `x` bounds the keys of the insertion.
proof fn lemma_insert_bound<T>(s: Seq<T>, x: T, key: spec_fn(T) -> int, b: int)
    requires
        forall|i: int| 0 <= i < s.len() ==> key(#[trigger] s[i]) >= b,
        key(x) >= b,
    ensures
        insert_desc(s, x, key).len() == s.len() + 1,
        forall|i: int|
            0 <= i < insert_desc(s, x, key).len() ==> key(#[trigger] insert_desc(s, x, key)[i])
                >= b,
    decreases s.len(),
{
    if s.len() > 0 {
        let p = s.drop_last();
        assert forall|i: int| 0 <= i < p.len() implies key(#[trigger] p[i]) >= b by {
            assert(p[i] == s[i]);
        }
        lemma_insert_bound(p, x, key, b);
        assert(key(s[s.len() - 1]) >= b);
    }
}

proof fn lemma_insert_len<T>(s: Seq<T>, x: T, key: spec_fn(T) -> int)
    ensures
        insert_desc(s, x, key).len() == s.len() + 1,
    decreases s.len(),
{
    if s.len() > 0 {
        lemma_insert_len(s.drop_last(), x, key);
    }
}

/// The stable sort is ordered highest key first and holds exactly the
/// elements it was given.
pub proof fn law_sort_desc_sorted_permutation<T>(s: Seq<T>, key: spec_fn(T) -> int)
    ensures
        is_sorted_desc(sort_desc(s, key), key),
        sort_desc(s, key).len() == s.len(),
        sort_desc(s, key).to_multiset() == s.to_multiset(),
    decreases s.len(),
{
    broadcast use vstd::seq_lib::group_to_multiset_ensures;

    if s.len() > 0 {
        law_sort_desc_sorted_permutation(s.drop_last(), key);
        lemma_insert_sorted(sort_desc(s.drop_last(), key), s.last(), key);
        assert(s =~= s.drop_last().push(s.last()));
    }
}

/// Sorting commutes with a map that keeps the keys of the elements sorted.
pub proof fn lemma_sort_desc_map<T, V>(
    s: Seq<T>,
    key: spec_fn(T) -> int,
    f: spec_fn(T) -> V,
    vkey: spec_fn(V) -> int,
)
    requires
        forall|i: int| 0 <= i < s.len() ==> key(#[trigger] s[i]) == vkey(f(s[i])),
    ensures
        sort_desc(s, key).map_values(f) == sort_desc(s.map_values(f), vkey),
    decreases s.len(),
{
    broadcast use vstd::seq_lib::group_to_multiset_ensures;

    if s.len() > 0 {
        let p = s.drop_last();
        assert forall|i: int| 0 <= i < p.len() implies key(#[trigger] p[i]) == vkey(f(p[i])) by {
            assert(p[i] == s[i]);
        }
        lemma_sort_desc_map(p, key, f, vkey);
        assert(s.map_values(f).drop_last() =~= p.map_values(f));
        law_sort_desc_sorted_permutation(p, key);
        let q = sort_desc(p, key);
        assert forall|i: int| 0 <= i < q.len() implies key(#[trigger] q[i]) == vkey(f(q[i])) by {
            assert(q.to_multiset().count(q[i]) > 0);
            assert(p.to_multiset().count(q[i]) > 0);
            assert(p.contains(q[i]));
            let k = choose|k: int| 0 <= k < p.len() && p[k] == q[i];
            assert(key(p[k]) == vkey(f(p[k])));
        }
        assert(key(s[s.len() - 1]) == vkey(f(s[s.len() - 1])));
        lemma_insert_map(q, s.last(), key, f, vkey);
    } else {
        assert(sort_desc(s, key).map_values(f) =~= sort_desc(s.map_values(f), vkey));
    }
}

proof fn lemma_insert_map<T, V>(
    s: Seq<T>,
    x: T,
    key: spec_fn(T) -> int,
    f: spec_fn(T) -> V,
    vkey: spec_fn(V) -> int,
)
    requires
        forall|i: int| 0 <= i < s.len() ==> key(#[trigger] s[i]) == vkey(f(s[i])),
        key(x) == vkey(f(x)),
    ensures
        insert_desc(s, x, key).map_values(f) == insert_desc(s.map_values(f), f(x), vkey),
    decreases s.len(),
{
    if s.len() == 0 {
        assert(seq![x].map_values(f) =~= seq![f(x)]);
    } else {
        let p = s.drop_last();
        assert forall|i: int| 0 <= i < p.len() implies key(#[trigger] p[i]) == vkey(f(p[i])) by {
            assert(p[i] == s[i]);
        }
        assert(s.map_values(f).last() == f(s.last()));
        assert(s.map_values(f).drop_last() =~= p.map_values(f));
        assert(key(s[s.len() - 1]) == vkey(f(s[s.len() - 1])));
        if key(s.last()) >= key(x) {
            assert(s.push(x).map_values(f) =~= s.map_values(f).push(f(x)));
        } else {
            lemma_insert_map(p, x, key, f, vkey);
            assert(insert_desc(p, x, key).push(s.last()).map_values(f) =~= insert_desc(
                p,
                x,
                key,
            ).map_values(f).push(f(s.last())));
        }
    }
}

/// Sorting items by a parallel list of their keys, seen through `f`, is
/// sorting the seen items by the key that `f` keeps.
pub proof fn lemma_sort_by_keys_view<T, V>(
    items: Seq<T>,
    keys: Seq<u64>,
    f: spec_fn(T) -> V,
    vkey: spec_fn(V) -> int,
)
    requires
        items.len() == keys.len(),
        forall|i: int| 0 <= i < items.len() ==> keys[i] as int == vkey(f(#[trigger] items[i])),
    ensures
        sort_desc(items.zip_with(keys), |p: (T, u64)| p.1 as int).map_values(|p: (T, u64)| p.0).map_values(
            f,
        ) == sort_desc(items.map_values(f), vkey),
{
    let z = items.zip_with(keys);
    let key = |p: (T, u64)| p.1 as int;
    let g = |p: (T, u64)| f(p.0);
    assert forall|i: int| 0 <= i < z.len() implies key(#[trigger] z[i]) == vkey(g(z[i])) by {
        assert(z[i] == (items[i], keys[i]));
    }
    lemma_sort_desc_map(z, key, g, vkey);
    assert(z.map_values(g) =~= items.map_values(f));
    let srt = sort_desc(z, key);
    assert(srt.map_values(|p: (T, u64)| p.0).map_values(f) =~= srt.map_values(g));
}

/// Sorts `v` stably by the keys `keys` (one per element), highest first.
pub fn sort_desc_by_keys<T>(v: Vec<T>, keys: Vec<u64>) -> (r: Vec<T>)
    requires
        v@.len() == keys@.len(),
    ensures
        r@ == sort_desc(v@.zip_with(keys@), |p: (T, u64)| p.1 as int).map_values(
            |p: (T, u64)| p.0,
        ),
{
    let ghost pairs = v@.zip_with(keys@);
    let ghost k = |p: (T, u64)| p.1 as int;
    let mut src = v;
    let mut src_keys = keys;
    let mut out: Vec<T> = Vec::new();
    let mut out_keys: Vec<u64> = Vec::new();
    let n = src.len();
    let mut i: usize = 0;
    while i < n
        invariant
            i <= n,
            n == pairs.len(),
            src@.len() == n - i,
            src_keys@.len() == n - i,
            src@.zip_with(src_keys@) == pairs.subrange(i as int, n as int),
            out@.len() == out_keys@.len(),
            out@.zip_with(out_keys@) == sort_desc(pairs.subrange(0, i as int), k),
            k == (|p: (T, u64)| p.1 as int),
        decreases n - i,
    {
        let ghost s0 = src@;
        let ghost k0 = src_keys@;
        let x = src.remove(0);
        let kx = src_keys.remove(0);
        proof {
            let zs = s0.zip_with(k0);
            assert(zs[0] == (s0[0], k0[0]));
            assert(zs[0] == pairs[i as int]);
            assert(src@.zip_with(src_keys@) =~= pairs.subrange(i + 1, n as int)) by {
                assert forall|t: int| 0 <= t < n - i - 1 implies #[trigger] src@.zip_with(
                    src_keys@,
                )[t] == pairs.subrange(i + 1, n as int)[t] by {
                    assert(zs[t + 1] == pairs[i + 1 + t]);
                }
            }
        }
        let ghost sorted = out@.zip_with(out_keys@);
        let mut j = out.len();
        while j > 0 && out_keys[j - 1] < kx
            invariant
                j <= out@.len(),
                out@.len() == out_keys@.len(),
                sorted == out@.zip_with(out_keys@),
                forall|t: int| j <= t < out@.len() ==> k(#[trigger] sorted[t]) < kx,
                k == (|p: (T, u64)| p.1 as int),
            decreases j,
        {
            j -= 1;
        }
        proof {
            lemma_insert_at(sorted, (x, kx), k, j as int);
        }
        out.insert(j, x);
        out_keys.insert(j, kx);
        proof {
            let pre = pairs.subrange(0, i + 1);
            assert(pre.drop_last() =~= pairs.subrange(0, i as int));
            assert(out@.zip_with(out_keys@) =~= sorted.subrange(0, j as int) + seq![(x, kx)]
                + sorted.subrange(j as int, sorted.len() as int));
        }
        i += 1;
    }
    proof {
        assert(pairs.subrange(0, n as int) =~= pairs);
        assert(out@ =~= out@.zip_with(out_keys@).map_values(|p: (T, u64)| p.0));
    }
    out
}

} // verus!
