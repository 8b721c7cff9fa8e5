//! Lexicographic order of texts (by code point, which is the byte order of
//! their UTF-8 encodings) and sorted sets of texts.
use vstd::prelude::*;

verus! {

/// `a` sorts strictly before `b`.
pub open spec fn lex_lt(a: Seq<char>, b: Seq<char>) -> bool
    decreases a.len(),
{
    if a.len() == 0 {
        b.len() > 0
    } else if b.len() == 0 {
        false
    } else if a[0] != b[0] {
        (a[0] as u32) < (b[0] as u32)
    } else {
        lex_lt(a.drop_first(), b.drop_first())
    }
}

pub proof fn lemma_lex_irreflexive(a: Seq<char>)
    ensures
        !lex_lt(a, a),
    decreases a.len(),
{
    if a.len() > 0 {
        lemma_lex_irreflexive(a.drop_first());
    }
}

pub proof fn lemma_lex_total(a: Seq<char>, b: Seq<char>)
    ensures
        a == b || lex_lt(a, b) || lex_lt(b, a),
        !(lex_lt(a, b) && lex_lt(b, a)),
    decreases a.len(),
{
    broadcast use vstd::utf8::char_u32_cast;

    if a.len() > 0 && b.len() > 0 {
        if a[0] == b[0] {
            lemma_lex_total(a.drop_first(), b.drop_first());
            if a.drop_first() == b.drop_first() {
                assert(a =~= seq![a[0]] + a.drop_first());
                assert(b =~= seq![b[0]] + b.drop_first());
            }
        } else {
            vstd::utf8::char_u32_cast(a[0], a[0] as u32);
            vstd::utf8::char_u32_cast(b[0], b[0] as u32);
            assert((a[0] as u32) != (b[0] as u32));
        }
    } else if a.len() == 0 && b.len() == 0 {
        assert(a =~= b);
    }
}

pub proof fn lemma_lex_transitive(a: Seq<char>, b: Seq<char>, c: Seq<char>)
    requires
        lex_lt(a, b),
        lex_lt(b, c),
    ensures
        lex_lt(a, c),
    decreases a.len(),
{
    if a.len() > 0 && b.len() > 0 && c.len() > 0 {
        if a[0] == b[0] && b[0] == c[0] {
            lemma_lex_transitive(a.drop_first(), b.drop_first(), c.drop_first());
        }
    }
}

/// The texts of a list of character vectors.
pub open spec fn texts_view(v: Seq<Vec<char>>) -> Seq<Seq<char>> {
    v.map_values(|t: Vec<char>| t@)
}

/// `s` is in strictly increasing order.
pub open spec fn lex_increasing(s: Seq<Seq<char>>) -> bool {
    forall|i: int, j: int| 0 <= i < j < s.len() ==> lex_lt(s[i], s[j])
}

/// Two increasing sequences with the same members are the same sequence.
pub proof fn lemma_lex_increasing_unique(a: Seq<Seq<char>>, b: Seq<Seq<char>>)
    requires
        lex_increasing(a),
        lex_increasing(b),
        forall|x: Seq<char>| a.contains(x) <==> b.contains(x),
    ensures
        a == b,
    decreases a.len(),
{
    if a.len() == 0 {
        if b.len() > 0 {
            assert(b.contains(b[0]));
        }
        assert(a =~= b);
    } else if b.len() == 0 {
        assert(a.contains(a[0]));
    } else {
        assert(a.contains(a[0]));
        assert(b.contains(b[0]));
        let k = choose|k: int| 0 <= k < b.len() && b[k] == a[0];
        let m = choose|m: int| 0 <= m < a.len() && a[m] == b[0];
        lemma_lex_total(a[0], b[0]);
        if a[0] != b[0] {
            assert(lex_lt(b[0], b[k]));
            assert(lex_lt(a[0], a[m]));
        }
        let at = a.drop_first();
        let bt = b.drop_first();
        assert forall|x: Seq<char>| at.contains(x) implies bt.contains(x) by {
            let i = choose|i: int| 0 <= i < at.len() && at[i] == x;
            assert(a[i + 1] == x);
            assert(a.contains(x));
            let j = choose|j: int| 0 <= j < b.len() && b[j] == x;
            lemma_lex_irreflexive(x);
            assert(j != 0);
            assert(bt[j - 1] == x);
        }
        assert forall|x: Seq<char>| bt.contains(x) implies at.contains(x) by {
            let i = choose|i: int| 0 <= i < bt.len() && bt[i] == x;
            assert(b[i + 1] == x);
            assert(b.contains(x));
            let j = choose|j: int| 0 <= j < a.len() && a[j] == x;
            lemma_lex_irreflexive(x);
            assert(j != 0);
            assert(at[j - 1] == x);
        }
        lemma_lex_increasing_unique(at, bt);
        assert(a =~= seq![a[0]] + at);
        assert(b =~= seq![b[0]] + bt);
    }
}

/// `x` placed into the increasing sequence `s`, unless it is there already.
pub open spec fn lex_insert(s: Seq<Seq<char>>, x: Seq<char>) -> Seq<Seq<char>>
    decreases s.len(),
{
    if s.len() == 0 {
        seq![x]
    } else if lex_lt(s.last(), x) {
        s.push(x)
    } else if s.last() == x {
        s
    } else {
        lex_insert(s.drop_last(), x).push(s.last())
    }
}

/// The distinct texts of `s`, in increasing order (what sorting and
/// removing duplicates gives).
pub open spec fn lex_sorted_set(s: Seq<Seq<char>>) -> Seq<Seq<char>>
    decreases s.len(),
{
    if s.len() == 0 {
        seq![]
    } else {
        lex_insert(lex_sorted_set(s.drop_last()), s.last())
    }
}

proof fn lemma_lex_insert_props(s: Seq<Seq<char>>, x: Seq<char>)
    requires
        lex_increasing(s),
    ensures
        lex_increasing(lex_insert(s, x)),
        lex_insert(s, x).to_set() == s.to_set().insert(x),
    decreases s.len(),
{
    broadcast use vstd::seq_lib::group_seq_properties;

    if s.len() == 0 {
        assert(seq![x].to_set() =~= Set::<Seq<char>>::empty().insert(x)) by {
            assert(seq![x].contains(x));
        }
        assert(s.to_set() =~= Set::<Seq<char>>::empty());
    } else if lex_lt(s.last(), x) {
        assert forall|i: int, j: int| 0 <= i < j < s.push(x).len() implies lex_lt(
            s.push(x)[i],
            s.push(x)[j],
        ) by {
            if j == s.len() {
                if i < s.len() - 1 {
                    lemma_lex_transitive(s[i], s.last(), x);
                }
            }
        }
        assert(s.push(x).to_set() =~= s.to_set().insert(x));
    } else if s.last() == x {
        assert(s.contains(x));
        assert(s.to_set() =~= s.to_set().insert(x));
    } else {
        let p = s.drop_last();
        assert(lex_increasing(p));
        lemma_lex_insert_props(p, x);
        let q = lex_insert(p, x);
        lemma_lex_total(s.last(), x);
        assert forall|k: int| 0 <= k < q.len() implies lex_lt(q[k], s.last()) by {
            assert(q.to_set().contains(q[k])) by {
                assert(q.contains(q[k]));
            }
            if q[k] != x {
                assert(p.to_set().contains(q[k]));
                let m = choose|m: int| 0 <= m < p.len() && p[m] == q[k];
                assert(lex_lt(s[m], s[s.len() - 1]));
            }
        }
        assert(q.push(s.last()).to_set() =~= q.to_set().insert(s.last()));
        assert(s =~= p.push(s.last()));
        assert(s.to_set() =~= p.to_set().insert(s.last()));
        assert(q.push(s.last()).to_set() =~= s.to_set().insert(x));
    }
}

/// Sorting and removing duplicates gives an increasing sequence of exactly
/// the texts given.
pub proof fn law_lex_sorted_set(s: Seq<Seq<char>>)
    ensures
        lex_increasing(lex_sorted_set(s)),
        lex_sorted_set(s).to_set() == s.to_set(),
    decreases s.len(),
{
    broadcast use vstd::seq_lib::group_seq_properties;

    if s.len() == 0 {
        assert(s.to_set() =~= Set::<Seq<char>>::empty());
        assert(lex_sorted_set(s).to_set() =~= Set::<Seq<char>>::empty());
    } else {
        law_lex_sorted_set(s.drop_last());
        lemma_lex_insert_props(lex_sorted_set(s.drop_last()), s.last());
        assert(s =~= s.drop_last().push(s.last()));
        assert(s.to_set() =~= s.drop_last().to_set().insert(s.last()));
    }
}

proof fn lemma_lex_insert_at(s: Seq<Seq<char>>, x: Seq<char>, j: int)
    requires
        lex_increasing(s),
        0 <= j <= s.len(),
        forall|k: int| j <= k < s.len() ==> lex_lt(x, #[trigger] s[k]),
        j > 0 ==> !lex_lt(x, s[j - 1]),
    ensures
        lex_insert(s, x) == if j > 0 && s[j - 1] == x {
            s
        } else {
            s.subrange(0, j) + seq![x] + s.subrange(j, s.len() as int)
        },
    decreases s.len(),
{
    if s.len() == 0 {
        assert(s.subrange(0, j) + seq![x] + s.subrange(j, s.len() as int) =~= seq![x]);
    } else if j == s.len() {
        lemma_lex_total(s.last(), x);
        if s.last() == x {
        } else {
            assert(s.subrange(0, j) + seq![x] + s.subrange(j, s.len() as int) =~= s.push(x));
        }
    } else {
        let p = s.drop_last();
        assert(lex_increasing(p));
        assert forall|k: int| j <= k < p.len() implies lex_lt(x, #[trigger] p[k]) by {
            assert(p[k] == s[k]);
        }
        assert(lex_lt(x, s[s.len() - 1]));
        lemma_lex_total(s.last(), x);
        lemma_lex_insert_at(p, x, j);
        if j > 0 && s[j - 1] == x {
            assert(p.push(s.last()) =~= s);
        } else {
            assert(p.subrange(0, j) + seq![x] + p.subrange(j, p.len() as int) + seq![s.last()]
                =~= s.subrange(0, j) + seq![x] + s.subrange(j, s.len() as int));
        }
    }
}

/// Whether `a` sorts strictly before `b`.
pub fn text_lt(a: &[char], b: &[char]) -> (r: bool)
    ensures
        r == lex_lt(a@, b@),
{
    let mut i: usize = 0;
    proof {
        assert(a@.skip(0) =~= a@);
        assert(b@.skip(0) =~= b@);
    }
    while i < a.len() && i < b.len() && a[i] == b[i]
        invariant
            i <= a@.len(),
            i <= b@.len(),
            lex_lt(a@, b@) == lex_lt(a@.skip(i as int), b@.skip(i as int)),
        decreases a@.len() - i,
    {
        proof {
            assert(a@.skip(i as int).drop_first() =~= a@.skip(i + 1));
            assert(b@.skip(i as int).drop_first() =~= b@.skip(i + 1));
        }
        i += 1;
    }
    proof {
        assert(a@.skip(i as int).len() == a@.len() - i);
        if i < a@.len() && i < b@.len() {
            assert(a@.skip(i as int)[0] == a@[i as int]);
            assert(b@.skip(i as int)[0] == b@[i as int]);
        }
    }
    if i == a.len() {
        i < b.len()
    } else if i == b.len() {
        false
    } else {
        (a[i] as u32) < (b[i] as u32)
    }
}

/// Places `x` into the increasing list `v` unless it is there already.
pub fn insert_text_sorted(v: &mut Vec<Vec<char>>, x: Vec<char>)
    requires
        lex_increasing(texts_view(old(v)@)),
    ensures
        texts_view(final(v)@) == lex_insert(texts_view(old(v)@), x@),
{
    let ghost s = texts_view(v@);
    let mut j = v.len();
    while j > 0 && text_lt(x.as_slice(), v[j - 1].as_slice())
        invariant
            j <= v@.len(),
            s == texts_view(v@),
            forall|k: int| j <= k < s.len() ==> lex_lt(x@, #[trigger] s[k]),
        decreases j,
    {
        j -= 1;
    }
    proof {
        lemma_lex_insert_at(s, x@, j as int);
    }
    if j > 0 && crate::text::chars_eq(v[j - 1].as_slice(), x.as_slice()) {
        return;
    }
    let ghost xv = x@;
    v.insert(j, x);
    proof {
        assert(texts_view(v@) =~= s.subrange(0, j as int) + seq![xv] + s.subrange(
            j as int,
            s.len() as int,
        ));
    }
}

/// The distinct texts, sorted (sorting and removing duplicates).
pub fn sorted_set_of(items: Vec<Vec<char>>) -> (r: Vec<Vec<char>>)
    ensures
        texts_view(r@) == lex_sorted_set(texts_view(items@)),
{
    let ghost all = texts_view(items@);
    let mut src = items;
    let mut out: Vec<Vec<char>> = Vec::new();
    let n = src.len();
    let mut i: usize = 0;
    while i < n
        invariant
            i <= n,
            n == all.len(),
            src@.len() == n - i,
            texts_view(src@) == all.subrange(i as int, n as int),
            texts_view(out@) == lex_sorted_set(all.subrange(0, i as int)),
            lex_increasing(texts_view(out@)),
        decreases n - i,
    {
        let ghost before = texts_view(src@);
        let x = src.remove(0);
        proof {
            assert(before[0] == x@);
            assert forall|t: int| 0 <= t < n - i - 1 implies #[trigger] texts_view(src@)[t] == all.subrange(
                i + 1,
                n as int,
            )[t] by {
                assert(before[t + 1] == all[i + 1 + t]);
            }
            assert(texts_view(src@) =~= all.subrange(i + 1, n as int));
            assert(all.subrange(0, i + 1).drop_last() =~= all.subrange(0, i as int));
            assert(all.subrange(0, i + 1).last() == x@);
            lemma_lex_insert_props(texts_view(out@), x@);
        }
        insert_text_sorted(&mut out, x);
        i += 1;
    }
    proof {
        assert(all.subrange(0, n as int) =~= all);
    }
    out
}

/// `s` is in non-decreasing order.
pub open spec fn lex_sorted(s: Seq<Seq<char>>) -> bool {
    forall|i: int, j: int| 0 <= i < j < s.len() ==> !lex_lt(s[j], s[i])
}

/// `x` placed into the sorted sequence `s`, after the texts equal to it.
pub open spec fn lex_insert_dup(s: Seq<Seq<char>>, x: Seq<char>) -> Seq<Seq<char>>
    decreases s.len(),
{
    if s.len() == 0 {
        seq![x]
    } else if !lex_lt(x, s.last()) {
        s.push(x)
    } else {
        lex_insert_dup(s.drop_last(), x).push(s.last())
    }
}

/// The texts sorted, duplicates kept.
pub open spec fn lex_sort(s: Seq<Seq<char>>) -> Seq<Seq<char>>
    decreases s.len(),
{
    if s.len() == 0 {
        seq![]
    } else {
        lex_insert_dup(lex_sort(s.drop_last()), s.last())
    }
}

proof fn lemma_lex_insert_dup_props(s: Seq<Seq<char>>, x: Seq<char>)
    requires
        lex_sorted(s),
    ensures
        lex_sorted(lex_insert_dup(s, x)),
        lex_insert_dup(s, x).to_multiset() == s.to_multiset().insert(x),
    decreases s.len(),
{
    broadcast use vstd::seq_lib::group_to_multiset_ensures;

    if s.len() == 0 {
        assert(seq![x] =~= Seq::<Seq<char>>::empty().push(x));
    } else if !lex_lt(x, s.last()) {
        assert forall|i: int, j: int| 0 <= i < j < s.push(x).len() implies !lex_lt(
            s.push(x)[j],
            s.push(x)[i],
        ) by {
            if j == s.len() {
                lemma_lex_total(x, s[i]);
                lemma_lex_total(x, s.last());
                if lex_lt(x, s[i]) {
                    if i < s.len() - 1 {
                        lemma_lex_total(s[i], s.last());
                        if lex_lt(s[i], s.last()) {
                            lemma_lex_transitive(x, s[i], s.last());
                        }
                    }
                }
            }
        }
    } else {
        let p = s.drop_last();
        assert(lex_sorted(p));
        lemma_lex_insert_dup_props(p, x);
        let q = lex_insert_dup(p, x);
        assert forall|k: int| 0 <= k < q.len() implies !lex_lt(s.last(), q[k]) by {
            assert(q.to_multiset().count(q[k]) > 0);
            if q[k] == x {
                lemma_lex_total(x, s.last());
            } else {
                assert(p.to_multiset().count(q[k]) > 0);
                assert(p.contains(q[k]));
                let m = choose|m: int| 0 <= m < p.len() && p[m] == q[k];
                assert(!lex_lt(s[s.len() - 1], s[m]));
            }
        }
        assert(s =~= p.push(s.last()));
        assert(q.push(s.last()).to_multiset() =~= q.to_multiset().insert(s.last()));
        assert(s.to_multiset() =~= p.to_multiset().insert(s.last()));
        assert(q.push(s.last()).to_multiset() =~= s.to_multiset().insert(x));
    }
}

/// Sorting gives a non-decreasing sequence of exactly the texts given.
pub proof fn law_lex_sort(s: Seq<Seq<char>>)
    ensures
        lex_sorted(lex_sort(s)),
        lex_sort(s).to_multiset() == s.to_multiset(),
    decreases s.len(),
{
    broadcast use vstd::seq_lib::group_to_multiset_ensures;

    if s.len() > 0 {
        law_lex_sort(s.drop_last());
        lemma_lex_insert_dup_props(lex_sort(s.drop_last()), s.last());
        assert(s =~= s.drop_last().push(s.last()));
    }
}

proof fn lemma_lex_insert_dup_at(s: Seq<Seq<char>>, x: Seq<char>, j: int)
    requires
        0 <= j <= s.len(),
        forall|k: int| j <= k < s.len() ==> lex_lt(x, #[trigger] s[k]),
        j > 0 ==> !lex_lt(x, s[j - 1]),
    ensures
        lex_insert_dup(s, x) == s.subrange(0, j) + seq![x] + s.subrange(j, s.len() as int),
    decreases s.len(),
{
    if s.len() == 0 {
        assert(s.subrange(0, j) + seq![x] + s.subrange(j, s.len() as int) =~= seq![x]);
    } else if j == s.len() {
        assert(s.subrange(0, j) + seq![x] + s.subrange(j, s.len() as int) =~= s.push(x));
    } else {
        let p = s.drop_last();
        assert forall|k: int| j <= k < p.len() implies lex_lt(x, #[trigger] p[k]) by {
            assert(p[k] == s[k]);
        }
        assert(lex_lt(x, s[s.len() - 1]));
        lemma_lex_insert_dup_at(p, x, j);
        assert(p.subrange(0, j) + seq![x] + p.subrange(j, p.len() as int) + seq![s.last()]
            =~= s.subrange(0, j) + seq![x] + s.subrange(j, s.len() as int));
    }
}

/// The texts in sorted order, duplicates kept.
pub fn sort_texts(items: Vec<Vec<char>>) -> (r: Vec<Vec<char>>)
    ensures
        texts_view(r@) == lex_sort(texts_view(items@)),
{
    let ghost all = texts_view(items@);
    let mut src = items;
    let mut out: Vec<Vec<char>> = Vec::new();
    let n = src.len();
    let mut i: usize = 0;
    while i < n
        invariant
            i <= n,
            n == all.len(),
            src@.len() == n - i,
            texts_view(src@) == all.subrange(i as int, n as int),
            texts_view(out@) == lex_sort(all.subrange(0, i as int)),
        decreases n - i,
    {
        let ghost before = texts_view(src@);
        let x = src.remove(0);
        proof {
            assert(before[0] == x@);
            assert forall|t: int| 0 <= t < n - i - 1 implies #[trigger] texts_view(src@)[t] == all.subrange(
                i + 1,
                n as int,
            )[t] by {
                assert(before[t + 1] == all[i + 1 + t]);
            }
            assert(texts_view(src@) =~= all.subrange(i + 1, n as int));
            assert(all.subrange(0, i + 1).drop_last() =~= all.subrange(0, i as int));
            assert(all.subrange(0, i + 1).last() == x@);
        }
        let ghost s = texts_view(out@);
        let mut j = out.len();
        while j > 0 && text_lt(x.as_slice(), out[j - 1].as_slice())
            invariant
                j <= out@.len(),
                s == texts_view(out@),
                forall|k: int| j <= k < s.len() ==> lex_lt(x@, #[trigger] s[k]),
            decreases j,
        {
            j -= 1;
        }
        proof {
            lemma_lex_insert_dup_at(s, x@, j as int);
        }
        let ghost xv = x@;
        out.insert(j, x);
        proof {
            assert(texts_view(out@) =~= s.subrange(0, j as int) + seq![xv] + s.subrange(j as int, s.len() as int));
        }
        i += 1;
    }
    proof {
        assert(all.subrange(0, n as int) =~= all);
    }
    out
}

/// Newest first: no stamp sorts before a stamp that comes after it.
pub open spec fn newest_first<T>(s: Seq<T>, stamp: spec_fn(T) -> Seq<char>) -> bool {
    forall|i: int, j: int| 0 <= i < j < s.len() ==> !lex_lt(#[trigger] stamp(s[i]), #[trigger] stamp(s[j]))
}

proof fn lemma_not_lt_transitive(a: Seq<char>, b: Seq<char>, c: Seq<char>)
    requires
        !lex_lt(a, b),
        !lex_lt(b, c),
    ensures
        !lex_lt(a, c),
{
    lemma_lex_total(a, b);
    lemma_lex_total(b, c);
    lemma_lex_total(a, c);
    if lex_lt(a, c) {
        if a != b && b != c {
            lemma_lex_transitive(c, b, a);
        }
    }
}

/// Orders items by their stamps (texts such as RFC 3339 times), latest
/// stamp first; items with equal stamps keep their order.
pub fn sort_newest_first<T>(items: Vec<T>, stamps: Vec<Vec<char>>, Ghost(stamp): Ghost<spec_fn(T) -> Seq<char>>) -> (r: Vec<T>)
    requires
        items@.len() == stamps@.len(),
        forall|i: int| 0 <= i < items@.len() ==> #[trigger] stamps@[i]@ == stamp(items@[i]),
    ensures
        r@.to_multiset() == items@.to_multiset(),
        r@.len() == items@.len(),
        newest_first(r@, stamp),
{
    broadcast use vstd::seq_lib::group_to_multiset_ensures;

    let ghost all = items@;
    let mut src = items;
    let mut src_stamps = stamps;
    let mut out: Vec<T> = Vec::new();
    let mut out_stamps: Vec<Vec<char>> = Vec::new();
    let n = src.len();
    let mut i: usize = 0;
    while i < n
        invariant
            i <= n,
            n == all.len(),
            src@ == all.subrange(i as int, n as int),
            src_stamps@.len() == src@.len(),
            forall|t: int| 0 <= t < src@.len() ==> #[trigger] src_stamps@[t]@ == stamp(src@[t]),
            out@.len() == out_stamps@.len(),
            forall|t: int| 0 <= t < out@.len() ==> #[trigger] out_stamps@[t]@ == stamp(out@[t]),
            out@.to_multiset() == all.subrange(0, i as int).to_multiset(),
            out@.len() == i,
            newest_first(out@, stamp),
        decreases n - i,
    {
        let ghost s0 = src@;
        let ghost k0 = src_stamps@;
        let x = src.remove(0);
        let kx = src_stamps.remove(0);
        proof {
            assert(s0[0] == all[i as int]);
            assert(k0[0]@ == stamp(x));
            assert(src@ =~= all.subrange(i + 1, n as int));
            assert forall|t: int| 0 <= t < src@.len() implies #[trigger] src_stamps@[t]@ == stamp(src@[t]) by {
                assert(src_stamps@[t] == k0[t + 1]);
                assert(src@[t] == s0[t + 1]);
            }
        }
        let ghost before = out@;
        let mut j = out.len();
        while j > 0 && text_lt(out_stamps[j - 1].as_slice(), kx.as_slice())
            invariant
                j <= out@.len(),
                out@ == before,
                out@.len() == out_stamps@.len(),
                forall|t: int| 0 <= t < out@.len() ==> #[trigger] out_stamps@[t]@ == stamp(out@[t]),
                kx@ == stamp(x),
                forall|t: int| j <= t < out@.len() ==> lex_lt(#[trigger] stamp(out@[t]), stamp(x)),
            decreases j,
        {
            j -= 1;
        }
        proof {
            if j > 0 {
                assert(!lex_lt(stamp(before[j - 1]), stamp(x)));
            }
        }
        out.insert(j, x);
        out_stamps.insert(j, kx);
        proof {
            assert(out@ == before.insert(j as int, x));
            assert forall|t: int| 0 <= t < out@.len() implies #[trigger] out_stamps@[t]@ == stamp(out@[t]) by {
                if t < j {
                    assert(out@[t] == before[t]);
                } else if t > j {
                    assert(out@[t] == before[t - 1]);
                }
            }
            assert forall|a: int, b: int| 0 <= a < b < out@.len() implies !lex_lt(#[trigger] stamp(out@[a]), #[trigger] stamp(out@[b])) by {
                if a < j && b < j {
                    assert(out@[a] == before[a] && out@[b] == before[b]);
                } else if a > j {
                    assert(out@[a] == before[a - 1] && out@[b] == before[b - 1]);
                } else if a < j && b > j {
                    assert(out@[a] == before[a] && out@[b] == before[b - 1]);
                } else if a == j {
                    assert(out@[b] == before[b - 1]);
                    lemma_lex_total(stamp(before[b - 1]), stamp(x));
                } else {
                    assert(b == j);
                    assert(out@[a] == before[a]);
                    if a < j - 1 {
                        lemma_not_lt_transitive(stamp(before[a]), stamp(before[j - 1]), stamp(x));
                    }
                }
            }
            assert(all.subrange(0, i + 1) =~= all.subrange(0, i as int).push(x));
            vstd::seq_lib::to_multiset_insert(before, j as int, x);
            vstd::seq_lib::to_multiset_build(all.subrange(0, i as int), x);
        }
        i += 1;
    }
    proof {
        assert(all.subrange(0, n as int) =~= all);
    }
    out
}

/// Sequences with the same elements keep the same elements under a map.
/// Two sorted sequences holding the same texts, with the same
/// multiplicities, are the same sequence.
pub proof fn lemma_lex_sorted_unique(a: Seq<Seq<char>>, b: Seq<Seq<char>>)
    requires
        lex_sorted(a),
        lex_sorted(b),
        a.to_multiset() == b.to_multiset(),
    ensures
        a == b,
    decreases a.len(),
{
    broadcast use vstd::seq_lib::group_to_multiset_ensures;

    a.to_multiset_ensures();
    b.to_multiset_ensures();
    if a.len() == 0 {
        assert(b.len() == 0);
        assert(a =~= b);
    } else {
        assert(b.len() == a.len());
        assert(a.to_multiset().count(a[0]) > 0);
        assert(b.contains(a[0]));
        assert(b.to_multiset().count(b[0]) > 0);
        assert(a.contains(b[0]));
        let k = choose|k: int| 0 <= k < b.len() && b[k] == a[0];
        let m = choose|m: int| 0 <= m < a.len() && a[m] == b[0];
        if k > 0 {
            assert(!lex_lt(b[k], b[0]));
        }
        if m > 0 {
            assert(!lex_lt(a[m], a[0]));
        }
        lemma_lex_irreflexive(a[0]);
        lemma_lex_total(a[0], b[0]);
        assert(a[0] == b[0]);
        let at = a.remove(0);
        let bt = b.remove(0);
        assert(at.to_multiset() =~= a.to_multiset().remove(a[0]));
        assert(bt.to_multiset() =~= b.to_multiset().remove(b[0]));
        assert(lex_sorted(at)) by {
            assert forall|i: int, j: int| 0 <= i < j < at.len() implies !lex_lt(at[j], at[i]) by {
                assert(at[i] == a[i + 1] && at[j] == a[j + 1]);
            }
        }
        assert(lex_sorted(bt)) by {
            assert forall|i: int, j: int| 0 <= i < j < bt.len() implies !lex_lt(bt[j], bt[i]) by {
                assert(bt[i] == b[i + 1] && bt[j] == b[j + 1]);
            }
        }
        lemma_lex_sorted_unique(at, bt);
        assert(a =~= seq![a[0]] + at);
        assert(b =~= seq![b[0]] + bt);
    }
}

pub proof fn lemma_map_preserves_permutation<A, B>(a: Seq<A>, b: Seq<A>, f: spec_fn(A) -> B)
    requires
        a.to_multiset() == b.to_multiset(),
    ensures
        a.map_values(f).to_multiset() == b.map_values(f).to_multiset(),
    decreases a.len(),
{
    broadcast use vstd::seq_lib::group_to_multiset_ensures;

    if a.len() == 0 {
        assert(b.to_multiset().len() == 0);
        assert(b.len() == 0);
        assert(a.map_values(f) =~= b.map_values(f));
    } else {
        let x = a.last();
        let p = a.drop_last();
        assert(a =~= p.push(x));
        vstd::seq_lib::to_multiset_build(p, x);
        assert(b.to_multiset().count(x) > 0);
        assert(b.contains(x));
        let k = choose|k: int| 0 <= k < b.len() && b[k] == x;
        let q = b.remove(k);
        vstd::seq_lib::to_multiset_remove(b, k);
        assert(q.to_multiset() =~= p.to_multiset());
        lemma_map_preserves_permutation(p, q, f);
        assert(a.map_values(f) =~= p.map_values(f).push(f(x)));
        vstd::seq_lib::to_multiset_build(p.map_values(f), f(x));
        assert(b =~= q.insert(k, x));
        assert(b.map_values(f) =~= q.map_values(f).insert(k, f(x)));
        vstd::seq_lib::to_multiset_insert(q.map_values(f), k, f(x));
    }
}

} // verus!
