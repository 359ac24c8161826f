//! Stable sorting, stated as insertion into an already sorted sequence.
use vstd::prelude::*;

verus! {

/// Inserts `x` into `sorted` after every element it is not strictly less than,
/// so that equal elements keep their order.
pub open spec fn insert_by<T>(sorted: Seq<T>, x: T, lt: spec_fn(T, T) -> bool) -> Seq<T>
    decreases sorted.len(),
{
    if sorted.len() == 0 {
        seq![x]
    } else if !lt(x, sorted.last()) {
        sorted.push(x)
    } else {
        insert_by(sorted.drop_last(), x, lt).push(sorted.last())
    }
}

/// The stable sort of `s` by the strict order `lt` (as `slice::sort_by` leaves it).
pub open spec fn sort_by<T>(s: Seq<T>, lt: spec_fn(T, T) -> bool) -> Seq<T>
    decreases s.len(),
{
    if s.len() == 0 {
        Seq::empty()
    } else {
        insert_by(sort_by(s.drop_last(), lt), s.last(), lt)
    }
}

/// Inserting at the first position from the end past which `x` is strictly
/// less than every element is the same as `insert_by`.
pub proof fn lemma_insert_by_splice<T>(sorted: Seq<T>, x: T, lt: spec_fn(T, T) -> bool, j: int)
    requires
        0 <= j <= sorted.len(),
        forall|k: int| j <= k < sorted.len() ==> lt(x, #[trigger] sorted[k]),
        j == 0 || !lt(x, sorted[j - 1]),
    ensures
        insert_by(sorted, x, lt) == sorted.insert(j, x),
    decreases sorted.len(),
{
    if sorted.len() == 0 {
        assert(sorted.insert(j, x) =~= seq![x]);
    } else if j == sorted.len() {
        assert(sorted.insert(j, x) =~= sorted.push(x));
    } else {
        assert(lt(x, sorted[sorted.len() - 1]));
        let d = sorted.drop_last();
        assert forall|k: int| j <= k < d.len() implies lt(x, #[trigger] d[k]) by {
            assert(d[k] == sorted[k]);
        }
        if j > 0 {
            assert(d[j - 1] == sorted[j - 1]);
        }
        lemma_insert_by_splice(d, x, lt, j);
        assert(d.insert(j, x).push(sorted.last()) =~= sorted.insert(j, x));
    }
}

/// Sorting keeps the elements.
pub proof fn lemma_sort_by_multiset<T>(s: Seq<T>, lt: spec_fn(T, T) -> bool)
    ensures
        sort_by(s, lt).to_multiset() == s.to_multiset(),
        sort_by(s, lt).len() == s.len(),
    decreases s.len(),
{
    broadcast use vstd::seq_lib::group_to_multiset_ensures;
    if s.len() > 0 {
        lemma_sort_by_multiset(s.drop_last(), lt);
        lemma_insert_by_multiset(sort_by(s.drop_last(), lt), s.last(), lt);
        assert(s.drop_last().push(s.last()) =~= s);
    }
}

pub proof fn lemma_insert_by_multiset<T>(sorted: Seq<T>, x: T, lt: spec_fn(T, T) -> bool)
    ensures
        insert_by(sorted, x, lt).to_multiset() == sorted.to_multiset().insert(x),
        insert_by(sorted, x, lt).len() == sorted.len() + 1,
    decreases sorted.len(),
{
    broadcast use vstd::seq_lib::group_to_multiset_ensures;
    if sorted.len() == 0 {
        assert(seq![x] =~= Seq::<T>::empty().push(x));
    } else if !lt(x, sorted.last()) {
    } else {
        lemma_insert_by_multiset(sorted.drop_last(), x, lt);
        assert(sorted.drop_last().push(sorted.last()) =~= sorted);
        assert(insert_by(sorted.drop_last(), x, lt).push(sorted.last()).to_multiset() =~= sorted.to_multiset().insert(x));
    }
}

/// Strict order on indices by a key, larger keys first.
pub open spec fn key_desc(keys: Seq<i64>) -> spec_fn(usize, usize) -> bool {
    |a: usize, b: usize| keys[a as int] > keys[b as int]
}

/// Strict order on indices by a key, smaller keys first.
pub open spec fn key_asc(keys: Seq<i64>) -> spec_fn(usize, usize) -> bool {
    |a: usize, b: usize| keys[a as int] < keys[b as int]
}

pub open spec fn key_order(keys: Seq<i64>, desc: bool) -> spec_fn(usize, usize) -> bool {
    if desc {
        key_desc(keys)
    } else {
        key_asc(keys)
    }
}

fn goes_before(keys: &Vec<i64>, desc: bool, a: usize, b: usize) -> (r: bool)
    requires
        a < keys.len(),
        b < keys.len(),
    ensures
        r == (key_order(keys@, desc))(a, b),
{
    if desc {
        keys[a] > keys[b]
    } else {
        keys[a] < keys[b]
    }
}

/// Stable sort of indices by their keys (larger first when `desc`).
pub fn sort_indices_by_key(items: &Vec<usize>, keys: &Vec<i64>, desc: bool) -> (r: Vec<usize>)
    requires
        forall|i: int| 0 <= i < items.len() ==> #[trigger] items@[i] < keys.len(),
    ensures
        r@ == sort_by(items@, key_order(keys@, desc)),
{
    let ghost lt = key_order(keys@, desc);
    let mut out: Vec<usize> = Vec::new();
    for i in 0..items.len()
        invariant
            forall|i: int| 0 <= i < items.len() ==> #[trigger] items@[i] < keys.len(),
            lt == key_order(keys@, desc),
            out@ == sort_by(items@.take(i as int), lt),
            forall|k: int| 0 <= k < out.len() ==> #[trigger] out@[k] < keys.len(),
    {
        let x = items[i];
        let mut j = out.len();
        while j > 0 && goes_before(keys, desc, x, out[j - 1])
            invariant
                0 <= j <= out.len(),
                x < keys.len(),
                forall|k: int| 0 <= k < out.len() ==> #[trigger] out@[k] < keys.len(),
                lt == key_order(keys@, desc),
                forall|k: int| j <= k < out.len() ==> lt(x, #[trigger] out@[k]),
            decreases j,
        {
            j -= 1;
        }
        proof {
            lemma_insert_by_splice(out@, x, lt, j as int);
            assert(items@.take(i + 1).drop_last() =~= items@.take(i as int));
        }
        out.insert(j, x);
    }
    assert(items@.take(items.len() as int) =~= items@);
    out
}


/// The indices `0..n`.
pub open spec fn index_seq(n: nat) -> Seq<usize> {
    Seq::new(n, |i: int| i as usize)
}

pub fn index_vec(n: usize) -> (r: Vec<usize>)
    ensures
        r@ == index_seq(n as nat),
{
    let mut v: Vec<usize> = Vec::new();
    for i in 0..n
        invariant
            v@ == index_seq(i as nat),
    {
        v.push(i);
        assert(v@ =~= index_seq((i + 1) as nat));
    }
    v
}

/// Strict order on indices by a size, larger sizes first.
pub open spec fn size_desc(sizes: Seq<u64>) -> spec_fn(usize, usize) -> bool {
    |a: usize, b: usize| sizes[a as int] > sizes[b as int]
}

/// Stable sort of indices by their sizes, larger first (`sort_by` with
/// `b.cmp(&a)` on the sizes).
pub fn sort_indices_by_size_desc(items: &Vec<usize>, sizes: &Vec<u64>) -> (r: Vec<usize>)
    requires
        forall|i: int| 0 <= i < items.len() ==> #[trigger] items@[i] < sizes.len(),
    ensures
        r@ == sort_by(items@, size_desc(sizes@)),
{
    let ghost lt = size_desc(sizes@);
    let mut out: Vec<usize> = Vec::new();
    for i in 0..items.len()
        invariant
            forall|i: int| 0 <= i < items.len() ==> #[trigger] items@[i] < sizes.len(),
            lt == size_desc(sizes@),
            out@ == sort_by(items@.take(i as int), lt),
            forall|k: int| 0 <= k < out.len() ==> #[trigger] out@[k] < sizes.len(),
    {
        let x = items[i];
        let mut j = out.len();
        while j > 0 && sizes[x] > sizes[out[j - 1]]
            invariant
                0 <= j <= out.len(),
                x < sizes.len(),
                forall|k: int| 0 <= k < out.len() ==> #[trigger] out@[k] < sizes.len(),
                lt == size_desc(sizes@),
                forall|k: int| j <= k < out.len() ==> lt(x, #[trigger] out@[k]),
            decreases j,
        {
            j -= 1;
        }
        proof {
            lemma_insert_by_splice(out@, x, lt, j as int);
            assert(items@.take(i + 1).drop_last() =~= items@.take(i as int));
        }
        out.insert(j, x);
    }
    assert(items@.take(items.len() as int) =~= items@);
    out
}

}
