//! Ordering list entries: by a rank, then by name (code point by code point,
//! as strings compare), then by their original position, so equal keys keep
//! the order they came in.

use vstd::prelude::*;

verus! {

/// `a` sorts before `b`, comparing code points and then length.
pub open spec fn seq_lt(a: Seq<char>, b: Seq<char>) -> bool
    decreases a.len(),
{
    if a.len() == 0 {
        b.len() > 0
    } else if b.len() == 0 {
        false
    } else if a[0] != b[0] {
        a[0] < b[0]
    } else {
        seq_lt(a.drop_first(), b.drop_first())
    }
}

pub proof fn lemma_seq_lt_irreflexive(a: Seq<char>)
    ensures
        !seq_lt(a, a),
    decreases a.len(),
{
    if a.len() > 0 {
        lemma_seq_lt_irreflexive(a.drop_first());
    }
}

pub proof fn lemma_seq_lt_total(a: Seq<char>, b: Seq<char>)
    ensures
        a == b || seq_lt(a, b) || seq_lt(b, a),
        !(seq_lt(a, b) && seq_lt(b, a)),
    decreases a.len(),
{
    if a.len() > 0 && b.len() > 0 && a[0] == b[0] {
        lemma_seq_lt_total(a.drop_first(), b.drop_first());
        if a.drop_first() == b.drop_first() {
            assert(a =~= seq![a[0]] + a.drop_first());
            assert(b =~= seq![b[0]] + b.drop_first());
        }
    } else if a.len() == 0 && b.len() == 0 {
        assert(a =~= b);
    }
}

pub proof fn lemma_seq_lt_transitive(a: Seq<char>, b: Seq<char>, c: Seq<char>)
    requires
        seq_lt(a, b),
        seq_lt(b, c),
    ensures
        seq_lt(a, c),
    decreases a.len(),
{
    if a.len() > 0 && b.len() > 0 && c.len() > 0 && a[0] == b[0] && b[0] == c[0] {
        lemma_seq_lt_transitive(a.drop_first(), b.drop_first(), c.drop_first());
    }
}

/// The sort key of an entry: a rank and a name.
pub struct SortKey {
    pub rank: i64,
    pub name: Vec<char>,
}

/// The keys as (rank, name) pairs.
pub open spec fn key_views(keys: Seq<SortKey>) -> Seq<(int, Seq<char>)> {
    keys.map_values(|k: SortKey| (k.rank as int, k.name@))
}

/// Entry `i` (key `keys[i]`) sorts before entry `j`.
pub open spec fn before(keys: Seq<(int, Seq<char>)>, i: int, j: int) -> bool {
    let a = keys[i];
    let b = keys[j];
    a.0 < b.0 || (a.0 == b.0 && seq_lt(a.1, b.1)) || (a.0 == b.0 && a.1 == b.1 && i < j)
}

/// `order` lists entries in strictly increasing key order.
pub open spec fn sorted(keys: Seq<(int, Seq<char>)>, order: Seq<usize>) -> bool {
    forall|a: int, b: int|
        0 <= a < b < order.len() ==> before(keys, #[trigger] order[a] as int, #[trigger] order[b] as int)
}

proof fn lemma_before_total(keys: Seq<(int, Seq<char>)>, i: int, j: int)
    requires
        i != j,
    ensures
        before(keys, i, j) || before(keys, j, i),
        !(before(keys, i, j) && before(keys, j, i)),
{
    lemma_seq_lt_total(keys[i].1, keys[j].1);
}

proof fn lemma_before_transitive(keys: Seq<(int, Seq<char>)>, i: int, j: int, k: int)
    requires
        before(keys, i, j),
        before(keys, j, k),
    ensures
        before(keys, i, k),
{
    let (a, b, c) = (keys[i].1, keys[j].1, keys[k].1);
    if seq_lt(a, b) && seq_lt(b, c) {
        lemma_seq_lt_transitive(a, b, c);
    }
}

/// Whether name `a` sorts before name `b`.
pub fn name_lt(a: &Vec<char>, b: &Vec<char>) -> (r: bool)
    ensures
        r == seq_lt(a@, b@),
{
    let mut k: usize = 0;
    assert(a@.skip(0) =~= a@);
    assert(b@.skip(0) =~= b@);
    while k < a.len() && k < b.len() && a[k] == b[k]
        invariant
            k <= a.len(),
            k <= b.len(),
            seq_lt(a@, b@) == seq_lt(a@.skip(k as int), b@.skip(k as int)),
        decreases a.len() - k,
    {
        assert(a@.skip(k as int).drop_first() =~= a@.skip(k + 1));
        assert(b@.skip(k as int).drop_first() =~= b@.skip(k + 1));
        k += 1;
    }
    if k == a.len() {
        b.len() > k
    } else if k == b.len() {
        false
    } else {
        assert(a@.skip(k as int)[0] == a@[k as int]);
        assert(b@.skip(k as int)[0] == b@[k as int]);
        a[k] < b[k]
    }
}

fn names_equal(a: &Vec<char>, b: &Vec<char>) -> (r: bool)
    ensures
        r == (a@ == b@),
{
    crate::text::chars_equal(a, b)
}

fn before_exec(keys: &Vec<SortKey>, i: usize, j: usize) -> (r: bool)
    requires
        i < keys.len(),
        j < keys.len(),
    ensures
        r == before(key_views(keys@), i as int, j as int),
{
    let a = &keys[i];
    let b = &keys[j];
    a.rank < b.rank || (a.rank == b.rank && name_lt(&a.name, &b.name)) || (a.rank == b.rank
        && names_equal(&a.name, &b.name) && i < j)
}

/// `order` rearranged into key order; the same entries, each as often.
pub fn sort_entries(keys: &Vec<SortKey>, order: Vec<usize>) -> (r: Vec<usize>)
    requires
        forall|k: int| 0 <= k < order.len() ==> order@[k] < keys.len(),
        order@.no_duplicates(),
    ensures
        r@.to_multiset() == order@.to_multiset(),
        sorted(key_views(keys@), r@),
        forall|k: int| 0 <= k < r.len() ==> r@[k] < keys.len(),
        r@.no_duplicates(),
{
    broadcast use vstd::seq_lib::group_to_multiset_ensures;

    let mut out: Vec<usize> = Vec::new();
    let mut n: usize = 0;
    assert(order@.take(0) =~= Seq::<usize>::empty());
    while n < order.len()
        invariant
            n <= order.len(),
            forall|k: int| 0 <= k < order.len() ==> order@[k] < keys.len(),
            order@.no_duplicates(),
            out@.to_multiset() == order@.take(n as int).to_multiset(),
            sorted(key_views(keys@), out@),
            forall|k: int| 0 <= k < out.len() ==> out@[k] < keys.len(),
            out@.no_duplicates(),
            forall|k: int| 0 <= k < out.len() ==> order@.take(n as int).contains(#[trigger] out@[k]),
        decreases order.len() - n,
    {
        let x = order[n];
        let mut p: usize = 0;
        while p < out.len() && !before_exec(keys, x, out[p])
            invariant
                p <= out.len(),
                x < keys.len(),
                forall|k: int| 0 <= k < out.len() ==> out@[k] < keys.len(),
                forall|q: int| 0 <= q < p ==> !before(key_views(keys@), x as int, #[trigger] out@[q] as int),
            decreases out.len() - p,
        {
            p += 1;
        }
        proof {
            assert(!order@.take(n as int).contains(x)) by {
                if order@.take(n as int).contains(x) {
                    let j = choose|j: int| 0 <= j < n && order@.take(n as int)[j] == x;
                    assert(order@[j] == order@[n as int]);
                }
            }
        }
        let ghost old_out = out@;
        out.insert(p, x);
        proof {
            assert(out@ == old_out.insert(p as int, x));
            assert(out@.remove(p as int) =~= old_out);
            assert(out@[p as int] == x);
            out@.to_multiset_ensures();
            assert(out@.contains(x)) by {
                assert(out@[p as int] == x);
            }
            assert(out@.to_multiset() =~= old_out.to_multiset().insert(x)) by {
                assert(out@.remove(p as int).to_multiset() =~= out@.to_multiset().remove(x));
                assert(out@.to_multiset().count(x) > 0) by {
                    assert(out@.contains(x));
                }
            }
            assert(order@.take(n + 1) =~= order@.take(n as int).push(x));
            order@.take(n as int).to_multiset_ensures();
            assert(order@.take(n + 1).to_multiset() =~= order@.take(n as int).to_multiset().insert(x));
            assert forall|k: int| 0 <= k < out.len() implies order@.take(n + 1).contains(#[trigger] out@[k]) by {
                if k < p {
                    assert(out@[k] == old_out[k]);
                    assert(order@.take(n as int).contains(old_out[k]));
                    let j = choose|j: int| 0 <= j < n && order@.take(n as int)[j] == old_out[k];
                    assert(order@.take(n + 1)[j] == old_out[k]);
                } else if k > p {
                    assert(out@[k] == old_out[k - 1]);
                    assert(order@.take(n as int).contains(old_out[k - 1]));
                    let j = choose|j: int| 0 <= j < n && order@.take(n as int)[j] == old_out[k - 1];
                    assert(order@.take(n + 1)[j] == old_out[k - 1]);
                } else {
                    assert(order@.take(n + 1)[n as int] == x);
                }
            }
            assert forall|a: int, b: int| 0 <= a < b < out.len() implies out@[a] != out@[b] by {
                if a == p {
                    if b > p {
                        assert(old_out.contains(old_out[b - 1]));
                    }
                } else if b == p {
                    assert(old_out.contains(old_out[a]));
                }
            }
            assert forall|a: int, b: int|
                0 <= a < b < out.len() implies before(key_views(keys@), #[trigger] out@[a] as int, #[trigger] out@[b] as int) by {
                if a < p && b < p {
                    assert(before(key_views(keys@), old_out[a] as int, old_out[b] as int));
                } else if a < p && b == p {
                    assert(!before(key_views(keys@), x as int, old_out[a] as int));
                    assert(old_out[a] != x) by {
                        assert(old_out.contains(old_out[a]));
                    }
                    lemma_before_total(key_views(keys@), x as int, old_out[a] as int);
                } else if a < p && b > p {
                    assert(before(key_views(keys@), old_out[a] as int, old_out[b - 1] as int));
                } else if a == p && b > p {
                    assert(p < old_out.len());
                    assert(before(key_views(keys@), x as int, old_out[p as int] as int));
                    if b - 1 > p {
                        assert(before(key_views(keys@), old_out[p as int] as int, old_out[b - 1] as int));
                        lemma_before_transitive(key_views(keys@), x as int, old_out[p as int] as int, old_out[b - 1] as int);
                    }
                } else {
                    assert(before(key_views(keys@), old_out[a - 1] as int, old_out[b - 1] as int));
                }
            }
        }
        n += 1;
    }
    assert(order@.take(order.len() as int) =~= order@);
    out
}

} // verus!
