//! The order of an indicator's input rows: a stable sort by input index.
use vstd::prelude::*;

use crate::db_indicator::DbIndicatorInput;

verus! {

broadcast use vstd::seq_lib::group_to_multiset_ensures;

/// The rows are in ascending order of their index.
pub open spec fn sorted_by_index(s: Seq<DbIndicatorInput>) -> bool {
    forall|i: int, j: int| 0 <= i <= j < s.len() ==> #[trigger] s[i].index <= #[trigger] s[j].index
}

/// Where a stable insertion puts a row with index `k` into `t`: just after
/// the last row, seen from the end, whose index is at most `k`.
pub open spec fn insert_pos(t: Seq<DbIndicatorInput>, k: i16) -> nat
    decreases t.len(),
{
    if t.len() == 0 {
        0
    } else if t.last().index <= k {
        t.len()
    } else {
        insert_pos(t.drop_last(), k)
    }
}

/// `t` with `x` inserted where a stable insertion by index puts it.
pub open spec fn insert_by_index(t: Seq<DbIndicatorInput>, x: DbIndicatorInput) -> Seq<DbIndicatorInput> {
    t.insert(insert_pos(t, x.index) as int, x)
}

/// The rows stably sorted by index: rows with equal indices keep their
/// relative order.
pub open spec fn sort_by_index(s: Seq<DbIndicatorInput>) -> Seq<DbIndicatorInput>
    decreases s.len(),
{
    if s.len() == 0 {
        s
    } else {
        insert_by_index(sort_by_index(s.drop_last()), s.last())
    }
}

proof fn lemma_insert_pos(t: Seq<DbIndicatorInput>, k: i16)
    ensures
        insert_pos(t, k) <= t.len(),
        forall|i: int| insert_pos(t, k) <= i < t.len() ==> #[trigger] t[i].index > k,
        insert_pos(t, k) > 0 ==> t[insert_pos(t, k) - 1].index <= k,
    decreases t.len(),
{
    if t.len() > 0 && t.last().index > k {
        lemma_insert_pos(t.drop_last(), k);
        assert forall|i: int| insert_pos(t, k) <= i < t.len() implies #[trigger] t[i].index > k by {
            if i < t.len() - 1 {
                assert(t[i] == t.drop_last()[i]);
            }
        }
    }
}

proof fn lemma_insert_keeps_sorted(t: Seq<DbIndicatorInput>, x: DbIndicatorInput)
    requires
        sorted_by_index(t),
    ensures
        sorted_by_index(insert_by_index(t, x)),
        insert_by_index(t, x).to_multiset() == t.to_multiset().insert(x),
        insert_by_index(t, x).len() == t.len() + 1,
{
    let p = insert_pos(t, x.index) as int;
    lemma_insert_pos(t, x.index);
    t.insert_ensures(p, x);
    let r = insert_by_index(t, x);
    assert forall|i: int, j: int| 0 <= i <= j < r.len() implies #[trigger] r[i].index <= #[trigger] r[j].index by {
        if i < p && j < p {
            assert(r[i] == t[i] && r[j] == t[j]);
        } else if i < p && j == p {
            assert(r[i] == t[i]);
            assert(t[i].index <= t[p - 1].index);
        } else if i < p {
            assert(r[i] == t[i] && r[j] == t[j - 1]);
        } else if i == p && j > p {
            assert(r[j] == t[j - 1]);
        } else if i > p {
            assert(r[i] == t[i - 1] && r[j] == t[j - 1]);
        }
    }
    assert(r.remove(p) =~= t);
    assert(r[p] == x);
    assert(r.to_multiset().remove(x) == t.to_multiset());
    assert(r.to_multiset().contains(x));
}

/// The stable sort by index is ordered by index, holds the same rows as its
/// argument (as a multiset), and so has its length.
pub proof fn lemma_sort_by_index(s: Seq<DbIndicatorInput>)
    ensures
        sorted_by_index(sort_by_index(s)),
        sort_by_index(s).to_multiset() == s.to_multiset(),
        sort_by_index(s).len() == s.len(),
    decreases s.len(),
{
    if s.len() > 0 {
        lemma_sort_by_index(s.drop_last());
        lemma_insert_keeps_sorted(sort_by_index(s.drop_last()), s.last());
        assert(s.drop_last().push(s.last()) =~= s);
    }
}

/// The indices of the rows strictly increase.
pub open spec fn strictly_sorted_by_index(s: Seq<DbIndicatorInput>) -> bool {
    forall|i: int, j: int| 0 <= i < j < s.len() ==> #[trigger] s[i].index < #[trigger] s[j].index
}

/// A sequence sorted by index that holds the same rows as a sequence whose
/// indices strictly increase is that sequence.
pub proof fn lemma_sorted_same_rows_equal(a: Seq<DbIndicatorInput>, b: Seq<DbIndicatorInput>)
    requires
        sorted_by_index(a),
        strictly_sorted_by_index(b),
        a.to_multiset() == b.to_multiset(),
    ensures
        a == b,
    decreases b.len(),
{
    broadcast use vstd::seq_lib::group_to_multiset_ensures;
    a.to_multiset_ensures();
    b.to_multiset_ensures();
    assert(a.len() == b.len());
    if b.len() > 0 {
        let n = b.len() as int;
        let x = b.last();
        assert(b.contains(x));
        assert(b.to_multiset().count(x) > 0);
        assert(a.to_multiset().count(x) > 0);
        assert(a.contains(x));
        let p = choose|p: int| 0 <= p < n && a[p] == x;
        assert(a[p].index <= a[n - 1].index);
        assert(a.contains(a.last()));
        assert(a.to_multiset().count(a.last()) > 0);
        assert(b.to_multiset().count(a.last()) > 0);
        assert(b.contains(a.last()));
        let q = choose|q: int| 0 <= q < n && b[q] == a.last();
        if q < n - 1 {
            assert(b[q].index < b[n - 1].index);
        }
        assert(a.last() == x);
        assert(a.remove(n - 1) =~= a.drop_last());
        assert(b.remove(n - 1) =~= b.drop_last());
        assert(a.drop_last().to_multiset() == b.drop_last().to_multiset());
        assert(sorted_by_index(a.drop_last())) by {
            assert forall|i: int, j: int| 0 <= i <= j < n - 1 implies #[trigger] a.drop_last()[i].index
                <= #[trigger] a.drop_last()[j].index by {
                assert(a[i].index <= a[j].index);
            }
        }
        assert(strictly_sorted_by_index(b.drop_last())) by {
            assert forall|i: int, j: int| 0 <= i < j < n - 1 implies #[trigger] b.drop_last()[i].index
                < #[trigger] b.drop_last()[j].index by {
                assert(b[i].index < b[j].index);
            }
        }
        lemma_sorted_same_rows_equal(a.drop_last(), b.drop_last());
        assert(a =~= a.drop_last().push(x));
        assert(b =~= b.drop_last().push(x));
    } else {
        assert(a =~= b);
    }
}

/// `rows` stably sorted by index: rows with equal indices keep their order.
pub fn sort_inputs_by_index(rows: Vec<DbIndicatorInput>) -> (sorted: Vec<DbIndicatorInput>)
    ensures
        sorted@ == sort_by_index(rows@),
{
    let ghost s = rows@;
    let n = rows.len();
    let mut rest = rows;
    let mut res: Vec<DbIndicatorInput> = Vec::new();
    let mut i: usize = 0;
    while rest.len() > 0
        invariant
            i + rest@.len() == s.len(),
            s.len() == n,
            rest@ == s.subrange(i as int, s.len() as int),
            res@ == sort_by_index(s.take(i as int)),
        decreases rest.len(),
    {
        let x = rest.remove(0);
        let k = x.index;
        let mut j = res.len();
        assert(res@.take(j as int) =~= res@);
        while j > 0 && res[j - 1].index > k
            invariant
                j <= res@.len(),
                insert_pos(res@, k) == insert_pos(res@.take(j as int), k),
            decreases j,
        {
            assert(res@.take(j as int).drop_last() =~= res@.take(j - 1));
            j -= 1;
        }
        proof {
            assert(res@.take(res@.len() as int) =~= res@);
            assert(insert_pos(res@.take(j as int), k) == j);
            assert(s.take(i + 1).drop_last() =~= s.take(i as int));
            assert(s.take(i + 1).last() == x);
        }
        res.insert(j, x);
        i += 1;
    }
    assert(s.take(n as int) =~= s);
    res
}

} // verus!
