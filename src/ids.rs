use vstd::prelude::*;
use crate::item::{tier_rel, tier_sorted, TodoItem};
use crate::order::{insert_by, lemma_stable_sort_contents, stable_sort};

verus! {

/// Every id in `s` is below `n`.
pub open spec fn ids_below(s: Seq<TodoItem>, n: usize) -> bool {
    forall|i: int| 0 <= i < s.len() ==> (#[trigger] s[i]).id < n
}

/// No two items of `s` share an id.
pub open spec fn ids_unique(s: Seq<TodoItem>) -> bool {
    forall|i: int, j: int| 0 <= i < s.len() && 0 <= j < s.len() && i != j ==> (#[trigger] s[i]).id
        != (#[trigger] s[j]).id
}

/// Some item of `s` has id `g`.
pub open spec fn has_item_id(s: Seq<TodoItem>, g: usize) -> bool {
    exists|i: int| 0 <= i < s.len() && (#[trigger] s[i]).id == g
}

/// `a` and `b` carry the same ids in the same places.
pub open spec fn same_ids(a: Seq<TodoItem>, b: Seq<TodoItem>) -> bool {
    a.len() == b.len() && forall|i: int| 0 <= i < a.len() ==> (#[trigger] a[i]).id == b[i].id
}

/// Sequences with the same ids in the same places agree on the id facts.
pub proof fn lemma_same_ids(a: Seq<TodoItem>, b: Seq<TodoItem>, n: usize, g: usize)
    requires
        same_ids(a, b),
    ensures
        ids_below(a, n) ==> ids_below(b, n),
        ids_unique(a) ==> ids_unique(b),
        has_item_id(a, g) ==> has_item_id(b, g),
{
    if ids_below(a, n) {
        assert forall|i: int| 0 <= i < b.len() implies (#[trigger] b[i]).id < n by {
            assert(a[i].id < n);
        }
    }
    if has_item_id(a, g) {
        let i = choose|i: int| 0 <= i < a.len() && (#[trigger] a[i]).id == g;
        assert(b[i].id == g);
    }
    if ids_unique(a) {
        assert forall|i: int, j: int|
            0 <= i < b.len() && 0 <= j < b.len() && i != j implies (#[trigger] b[i]).id
            != (#[trigger] b[j]).id by {
            assert(a[i].id != a[j].id);
        }
    }
}

/// Inserting by rank is an insertion at some position.
proof fn lemma_insert_by_is_insert<T>(s: Seq<T>, x: T, le: spec_fn(T, T) -> bool) -> (k: int)
    ensures
        0 <= k <= s.len(),
        insert_by(s, x, le) == s.insert(k, x),
    decreases s.len(),
{
    if s.len() == 0 {
        assert(seq![x] =~= s.insert(0, x));
        0
    } else if le(s.last(), x) {
        assert(s.push(x) =~= s.insert(s.len() as int, x));
        s.len() as int
    } else {
        let d = s.drop_last();
        let k = lemma_insert_by_is_insert(d, x, le);
        assert(d.insert(k, x).push(s.last()) =~= s.insert(k, x));
        k
    }
}

proof fn lemma_sort_unique(s: Seq<TodoItem>)
    requires
        ids_unique(s),
    ensures
        ids_unique(stable_sort(s, tier_rel())),
    decreases s.len(),
{
    if s.len() > 0 {
        let d = s.drop_last();
        let x = s.last();
        assert(ids_unique(d)) by {
            assert forall|i: int, j: int|
                0 <= i < d.len() && 0 <= j < d.len() && i != j implies (#[trigger] d[i]).id
                != (#[trigger] d[j]).id by {
                assert(s[i].id != s[j].id);
            }
        }
        lemma_sort_unique(d);
        let q = stable_sort(d, tier_rel());
        lemma_stable_sort_contents(d, tier_rel());
        let k = lemma_insert_by_is_insert(q, x, tier_rel());
        let r = q.insert(k, x);
        assert forall|m: int| 0 <= m < q.len() implies (#[trigger] q[m]).id != x.id by {
            assert(q.contains(q[m]));
            assert(d.contains(q[m]));
            let p = choose|p: int| 0 <= p < d.len() && d[p] == q[m];
            assert(s[p] == d[p]);
            assert(s[p].id != s[s.len() - 1].id);
        }
        assert forall|i: int, j: int|
            0 <= i < r.len() && 0 <= j < r.len() && i != j implies (#[trigger] r[i]).id
            != (#[trigger] r[j]).id by {
            let qi = if i < k { i } else { i - 1 };
            let qj = if j < k { j } else { j - 1 };
            if i != k && j != k {
                assert(r[i] == q[qi] && r[j] == q[qj]);
            } else if i == k {
                assert(r[j] == q[qj]);
            } else {
                assert(r[i] == q[qi]);
            }
        }
    }
}

/// Sorting keeps the id facts.
pub proof fn lemma_sort_keeps_ids(s: Seq<TodoItem>, n: usize, g: usize)
    ensures
        ids_below(s, n) ==> ids_below(tier_sorted(s), n),
        ids_unique(s) ==> ids_unique(tier_sorted(s)),
        has_item_id(s, g) ==> has_item_id(tier_sorted(s), g),
{
    let r = tier_sorted(s);
    lemma_stable_sort_contents(s, tier_rel());
    if ids_below(s, n) {
        assert forall|i: int| 0 <= i < r.len() implies (#[trigger] r[i]).id < n by {
            assert(r.contains(r[i]));
            let p = choose|p: int| 0 <= p < s.len() && s[p] == r[i];
        }
    }
    if ids_unique(s) {
        lemma_sort_unique(s);
    }
    if has_item_id(s, g) {
        let i = choose|i: int| 0 <= i < s.len() && (#[trigger] s[i]).id == g;
        assert(s.contains(s[i]));
        assert(r.contains(s[i]));
        let j = choose|j: int| 0 <= j < r.len() && r[j] == s[i];
        assert(r[j].id == g);
    }
}

/// Removing an item keeps the id facts, and keeps every other id present.
pub proof fn lemma_remove_keeps_ids(s: Seq<TodoItem>, k: int, n: usize, g: usize)
    requires
        0 <= k < s.len(),
    ensures
        ids_below(s, n) ==> ids_below(s.remove(k), n),
        ids_unique(s) ==> ids_unique(s.remove(k)),
        has_item_id(s, g) && s[k].id != g ==> has_item_id(s.remove(k), g),
{
    let r = s.remove(k);
    if ids_below(s, n) {
        assert forall|i: int| 0 <= i < r.len() implies (#[trigger] r[i]).id < n by {
            if i >= k {
                assert(r[i] == s[i + 1]);
            }
        }
    }
    if ids_unique(s) {
        assert forall|i: int, j: int|
            0 <= i < r.len() && 0 <= j < r.len() && i != j implies (#[trigger] r[i]).id
            != (#[trigger] r[j]).id by {
            let si = if i < k { i } else { i + 1 };
            let sj = if j < k { j } else { j + 1 };
            assert(r[i] == s[si] && r[j] == s[sj]);
        }
    }
    if has_item_id(s, g) && s[k].id != g {
        let i = choose|i: int| 0 <= i < s.len() && (#[trigger] s[i]).id == g;
        if i < k {
            assert(r[i].id == g);
        } else {
            assert(r[i - 1] == s[i]);
        }
    }
}

/// Inserting an item whose id is `n`, above every id present, keeps the id
/// facts with the bound raised to `n + 1`.
pub proof fn lemma_insert_keeps_ids(s: Seq<TodoItem>, k: int, x: TodoItem, n: usize, g: usize)
    requires
        0 <= k <= s.len(),
        x.id == n,
        n < usize::MAX,
        ids_below(s, n),
    ensures
        ids_below(s.insert(k, x), (n + 1) as usize),
        ids_unique(s) ==> ids_unique(s.insert(k, x)),
        has_item_id(s, g) ==> has_item_id(s.insert(k, x), g),
{
    let r = s.insert(k, x);
    assert forall|i: int| 0 <= i < r.len() implies (#[trigger] r[i]).id < n + 1 by {
        if i < k {
            assert(r[i] == s[i]);
        } else if i > k {
            assert(r[i] == s[i - 1]);
        }
    }
    if ids_unique(s) {
        assert forall|i: int, j: int|
            0 <= i < r.len() && 0 <= j < r.len() && i != j implies (#[trigger] r[i]).id
            != (#[trigger] r[j]).id by {
            let si = if i < k { i } else { i - 1 };
            let sj = if j < k { j } else { j - 1 };
            if i != k {
                assert(r[i] == s[si]);
            }
            if j != k {
                assert(r[j] == s[sj]);
            }
        }
    }
    if has_item_id(s, g) {
        let i = choose|i: int| 0 <= i < s.len() && (#[trigger] s[i]).id == g;
        if i < k {
            assert(r[i] == s[i]);
        } else {
            assert(r[i + 1] == s[i]);
        }
    }
}

} // verus!
