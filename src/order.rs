use vstd::prelude::*;

verus! {

/// `le` relates any two values one way or the other.
pub open spec fn total<T>(le: spec_fn(T, T) -> bool) -> bool {
    forall|a: T, b: T| #[trigger] le(a, b) || le(b, a)
}

/// `le` chains.
pub open spec fn transitive<T>(le: spec_fn(T, T) -> bool) -> bool {
    forall|a: T, b: T, c: T| #[trigger] le(a, b) && #[trigger] le(b, c) ==> le(a, c)
}

/// Every earlier element may stand before every later one.
pub open spec fn sorted_by<T>(s: Seq<T>, le: spec_fn(T, T) -> bool) -> bool {
    forall|i: int, j: int| 0 <= i < j < s.len() ==> #[trigger] le(s[i], s[j])
}

/// Places `x` into `s` right after the last element, counted from the end,
/// that may precede it; elements equal to `x` in rank stay in front of it.
pub open spec fn insert_by<T>(s: Seq<T>, x: T, le: spec_fn(T, T) -> bool) -> Seq<T>
    decreases s.len(),
{
    if s.len() == 0 {
        seq![x]
    } else if le(s.last(), x) {
        s.push(x)
    } else {
        insert_by(s.drop_last(), x, le).push(s.last())
    }
}

/// Stable insertion sort: elements of equal rank keep their relative order.
pub open spec fn stable_sort<T>(s: Seq<T>, le: spec_fn(T, T) -> bool) -> Seq<T>
    decreases s.len(),
{
    if s.len() == 0 {
        s
    } else {
        insert_by(stable_sort(s.drop_last(), le), s.last(), le)
    }
}

/// Inserting keeps every element of `s`, adds `x`, and nothing else.
pub proof fn lemma_insert_by_contents<T>(s: Seq<T>, x: T, le: spec_fn(T, T) -> bool)
    ensures
        insert_by(s, x, le).len() == s.len() + 1,
        insert_by(s, x, le).contains(x),
        forall|k: int| 0 <= k < s.len() ==> insert_by(s, x, le).contains(#[trigger] s[k]),
        forall|k: int|
            0 <= k < s.len() + 1 ==> #[trigger] insert_by(s, x, le)[k] == x || s.contains(
                insert_by(s, x, le)[k],
            ),
    decreases s.len(),
{
    let r = insert_by(s, x, le);
    if s.len() == 0 {
        assert(r[0] == x);
    } else if le(s.last(), x) {
        assert(r[s.len() as int] == x);
        assert forall|k: int| 0 <= k < s.len() implies r.contains(#[trigger] s[k]) by {
            assert(r[k] == s[k]);
        }
        assert forall|k: int| 0 <= k < s.len() + 1 implies #[trigger] r[k] == x || s.contains(
            r[k],
        ) by {
            if k < s.len() {
                assert(r[k] == s[k]);
            }
        }
    } else {
        let d = s.drop_last();
        let q = insert_by(d, x, le);
        lemma_insert_by_contents(d, x, le);
        assert(r == q.push(s.last()));
        let i = choose|i: int| 0 <= i < q.len() && q[i] == x;
        assert(r[i] == x);
        assert forall|k: int| 0 <= k < s.len() implies r.contains(#[trigger] s[k]) by {
            if k == s.len() - 1 {
                assert(r[q.len() as int] == s[k]);
            } else {
                assert(d[k] == s[k]);
                assert(q.contains(d[k]));
                let m = choose|m: int| 0 <= m < q.len() && q[m] == d[k];
                assert(r[m] == s[k]);
            }
        }
        assert forall|k: int| 0 <= k < s.len() + 1 implies #[trigger] r[k] == x || s.contains(
            r[k],
        ) by {
            if k == s.len() {
                assert(r[k] == s[s.len() - 1]);
            } else {
                assert(r[k] == q[k]);
                if q[k] != x {
                    let m = choose|m: int| 0 <= m < d.len() && d[m] == q[k];
                    assert(s[m] == d[m]);
                }
            }
        }
    }
}

/// Inserting into a sorted sequence leaves it sorted.
pub proof fn lemma_insert_by_sorted<T>(s: Seq<T>, x: T, le: spec_fn(T, T) -> bool)
    requires
        total(le),
        transitive(le),
        sorted_by(s, le),
    ensures
        sorted_by(insert_by(s, x, le), le),
    decreases s.len(),
{
    let r = insert_by(s, x, le);
    if s.len() == 0 {
    } else if le(s.last(), x) {
        assert forall|i: int, j: int| 0 <= i < j < r.len() implies #[trigger] le(r[i], r[j]) by {
            if j == s.len() {
                if i < s.len() - 1 {
                    assert(le(s[i], s[s.len() - 1]));
                }
            }
        }
    } else {
        let d = s.drop_last();
        let q = insert_by(d, x, le);
        let last = s.last();
        assert(le(x, last));
        assert(sorted_by(d, le)) by {
            assert forall|i: int, j: int| 0 <= i < j < d.len() implies #[trigger] le(d[i], d[j]) by {
                assert(le(s[i], s[j]));
            }
        }
        lemma_insert_by_sorted(d, x, le);
        lemma_insert_by_contents(d, x, le);
        assert(r == q.push(last));
        assert forall|i: int, j: int| 0 <= i < j < r.len() implies #[trigger] le(r[i], r[j]) by {
            if j == q.len() {
                assert(r[i] == q[i]);
                if q[i] != x {
                    let m = choose|m: int| 0 <= m < d.len() && d[m] == q[i];
                    assert(le(s[m], s[s.len() - 1]));
                }
            } else {
                assert(r[i] == q[i] && r[j] == q[j]);
            }
        }
    }
}

/// The result of a stable sort is sorted.
pub proof fn lemma_stable_sort_sorted<T>(s: Seq<T>, le: spec_fn(T, T) -> bool)
    requires
        total(le),
        transitive(le),
    ensures
        sorted_by(stable_sort(s, le), le),
        stable_sort(s, le).len() == s.len(),
    decreases s.len(),
{
    if s.len() > 0 {
        lemma_stable_sort_sorted(s.drop_last(), le);
        lemma_insert_by_sorted(stable_sort(s.drop_last(), le), s.last(), le);
        lemma_insert_by_contents(stable_sort(s.drop_last(), le), s.last(), le);
    }
}

/// Sorting a sequence that is already sorted changes nothing.
pub proof fn lemma_stable_sort_of_sorted<T>(s: Seq<T>, le: spec_fn(T, T) -> bool)
    requires
        sorted_by(s, le),
    ensures
        stable_sort(s, le) == s,
    decreases s.len(),
{
    if s.len() > 0 {
        let d = s.drop_last();
        assert(sorted_by(d, le)) by {
            assert forall|i: int, j: int| 0 <= i < j < d.len() implies #[trigger] le(d[i], d[j]) by {
                assert(le(s[i], s[j]));
            }
        }
        lemma_stable_sort_of_sorted(d, le);
        if d.len() > 0 {
            assert(le(s[d.len() - 1], s[d.len() as int]));
            assert(d.last() == s[d.len() - 1]);
        }
        assert(d.push(s.last()) =~= s);
    }
}

/// Sorting keeps exactly the elements it was given.
pub proof fn lemma_stable_sort_contents<T>(s: Seq<T>, le: spec_fn(T, T) -> bool)
    ensures
        stable_sort(s, le).len() == s.len(),
        forall|x: T| #[trigger] stable_sort(s, le).contains(x) <==> s.contains(x),
    decreases s.len(),
{
    if s.len() > 0 {
        let d = s.drop_last();
        let q = stable_sort(d, le);
        lemma_stable_sort_contents(d, le);
        lemma_insert_by_contents(q, s.last(), le);
        let r = stable_sort(s, le);
        assert forall|x: T| #[trigger] r.contains(x) <==> s.contains(x) by {
            if r.contains(x) {
                let k = choose|k: int| 0 <= k < r.len() && r[k] == x;
                assert(r[k] == s.last() || q.contains(r[k]));
                if x == s.last() {
                    assert(s[s.len() - 1] == x);
                } else {
                    assert(d.contains(x));
                    let m = choose|m: int| 0 <= m < d.len() && d[m] == x;
                    assert(s[m] == x);
                }
            }
            if s.contains(x) {
                let k = choose|k: int| 0 <= k < s.len() && s[k] == x;
                if k == s.len() - 1 {
                    assert(s.last() == x);
                } else {
                    assert(d[k] == x);
                    assert(d.contains(x));
                    assert(q.contains(x));
                    let m = choose|m: int| 0 <= m < q.len() && q[m] == x;
                    assert(r.contains(q[m]));
                }
            }
        }
    }
}

} // verus!
