use vstd::prelude::*;
use crate::order::{
    insert_by, lemma_stable_sort_contents, lemma_stable_sort_of_sorted, lemma_stable_sort_sorted,
    sorted_by, stable_sort, total, transitive,
};

verus! {

/// One entry of the list.
#[derive(Debug, Clone)]
pub struct TodoItem {
    pub text: String,
    pub done: bool,
    pub id: usize,
    pub display_order: usize,
}

/// Display rank: open items before finished ones, then by ascending order key.
pub open spec fn tier_le(a: TodoItem, b: TodoItem) -> bool {
    (!a.done && b.done) || (a.done == b.done && a.display_order <= b.display_order)
}

/// `tier_le` as a relation, for the generic sort.
pub open spec fn tier_rel() -> spec_fn(TodoItem, TodoItem) -> bool {
    |a: TodoItem, b: TodoItem| tier_le(a, b)
}

/// The display order of a collection: the stable sort by tier, then order key.
pub open spec fn tier_sorted(s: Seq<TodoItem>) -> Seq<TodoItem> {
    stable_sort(s, tier_rel())
}

/// No finished item stands before an open one.
pub open spec fn tiers_partitioned(s: Seq<TodoItem>) -> bool {
    forall|i: int, j: int| 0 <= i < j < s.len() ==> !((#[trigger] s[i]).done && !(#[trigger] s[j]).done)
}

/// Logical rank of two positions of `items`: by order key alone.
pub open spec fn key_rel(items: Seq<TodoItem>) -> spec_fn(usize, usize) -> bool {
    |a: usize, b: usize| items[a as int].display_order <= items[b as int].display_order
}

/// The positions `0..n` in order.
pub open spec fn positions(n: nat) -> Seq<usize> {
    Seq::new(n, |i: int| i as usize)
}

/// The logical ordering of `items`: their positions, stably sorted by order key.
pub open spec fn logical_order(items: Seq<TodoItem>) -> Seq<usize> {
    stable_sort(positions(items.len()), key_rel(items))
}

/// The display rank is a total preorder.
pub proof fn lemma_tier_rel_order()
    ensures
        total(tier_rel()),
        transitive(tier_rel()),
{
}

/// Sorting twice gives the same sequence as sorting once.
pub proof fn lemma_sort_idempotent(s: Seq<TodoItem>)
    ensures
        tier_sorted(tier_sorted(s)) == tier_sorted(s),
{
    lemma_tier_rel_order();
    lemma_stable_sort_sorted(s, tier_rel());
    lemma_stable_sort_of_sorted(tier_sorted(s), tier_rel());
}

/// After a sort no finished item precedes an open one, and the same items are there.
pub proof fn lemma_sort_partitions(s: Seq<TodoItem>)
    ensures
        tiers_partitioned(tier_sorted(s)),
        sorted_by(tier_sorted(s), tier_rel()),
        tier_sorted(s).len() == s.len(),
        forall|x: TodoItem| #[trigger] tier_sorted(s).contains(x) <==> s.contains(x),
{
    lemma_tier_rel_order();
    lemma_stable_sort_sorted(s, tier_rel());
    lemma_stable_sort_contents(s, tier_rel());
    let r = tier_sorted(s);
    assert forall|i: int, j: int| 0 <= i < j < r.len() implies !((#[trigger] r[i]).done && !(
    #[trigger] r[j]).done) by {
        assert(tier_rel()(r[i], r[j]));
    }
}

/// Whether `a` may stand before `b` in display order.
fn tier_before(a: &TodoItem, b: &TodoItem) -> (r: bool)
    ensures
        r == tier_le(*a, *b),
{
    (!a.done && b.done) || (a.done == b.done && a.display_order <= b.display_order)
}

/// One step of the insertion scan: passing an element that ranks above `x`.
proof fn lemma_insert_step<T>(s: Seq<T>, j: int, x: T, le: spec_fn(T, T) -> bool)
    requires
        0 < j <= s.len(),
        !le(s[j - 1], x),
    ensures
        insert_by(s.subrange(0, j), x, le) + s.subrange(j, s.len() as int) == insert_by(
            s.subrange(0, j - 1),
            x,
            le,
        ) + s.subrange(j - 1, s.len() as int),
{
    let t = s.subrange(0, j);
    assert(t.drop_last() =~= s.subrange(0, j - 1));
    assert(t.last() == s[j - 1]);
    let q = insert_by(s.subrange(0, j - 1), x, le);
    assert(q.push(s[j - 1]) + s.subrange(j, s.len() as int) =~= q + s.subrange(
        j - 1,
        s.len() as int,
    ));
}

/// Sorts the items into display order: open ones first, each tier by ascending
/// order key, ties kept in their present order.
pub fn sort_by_tier(items: &mut Vec<TodoItem>)
    ensures
        final(items)@ == tier_sorted(old(items)@),
{
    let ghost orig = items@;
    let ghost n = orig.len();
    let mut out: Vec<TodoItem> = Vec::new();
    let ghost mut k: int = 0;
    assert(orig.subrange(0, 0) =~= Seq::<TodoItem>::empty());
    while items.len() > 0
        invariant
            0 <= k <= n,
            items@ == orig.subrange(k, n as int),
            out@ == tier_sorted(orig.subrange(0, k)),
            orig.len() == n,
        decreases items.len(),
    {
        let x = items.remove(0);
        assert(x == orig[k]);
        let ghost before = out@;
        let mut j: usize = out.len();
        assert(before.subrange(0, before.len() as int) =~= before);
        assert(before.subrange(before.len() as int, before.len() as int) =~= Seq::<
            TodoItem,
        >::empty());
        while j > 0 && !tier_before(&out[j - 1], &x)
            invariant
                out@ == before,
                j <= out.len(),
                insert_by(before, x, tier_rel()) == insert_by(
                    before.subrange(0, j as int),
                    x,
                    tier_rel(),
                ) + before.subrange(j as int, before.len() as int),
            decreases j,
        {
            proof {
                lemma_insert_step(before, j as int, x, tier_rel());
            }
            j = j - 1;
        }
        proof {
            let t = before.subrange(0, j as int);
            if j > 0 {
                assert(t.last() == before[j - 1]);
            }
            assert(t.push(x) + before.subrange(j as int, before.len() as int) =~= before.insert(
                j as int,
                x,
            ));
            assert(seq![x] + before.subrange(0, before.len() as int) =~= before.insert(0, x));
        }
        out.insert(j, x);
        proof {
            let p = orig.subrange(0, k + 1);
            assert(p.drop_last() =~= orig.subrange(0, k));
            assert(p.last() == x);
            k = k + 1;
            assert(items@ =~= orig.subrange(k, n as int));
        }
    }
    assert(orig.subrange(0, n as int) =~= orig);
    *items = out;
}

/// Whether the item at `a` may stand before the one at `b` in the logical ordering.
fn key_before(items: &Vec<TodoItem>, a: usize, b: usize) -> (r: bool)
    requires
        a < items.len(),
        b < items.len(),
    ensures
        r == key_rel(items@)(a, b),
{
    items[a].display_order <= items[b].display_order
}

/// The positions of `items`, stably sorted by order key alone, across both tiers.
pub fn logical_positions(items: &Vec<TodoItem>) -> (r: Vec<usize>)
    ensures
        r@ == logical_order(items@),
{
    let ghost orig = positions(items@.len());
    let ghost n = orig.len();
    let ghost rel = key_rel(items@);
    let mut out: Vec<usize> = Vec::new();
    let mut k: usize = 0;
    assert(orig.subrange(0, 0) =~= Seq::<usize>::empty());
    while k < items.len()
        invariant
            k <= n,
            n == items@.len(),
            orig == positions(items@.len()),
            rel == key_rel(items@),
            out@ == stable_sort(orig.subrange(0, k as int), rel),
            forall|m: int| 0 <= m < out@.len() ==> (#[trigger] out@[m]) < k,
        decreases n - k,
    {
        let x = k;
        let ghost before = out@;
        let mut j: usize = out.len();
        assert(before.subrange(0, before.len() as int) =~= before);
        assert(before.subrange(before.len() as int, before.len() as int) =~= Seq::<
            usize,
        >::empty());
        while j > 0 && !key_before(items, out[j - 1], x)
            invariant
                out@ == before,
                j <= out.len(),
                x < items.len(),
                rel == key_rel(items@),
                forall|m: int| 0 <= m < out@.len() ==> (#[trigger] out@[m]) < items.len(),
                insert_by(before, x, rel) == insert_by(before.subrange(0, j as int), x, rel)
                    + before.subrange(j as int, before.len() as int),
            decreases j,
        {
            proof {
                lemma_insert_step(before, j as int, x, rel);
            }
            j = j - 1;
        }
        proof {
            let t = before.subrange(0, j as int);
            if j > 0 {
                assert(t.last() == before[j - 1]);
            }
            assert(t.push(x) + before.subrange(j as int, before.len() as int) =~= before.insert(
                j as int,
                x,
            ));
            assert(seq![x] + before.subrange(0, before.len() as int) =~= before.insert(0, x));
        }
        out.insert(j, x);
        proof {
            let p = orig.subrange(0, k + 1);
            assert(p.drop_last() =~= orig.subrange(0, k as int));
            assert(p.last() == x);
        }
        k = k + 1;
    }
    assert(orig.subrange(0, n as int) =~= orig);
    out
}

} // verus!
