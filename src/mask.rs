use vstd::prelude::*;

verus! {

/// The indices at which `mask` holds `true`, in increasing order.
pub open spec fn positions(mask: Seq<bool>) -> Seq<int>
    decreases mask.len(),
{
    if mask.len() == 0 {
        Seq::empty()
    } else {
        let head = positions(mask.drop_last());
        if mask.last() {
            head.push(mask.len() - 1)
        } else {
            head
        }
    }
}

/// The items at the positions that `mask` keeps, in their original order.
pub open spec fn select<T>(items: Seq<T>, mask: Seq<bool>) -> Seq<T> {
    positions(mask).map_values(|p: int| items[p])
}

/// A sequence of machine indices read as mathematical integers.
pub open spec fn as_ints(v: Seq<usize>) -> Seq<int> {
    v.map_values(|x: usize| x as int)
}

/// A mask of `n` entries, all `true`.
pub open spec fn all_true(n: nat) -> Seq<bool> {
    Seq::new(n, |i: int| true)
}

/// How `positions` grows by one mask entry.
pub proof fn lemma_positions_step(mask: Seq<bool>, i: int)
    requires
        0 <= i < mask.len(),
    ensures
        positions(mask.subrange(0, i + 1)) == if mask[i] {
            positions(mask.subrange(0, i)).push(i)
        } else {
            positions(mask.subrange(0, i))
        },
{
    assert(mask.subrange(0, i + 1).drop_last() =~= mask.subrange(0, i));
}

/// `positions` lists, in strictly increasing order, exactly the indices
/// where the mask is `true`.
pub proof fn lemma_positions(mask: Seq<bool>)
    ensures
        forall|k: int|
            0 <= k < positions(mask).len() ==> 0 <= #[trigger] positions(mask)[k] < mask.len()
                && mask[positions(mask)[k]],
        forall|a: int, b: int|
            0 <= a < b < positions(mask).len() ==> #[trigger] positions(mask)[a]
                < #[trigger] positions(mask)[b],
        forall|i: int| 0 <= i < mask.len() && mask[i] ==> #[trigger] positions(mask).contains(i),
        positions(mask).len() <= mask.len(),
    decreases mask.len(),
{
    lemma_positions_bounds(mask);
    if mask.len() > 0 {
        let m = mask.drop_last();
        lemma_positions(m);
        let h = positions(m);
        assert forall|i: int| 0 <= i < mask.len() && mask[i] implies #[trigger] positions(
            mask,
        ).contains(i) by {
            if i < mask.len() - 1 {
                assert(m[i]);
                assert(h.contains(i));
                let k = choose|k: int| 0 <= k < h.len() && h[k] == i;
                assert(positions(mask)[k] == i);
            } else {
                assert(positions(mask)[h.len() as int] == i);
            }
        }
    }
}

/// Each listed index is in range and marks a `true` entry; the list is
/// strictly increasing.
proof fn lemma_positions_bounds(mask: Seq<bool>)
    ensures
        forall|k: int|
            0 <= k < positions(mask).len() ==> 0 <= #[trigger] positions(mask)[k] < mask.len()
                && mask[positions(mask)[k]],
        forall|a: int, b: int|
            0 <= a < b < positions(mask).len() ==> #[trigger] positions(mask)[a]
                < #[trigger] positions(mask)[b],
        positions(mask).len() <= mask.len(),
    decreases mask.len(),
{
    if mask.len() > 0 {
        lemma_positions_bounds(mask.drop_last());
    }
}

/// A mask keeps index `i` exactly when it is `true` there.
pub proof fn lemma_positions_exact(mask: Seq<bool>)
    ensures
        forall|i: int| 0 <= i < mask.len() ==> (#[trigger] positions(mask).contains(i) <==> mask[i]),
{
    lemma_positions(mask);
    assert forall|i: int| 0 <= i < mask.len() && #[trigger] positions(mask).contains(i) implies mask[i] by {
        let k = choose|k: int| 0 <= k < positions(mask).len() && positions(mask)[k] == i;
        assert(mask[positions(mask)[k]]);
    }
}

/// `positions` of a mask with no `true` entry is empty, and conversely.
pub proof fn lemma_positions_empty(mask: Seq<bool>)
    ensures
        positions(mask).len() == 0 <==> forall|i: int| 0 <= i < mask.len() ==> !mask[i],
{
    lemma_positions(mask);
    if positions(mask).len() > 0 {
        assert(mask[positions(mask)[0]]);
    } else {
        assert forall|i: int| 0 <= i < mask.len() implies !mask[i] by {
            if mask[i] {
                assert(positions(mask).contains(i));
            }
        }
    }
}

/// The positions of a prefix of the mask are a prefix of its positions, and
/// every later position lies beyond that prefix.
pub proof fn lemma_positions_prefix(mask: Seq<bool>, j: int)
    requires
        0 <= j <= mask.len(),
    ensures
        positions(mask.subrange(0, j)).len() <= positions(mask).len(),
        positions(mask.subrange(0, j)) == positions(mask).subrange(
            0,
            positions(mask.subrange(0, j)).len() as int,
        ),
        forall|k: int|
            positions(mask.subrange(0, j)).len() <= k < positions(mask).len() ==> j
                <= #[trigger] positions(mask)[k],
    decreases mask.len(),
{
    if j == mask.len() {
        assert(mask.subrange(0, j) =~= mask);
        assert(positions(mask).subrange(0, positions(mask).len() as int) =~= positions(mask));
    } else {
        let m = mask.drop_last();
        assert(m.subrange(0, j) =~= mask.subrange(0, j));
        lemma_positions_prefix(m, j);
        lemma_positions(m);
        let p = positions(mask.subrange(0, j));
        if mask.last() {
            assert(positions(mask).subrange(0, p.len() as int) =~= positions(m).subrange(
                0,
                p.len() as int,
            ));
        }
    }
}

/// Where a kept index `s` stands among the positions: after exactly the kept
/// indices before it.
pub proof fn lemma_rank(mask: Seq<bool>, s: int)
    requires
        0 <= s < mask.len(),
        mask[s],
    ensures
        positions(mask.subrange(0, s)).len() < positions(mask).len(),
        positions(mask)[positions(mask.subrange(0, s)).len() as int] == s,
{
    lemma_positions_prefix(mask, s + 1);
    lemma_positions_step(mask, s);
    let p = positions(mask.subrange(0, s));
    assert(positions(mask.subrange(0, s + 1))[p.len() as int] == s);
}

/// A mask that is all `true` keeps every index, in order.
pub proof fn lemma_positions_all(n: nat)
    ensures
        positions(all_true(n)) == Seq::new(n, |i: int| i),
    decreases n,
{
    if n > 0 {
        lemma_positions_all((n - 1) as nat);
        assert(all_true(n).drop_last() =~= all_true((n - 1) as nat));
        assert(positions(all_true(n)) =~= Seq::new(n, |i: int| i));
    }
}

/// The indices at which `mask` holds `true`, in increasing order.
pub fn true_positions(mask: &Vec<bool>) -> (r: Vec<usize>)
    ensures
        as_ints(r@) == positions(mask@),
{
    let mut r: Vec<usize> = Vec::new();
    let mut i: usize = 0;
    while i < mask.len()
        invariant
            i <= mask@.len(),
            as_ints(r@) == positions(mask@.subrange(0, i as int)),
        decreases mask@.len() - i,
    {
        proof {
            lemma_positions_step(mask@, i as int);
        }
        if mask[i] {
            let ghost before = r@;
            r.push(i);
            assert(as_ints(r@) =~= as_ints(before).push(i as int));
        }
        i = i + 1;
    }
    assert(mask@.subrange(0, mask@.len() as int) =~= mask@);
    r
}

/// The items that `mask` keeps, moved out in their original order.
pub fn keep_by_mask<T>(items: Vec<T>, mask: &Vec<bool>) -> (r: Vec<T>)
    requires
        mask@.len() == items@.len(),
    ensures
        r@ == select(items@, mask@),
{
    let ghost all = items@;
    let mut rest = items;
    let mut r: Vec<T> = Vec::new();
    let mut i: usize = 0;
    while i < mask.len()
        invariant
            mask@.len() == all.len(),
            i <= all.len(),
            rest@ == all.subrange(i as int, all.len() as int),
            r@ == select(all, mask@.subrange(0, i as int)),
        decreases all.len() - i,
    {
        proof {
            lemma_positions_step(mask@, i as int);
        }
        let x = rest.remove(0);
        assert(x == all[i as int]);
        assert(rest@ =~= all.subrange(i + 1, all.len() as int));
        if mask[i] {
            r.push(x);
        }
        assert(r@ =~= select(all, mask@.subrange(0, i + 1)));
        i = i + 1;
    }
    assert(mask@.subrange(0, mask@.len() as int) =~= mask@);
    r
}

} // verus!
