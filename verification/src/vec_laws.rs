//! Laws of [`VecMutation`]: how its variants relate to each other and to the
//! effects it reports.
use vstd::prelude::*;

use crate::vec::{strictly_increasing, without_indices, Effect, IndexSet, VecMutation};

verus! {

/// Inserting many elements is a splice with an empty removal range.
pub proof fn law_insert_many_is_splice<T: Clone>(s: Seq<T>, index: usize, items: Vec<T>)
    requires
        index <= s.len(),
    ensures
        VecMutation::InsertMany(index, items).spec_apply(s) == VecMutation::Splice(
            index,
            index,
            items,
        ).spec_apply(s),
{
}

/// Inserting one element is inserting a list holding just that element.
pub proof fn law_insert_one_is_insert_many<T: Clone>(s: Seq<T>, index: usize, item: T, items: Vec<T>)
    requires
        index <= s.len(),
        items@ == seq![item],
    ensures
        VecMutation::InsertOne(index, item).spec_apply(s) == VecMutation::InsertMany(
            index,
            items,
        ).spec_apply(s),
{
    assert(s.insert(index as int, item) =~= s.subrange(0, index as int) + items@ + s.subrange(
        index as int,
        s.len() as int,
    ));
}

/// Extending is inserting at the end of the vec.
pub proof fn law_extend_is_insert_many_at_end<T: Clone>(s: Seq<T>, items: Vec<T>)
    requires
        s.len() <= usize::MAX,
    ensures
        VecMutation::Extend(items).spec_apply(s) == VecMutation::InsertMany(
            s.len() as usize,
            items,
        ).spec_apply(s),
{
    assert(s.subrange(0, s.len() as int) =~= s);
    assert(s.subrange(s.len() as int, s.len() as int) =~= Seq::<T>::empty());
}

/// Pushing is extending with a list holding just that element.
pub proof fn law_push_is_extend<T: Clone>(s: Seq<T>, item: T, items: Vec<T>)
    requires
        items@ == seq![item],
    ensures
        VecMutation::Push(item).spec_apply(s) == VecMutation::Extend(items).spec_apply(s),
{
    assert(s.push(item) =~= s + items@);
}

/// Removing a range is a splice with an empty insertion list.
pub proof fn law_remove_range_is_splice<T: Clone>(s: Seq<T>, start: usize, end: usize, items: Vec<T>)
    requires
        start <= end <= s.len(),
        items@.len() == 0,
    ensures
        VecMutation::<T>::RemoveRange(start, end).spec_apply(s) == VecMutation::Splice(
            start,
            end,
            items,
        ).spec_apply(s),
{
    assert(s.subrange(0, start as int) + items@ =~= s.subrange(0, start as int));
}

/// Removing one element is removing the range holding just that element.
pub proof fn law_remove_one_is_remove_range<T: Clone>(s: Seq<T>, index: usize)
    requires
        index < s.len() <= usize::MAX,
    ensures
        VecMutation::<T>::RemoveOne(index).spec_apply(s) == VecMutation::<T>::RemoveRange(
            index,
            (index + 1) as usize,
        ).spec_apply(s),
{
    assert(s.remove(index as int) =~= s.subrange(0, index as int) + s.subrange(
        index + 1,
        s.len() as int,
    ));
}

/// Clearing is removing the range that covers the whole vec.
pub proof fn law_clear_is_remove_full_range<T: Clone>(s: Seq<T>)
    requires
        s.len() <= usize::MAX,
    ensures
        VecMutation::<T>::Clear.spec_apply(s) == VecMutation::<T>::RemoveRange(
            0,
            s.len() as usize,
        ).spec_apply(s),
{
    assert(s.subrange(0, 0) + s.subrange(s.len() as int, s.len() as int) =~= Seq::<T>::empty());
}

/// Replacing the whole contents is a splice over the whole vec.
pub proof fn law_set_all_is_full_splice<T: Clone>(s: Seq<T>, items: Vec<T>)
    requires
        s.len() <= usize::MAX,
    ensures
        VecMutation::SetAll(items).spec_apply(s) == VecMutation::Splice(
            0,
            s.len() as usize,
            items,
        ).spec_apply(s),
{
    assert(s.subrange(0, 0) + items@ + s.subrange(s.len() as int, s.len() as int) =~= items@);
}

/// Updating the last element is updating the element at the last index.
pub proof fn law_update_last_is_update<T: Clone>(s: Seq<T>, item: T)
    requires
        0 < s.len() <= usize::MAX,
    ensures
        VecMutation::UpdateLast(item).spec_apply(s) == VecMutation::Update(
            (s.len() - 1) as usize,
            item,
        ).spec_apply(s),
{
}

/// Removing the last element of a non-empty vec is removing the element at the
/// last index.
pub proof fn law_remove_last_is_remove_one<T: Clone>(s: Seq<T>)
    requires
        0 < s.len() <= usize::MAX,
    ensures
        VecMutation::<T>::RemoveLast.spec_apply(s) == VecMutation::<T>::RemoveOne(
            (s.len() - 1) as usize,
        ).spec_apply(s),
{
    assert(s.drop_last() =~= s.remove(s.len() - 1));
}


/// How much an effect changes the length of a vec.
pub open spec fn effect_delta<T>(e: Effect<T>) -> int {
    match e {
        Effect::Insert(_, items) => items.len() as int,
        Effect::Update(_, _, _) => 0,
        Effect::Remove(start, end, _) => start - end,
    }
}

/// How much a list of effects changes the length of a vec, in total.
pub open spec fn effects_delta<T>(effs: Seq<Effect<T>>) -> int
    decreases effs.len(),
{
    if effs.len() == 0 {
        0
    } else {
        effects_delta(effs.drop_last()) + effect_delta(effs.last())
    }
}

/// The contents of a vec holding `s` once the single effect `e` is performed.
pub open spec fn apply_effect<T>(s: Seq<T>, e: Effect<T>) -> Seq<T> {
    match e {
        Effect::Insert(index, items) => s.subrange(0, index) + items + s.subrange(index, s.len() as int),
        Effect::Update(index, _, next) => s.update(index, next),
        Effect::Remove(start, end, _) => s.subrange(0, start) + s.subrange(end, s.len() as int),
    }
}

/// The contents of a vec holding `s` once the effects are performed one after the
/// other, first to last.
pub open spec fn replay<T>(s: Seq<T>, effs: Seq<Effect<T>>) -> Seq<T>
    decreases effs.len(),
{
    if effs.len() == 0 {
        s
    } else {
        replay(apply_effect(s, effs[0]), effs.drop_first())
    }
}

/// The number of entries of `ix` below `n`.
pub open spec fn count_below(ix: Seq<usize>, n: int) -> nat
    decreases ix.len(),
{
    if ix.len() == 0 {
        0
    } else {
        count_below(ix.drop_last(), n) + if ix.last() < n {
            1nat
        } else {
            0nat
        }
    }
}

proof fn lemma_count_below_step(ix: Seq<usize>, m: usize)
    requires
        strictly_increasing(ix),
    ensures
        count_below(ix, m + 1) == count_below(ix, m as int) + if ix.contains(m) {
            1nat
        } else {
            0nat
        },
    decreases ix.len(),
{
    if ix.len() > 0 {
        let rest = ix.drop_last();
        lemma_count_below_step(rest, m);
        if ix.contains(m) {
            let k = choose|k: int| 0 <= k < ix.len() && ix[k] == m;
            if k < ix.len() - 1 {
                assert(rest[k] == m);
                assert(ix[k] < ix[ix.len() - 1]);
            } else {
                assert(!rest.contains(m)) by {
                    if rest.contains(m) {
                        let k2 = choose|k2: int| 0 <= k2 < rest.len() && rest[k2] == m;
                        assert(ix[k2] < ix[k]);
                    }
                }
            }
        } else {
            assert(!rest.contains(m)) by {
                if rest.contains(m) {
                    let k = choose|k: int| 0 <= k < rest.len() && rest[k] == m;
                    assert(ix[k] == m);
                }
            }
        }
    }
}

proof fn lemma_count_below_all(ix: Seq<usize>, n: int)
    requires
        forall|j: int| 0 <= j < ix.len() ==> #[trigger] ix[j] < n,
    ensures
        count_below(ix, n) == ix.len(),
    decreases ix.len(),
{
    if ix.len() > 0 {
        lemma_count_below_all(ix.drop_last(), n);
    }
}

proof fn lemma_without_indices_len<T>(s: Seq<T>, ix: Seq<usize>)
    requires
        strictly_increasing(ix),
        s.len() <= usize::MAX,
    ensures
        without_indices(s, ix).len() == s.len() - count_below(ix, s.len() as int),
    decreases s.len(),
{
    if s.len() > 0 {
        let m = (s.len() - 1) as usize;
        lemma_without_indices_len(s.drop_last(), ix);
        lemma_count_below_step(ix, m);
    } else {
        lemma_count_below_all_zero(ix);
    }
}

proof fn lemma_count_below_all_zero(ix: Seq<usize>)
    ensures
        count_below(ix, 0) == 0,
    decreases ix.len(),
{
    if ix.len() > 0 {
        lemma_count_below_all_zero(ix.drop_last());
    }
}

proof fn lemma_unit_removals_delta<T>(effs: Seq<Effect<T>>)
    requires
        forall|j: int| 0 <= j < effs.len() ==> effect_delta(#[trigger] effs[j]) == -1,
    ensures
        effects_delta(effs) == -(effs.len() as int),
    decreases effs.len(),
{
    if effs.len() > 0 {
        let rest = effs.drop_last();
        assert forall|j: int| 0 <= j < rest.len() implies effect_delta(#[trigger] rest[j]) == -1 by {
            assert(rest[j] == effs[j]);
        }
        lemma_unit_removals_delta(rest);
        assert(effect_delta(effs[effs.len() - 1]) == -1);
    }
}

/// Each effect tells how it changes the length of the vec (an insertion by the
/// number of new items, a removal by the size of its range, an update not at all);
/// together the effects of a mutation account for the whole change of length that
/// applying it makes.
pub proof fn law_effects_account_for_length<T: Clone>(m: VecMutation<T>, s: Seq<T>)
    requires
        m.applicable(s.len()),
        m.effects_defined(s.len()),
        m is RemoveMany ==> strictly_increasing(m->RemoveMany_0@),
        s.len() <= usize::MAX,
    ensures
        m.spec_apply(s).len() == s.len() + effects_delta(m.spec_effects(s)),
{
    reveal_with_fuel(effects_delta, 3);
    let effs = m.spec_effects(s);
    if effs.len() == 2 {
        assert(effs.drop_last().drop_last() =~= Seq::<Effect<T>>::empty());
    } else if effs.len() == 1 {
        assert(effs.drop_last() =~= Seq::<Effect<T>>::empty());
    }
    if m is RemoveMany {
        let ix = m->RemoveMany_0;
        lemma_without_indices_len(s, ix@);
        lemma_count_below_all(ix@, s.len() as int);
        assert forall|j: int| 0 <= j < effs.len() implies effect_delta(#[trigger] effs[j]) == -1 by {
            assert(effs[j] == Effect::Remove(ix@[j] as int, ix@[j] + 1, seq![s[ix@[j] as int]]));
        }
        lemma_unit_removals_delta(effs);
    }
}

/// Performing the reported effects one after the other, in order, on the
/// original contents gives the same contents as applying the mutation (for every
/// variant but `RemoveMany`, whose effects all speak of the original positions
/// and replay backwards: see `law_remove_many_replays_backwards`).
pub proof fn law_effects_replay_apply<T: Clone>(m: VecMutation<T>, s: Seq<T>)
    requires
        m.applicable(s.len()),
        m.effects_defined(s.len()),
        !(m is RemoveMany),
    ensures
        replay(s, m.spec_effects(s)) == m.spec_apply(s),
{
    reveal_with_fuel(replay, 3);
    let effs = m.spec_effects(s);
    let len = s.len() as int;
    if effs.len() == 2 {
        assert(effs.drop_first().drop_first() =~= Seq::<Effect<T>>::empty());
    } else if effs.len() == 1 {
        assert(effs.drop_first() =~= Seq::<Effect<T>>::empty());
    }
    match m {
        VecMutation::Splice(start, end, items) => {
            let mid = s.subrange(0, start as int) + s.subrange(end as int, len);
            assert(mid.subrange(0, start as int) =~= s.subrange(0, start as int));
            assert(mid.subrange(start as int, mid.len() as int) =~= s.subrange(end as int, len));
        },
        VecMutation::InsertOne(index, item) => {
            assert(s.subrange(0, index as int) + seq![item] + s.subrange(index as int, len)
                =~= s.insert(index as int, item));
        },
        VecMutation::Extend(items) => {
            assert(s.subrange(0, len) + items@ + s.subrange(len, len) =~= s + items@);
        },
        VecMutation::Push(item) => {
            assert(s.subrange(0, len) + seq![item] + s.subrange(len, len) =~= s.push(item));
        },
        VecMutation::RemoveOne(index) => {
            assert(s.subrange(0, index as int) + s.subrange(index + 1, len) =~= s.remove(
                index as int,
            ));
        },
        VecMutation::Clear => {
            assert(s.subrange(0, 0) + s.subrange(len, len) =~= Seq::<T>::empty());
        },
        VecMutation::RemoveLast => {
            assert(s.subrange(0, len - 1) + s.subrange(len, len) =~= s.drop_last());
        },
        VecMutation::SetAll(items) => {
            let mid = s.subrange(0, 0) + s.subrange(len, len);
            assert(mid =~= Seq::<T>::empty());
            assert(mid.subrange(0, 0) + items@ + mid.subrange(0, 0) =~= items@);
        },
        _ => {},
    }
}

/// Nothing is left out where no position is listed.
proof fn lemma_without_no_indices<T>(s: Seq<T>)
    ensures
        without_indices(s, Seq::<usize>::empty()) == s,
    decreases s.len(),
{
    if s.len() > 0 {
        lemma_without_no_indices(s.drop_last());
        assert(s.drop_last().push(s.last()) =~= s);
    }
}

/// Where every listed position lies before `k`, what follows `k` is kept whole.
proof fn lemma_without_prefix<T>(s: Seq<T>, removed: Seq<usize>, k: int)
    requires
        0 <= k <= s.len(),
        s.len() <= usize::MAX,
        forall|j: int| 0 <= j < removed.len() ==> #[trigger] removed[j] < k,
    ensures
        without_indices(s, removed) == without_indices(s.take(k), removed) + s.skip(k),
    decreases s.len(),
{
    if s.len() > k {
        lemma_without_prefix(s.drop_last(), removed, k);
        assert(!removed.contains((s.len() - 1) as usize)) by {
            if removed.contains((s.len() - 1) as usize) {
                let j = choose|j: int| 0 <= j < removed.len() && removed[j] == (s.len() - 1) as usize;
                assert(removed[j] < k);
            }
        }
        assert(s.drop_last().take(k) =~= s.take(k));
        assert(s.drop_last().skip(k).push(s.last()) =~= s.skip(k));
        assert((without_indices(s.take(k), removed) + s.drop_last().skip(k)).push(s.last())
            =~= without_indices(s.take(k), removed) + s.skip(k));
    } else {
        assert(s.take(k) =~= s);
        assert(s.skip(k) =~= Seq::<T>::empty());
        assert(without_indices(s, removed) + Seq::<T>::empty() =~= without_indices(s, removed));
    }
}

/// Only the listed positions that lie within `s` matter.
proof fn lemma_without_same_positions<T>(s: Seq<T>, r1: Seq<usize>, r2: Seq<usize>)
    requires
        forall|x: usize| x < s.len() ==> (r1.contains(x) <==> r2.contains(x)),
    ensures
        without_indices(s, r1) == without_indices(s, r2),
    decreases s.len(),
{
    if s.len() > 0 {
        lemma_without_same_positions(s.drop_last(), r1, r2);
        assert(r1.contains((s.len() - 1) as usize) == r2.contains((s.len() - 1) as usize));
    }
}

/// Removing positions one at a time, from the last to the first, leaves out
/// exactly those positions.
proof fn lemma_removals_backwards<T>(s: Seq<T>, ix: Seq<usize>, effs: Seq<Effect<T>>)
    requires
        s.len() <= usize::MAX,
        strictly_increasing(ix),
        forall|j: int| 0 <= j < ix.len() ==> #[trigger] ix[j] < s.len(),
        effs.len() == ix.len(),
        forall|j: int|
            0 <= j < ix.len() ==> (#[trigger] effs[j] matches Effect::Remove(a, b, _) && a == ix[j]
                && b == ix[j] + 1),
    ensures
        replay(s, effs.reverse()) == without_indices(s, ix),
    decreases ix.len(),
{
    if ix.len() == 0 {
        lemma_without_no_indices(s);
        assert(ix =~= Seq::<usize>::empty());
        assert(effs.reverse().len() == 0);
    } else {
        let m = ix.last();
        let ix2 = ix.drop_last();
        let effs2 = effs.drop_last();
        let len = s.len() as int;
        let t = s.subrange(0, m as int) + s.subrange(m + 1, len);
        assert(effs.reverse()[0] == effs.last());
        assert(effs.reverse().drop_first() =~= effs2.reverse());
        assert(effs[ix.len() - 1] == effs.last());
        assert(apply_effect(s, effs.last()) == t);
        assert forall|j: int| 0 <= j < ix2.len() implies #[trigger] ix2[j] < m by {
            assert(ix[j] < ix[ix.len() - 1]);
        }
        assert forall|j: int| 0 <= j < ix2.len() implies #[trigger] ix2[j] < t.len() by {
            assert(ix2[j] < m);
        }
        assert forall|j: int| 0 <= j < ix2.len() implies (#[trigger] effs2[j] matches Effect::Remove(
            a,
            b,
            _,
        ) && a == ix2[j] && b == ix2[j] + 1) by {
            assert(effs2[j] == effs[j]);
        }
        lemma_removals_backwards(t, ix2, effs2);
        // What is left of `t` is what is left of `s`.
        lemma_without_prefix(t, ix2, m as int);
        assert(t.take(m as int) =~= s.take(m as int));
        assert(t.skip(m as int) =~= s.skip(m + 1));
        assert forall|j: int| 0 <= j < ix.len() implies #[trigger] ix[j] < m + 1 by {
            if j < ix.len() - 1 {
                assert(ix[j] < ix[ix.len() - 1]);
            }
        }
        lemma_without_prefix(s, ix, m + 1);
        let head = s.take(m + 1);
        assert(head.drop_last() =~= s.take(m as int));
        assert(ix.contains((head.len() - 1) as usize)) by {
            assert(ix[ix.len() - 1] == m);
        }
        assert forall|x: usize| x < s.take(m as int).len() implies (ix.contains(x) <==> ix2.contains(
            x,
        )) by {
            if ix.contains(x) {
                let j = choose|j: int| 0 <= j < ix.len() && ix[j] == x;
                assert(j != ix.len() - 1);
                assert(ix2[j] == x);
            }
            if ix2.contains(x) {
                let j = choose|j: int| 0 <= j < ix2.len() && ix2[j] == x;
                assert(ix[j] == x);
            }
        }
        lemma_without_same_positions(s.take(m as int), ix, ix2);
    }
}

/// Removing many positions at once is removing them one at a time from the last
/// to the first: the reported removals, which all speak of the original
/// positions, performed in reverse order give the contents that applying the
/// mutation gives.
pub proof fn law_remove_many_replays_backwards<T: Clone>(s: Seq<T>, indices: IndexSet)
    requires
        s.len() <= usize::MAX,
        strictly_increasing(indices@),
        forall|j: int| 0 <= j < indices@.len() ==> #[trigger] indices@[j] < s.len(),
    ensures
        replay(s, VecMutation::RemoveMany(indices).spec_effects(s).reverse())
            == VecMutation::RemoveMany(indices).spec_apply(s),
{
    let m = VecMutation::<T>::RemoveMany(indices);
    let effs = m.spec_effects(s);
    lemma_removals_backwards(s, indices@, effs);
}

/// The elements of `s` that `keep` keeps, by position and value, in order.
pub open spec fn retained<T>(s: Seq<T>, keep: spec_fn(usize, T) -> bool) -> Seq<T>
    decreases s.len(),
{
    if s.len() == 0 {
        s
    } else {
        let kept = retained(s.drop_last(), keep);
        if keep((s.len() - 1) as usize, s.last()) {
            kept.push(s.last())
        } else {
            kept
        }
    }
}

/// Removing the positions that a predicate refuses keeps what the predicate
/// keeps, in order, as `Vec::retain` does.
pub proof fn law_remove_many_is_retain<T>(s: Seq<T>, removed: Seq<usize>, keep: spec_fn(usize, T) -> bool)
    requires
        s.len() <= usize::MAX,
        forall|i: usize| i < s.len() ==> (removed.contains(i) <==> !keep(i, s[i as int])),
    ensures
        without_indices(s, removed) == retained(s, keep),
    decreases s.len(),
{
    if s.len() > 0 {
        let rest = s.drop_last();
        assert forall|i: usize| i < rest.len() implies (removed.contains(i) <==> !keep(i, rest[i as int])) by {
            assert(rest[i as int] == s[i as int]);
        }
        law_remove_many_is_retain(rest, removed, keep);
        let n = (s.len() - 1) as usize;
        assert(s[n as int] == s.last());
    }
}

} // verus!
