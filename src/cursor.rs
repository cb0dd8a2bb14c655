//! The cursor that many workers pull from. Each pull takes the next item
//! of the one underlying sequence under mutual exclusion, so a run of
//! pulls is described by the order in which the workers got their turns.
use vstd::prelude::*;
use vstd::multiset::Multiset;

verus! {

/// The items that worker `w` receives when the pulls that take `items` one
/// after another go to the workers `order[0]`, `order[1]`, ... in turn.
pub open spec fn handed<T>(items: Seq<T>, order: Seq<nat>, w: nat) -> Seq<T>
    decreases items.len(),
{
    if items.len() == 0 || order.len() == 0 {
        Seq::empty()
    } else {
        let h = handed(items.drop_last(), order.drop_last(), w);
        if order.last() == w {
            h.push(items.last())
        } else {
            h
        }
    }
}

/// Everything that workers `0 .. n` receive, together.
pub open spec fn gathered<T>(items: Seq<T>, order: Seq<nat>, n: nat) -> Multiset<T>
    decreases n,
{
    if n == 0 {
        Multiset::empty()
    } else {
        gathered(items, order, (n - 1) as nat).add(handed(items, order, (n - 1) as nat).to_multiset())
    }
}

/// What the workers gather from one more pull: the last item joins the
/// gathering of the worker whose turn it was, if that worker is counted.
proof fn lemma_gathered_last<T>(items: Seq<T>, order: Seq<nat>, n: nat)
    requires
        items.len() > 0,
        order.len() == items.len(),
    ensures
        gathered(items, order, n) == if order.last() < n {
            gathered(items.drop_last(), order.drop_last(), n).insert(items.last())
        } else {
            gathered(items.drop_last(), order.drop_last(), n)
        },
    decreases n,
{
    broadcast use vstd::seq_lib::group_to_multiset_ensures;

    if n > 0 {
        let m = (n - 1) as nat;
        lemma_gathered_last(items, order, m);
        let h = handed(items.drop_last(), order.drop_last(), m);
        if order.last() == m {
            assert(h.push(items.last()).to_multiset() =~= h.to_multiset().insert(items.last()));
            assert(gathered(items, order, n) =~= gathered(items.drop_last(), order.drop_last(), n).insert(items.last()));
        } else if order.last() < m {
            assert(gathered(items, order, n) =~= gathered(items.drop_last(), order.drop_last(), n).insert(items.last()));
        } else {
            assert(gathered(items, order, n) =~= gathered(items.drop_last(), order.drop_last(), n));
        }
    }
}

/// However the turns of `n` workers fall, pulling a finite sequence to
/// its end through the shared cursor hands every item to exactly one
/// worker: what the workers receive together is, as a multiset, exactly
/// the sequence, with nothing repeated and nothing lost.
pub proof fn lemma_cursor_exclusive<T>(items: Seq<T>, order: Seq<nat>, n: nat)
    requires
        order.len() == items.len(),
        forall|i: int| 0 <= i < order.len() ==> #[trigger] order[i] < n,
    ensures
        gathered(items, order, n) == items.to_multiset(),
    decreases items.len(),
{
    broadcast use vstd::seq_lib::group_to_multiset_ensures;

    if items.len() == 0 {
        lemma_gathered_empty(items, order, n);
        assert(items.to_multiset() =~= Multiset::<T>::empty());
    } else {
        let dl = items.drop_last();
        let odl = order.drop_last();
        assert(order.last() == order[order.len() - 1]);
        assert forall|i: int| 0 <= i < odl.len() implies #[trigger] odl[i] < n by {
            assert(odl[i] == order[i]);
        }
        lemma_cursor_exclusive(dl, odl, n);
        lemma_gathered_last(items, order, n);
        assert(dl.push(items.last()) =~= items);
    }
}

/// Nothing is gathered from no pulls.
proof fn lemma_gathered_empty<T>(items: Seq<T>, order: Seq<nat>, n: nat)
    requires
        items.len() == 0,
    ensures
        gathered(items, order, n) == Multiset::<T>::empty(),
    decreases n,
{
    if n > 0 {
        lemma_gathered_empty(items, order, (n - 1) as nat);
        assert(handed(items, order, (n - 1) as nat).to_multiset() =~= Multiset::<T>::empty()) by {
            broadcast use vstd::seq_lib::group_to_multiset_ensures;
            assert(handed(items, order, (n - 1) as nat) =~= Seq::<T>::empty());
        }
        assert(gathered(items, order, n) =~= Multiset::<T>::empty());
    }
}

} // verus!
