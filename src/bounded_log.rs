//! Append-only sequences with a capacity cap and oldest-first eviction.
use vstd::prelude::*;

verus! {

/// The last `cap` elements of `s`, or all of `s` when it is not longer than `cap`.
pub open spec fn keep_last<T>(s: Seq<T>, cap: nat) -> Seq<T> {
    if s.len() <= cap {
        s
    } else {
        s.subrange(s.len() - cap, s.len() as int)
    }
}

/// The contents after appending each of `items`, in order, to `start`
/// with the cap applied after every append.
pub open spec fn append_all<T>(start: Seq<T>, items: Seq<T>, cap: nat) -> Seq<T>
    decreases items.len(),
{
    if items.len() == 0 {
        start
    } else {
        keep_last(append_all(start, items.drop_last(), cap).push(items.last()), cap)
    }
}

/// Appends `item` to `log`, then drops the oldest entries so that at most
/// `cap` remain, keeping the order of the survivors.
pub fn push_bounded<T>(log: &mut Vec<T>, item: T, cap: usize)
    ensures
        final(log)@ == keep_last(old(log)@.push(item), cap as nat),
{
    log.push(item);
    if log.len() > cap {
        let excess: usize = log.len() - cap;
        let tail = log.split_off(excess);
        *log = tail;
    }
}

/// Capping before an append changes nothing about what survives the next cap.
pub proof fn lemma_keep_last_push<T>(s: Seq<T>, x: T, cap: nat)
    ensures
        keep_last(keep_last(s, cap).push(x), cap) == keep_last(s.push(x), cap),
{
    if s.len() > cap {
        assert(keep_last(keep_last(s, cap).push(x), cap) =~= keep_last(s.push(x), cap));
    }
}

/// Appending any number of items one by one to an empty bounded log leaves
/// exactly the last `cap` of them (all of them if fewer), in the order they
/// came in; its length is the smaller of their number and `cap`.
pub proof fn lemma_bounded_appends<T>(items: Seq<T>, cap: nat)
    ensures
        append_all(Seq::<T>::empty(), items, cap) == keep_last(items, cap),
        append_all(Seq::<T>::empty(), items, cap).len() == if items.len() <= cap {
            items.len()
        } else {
            cap
        },
    decreases items.len(),
{
    if items.len() > 0 {
        let prefix = items.drop_last();
        lemma_bounded_appends(prefix, cap);
        lemma_keep_last_push(prefix, items.last(), cap);
        assert(prefix.push(items.last()) =~= items);
    }
}

/// Appending two runs of items one after the other is appending their concatenation.
pub proof fn lemma_append_all_concat<T>(start: Seq<T>, a: Seq<T>, b: Seq<T>, cap: nat)
    ensures
        append_all(append_all(start, a, cap), b, cap) == append_all(start, a + b, cap),
    decreases b.len(),
{
    if b.len() == 0 {
        assert(a + b =~= a);
    } else {
        lemma_append_all_concat(start, a, b.drop_last(), cap);
        assert((a + b).drop_last() =~= a + b.drop_last());
        assert((a + b).last() == b.last());
    }
}

/// Appending one more item to a run.
pub proof fn lemma_append_all_push<T>(start: Seq<T>, a: Seq<T>, x: T, cap: nat)
    ensures
        append_all(start, a.push(x), cap) == keep_last(append_all(start, a, cap).push(x), cap),
{
    assert(a.push(x).drop_last() =~= a);
}

/// Below the cap nothing is dropped: the items are simply appended.
pub proof fn lemma_append_all_room<T>(start: Seq<T>, items: Seq<T>, cap: nat)
    requires
        start.len() + items.len() <= cap,
    ensures
        append_all(start, items, cap) == start + items,
    decreases items.len(),
{
    if items.len() == 0 {
        assert(start + items =~= start);
    } else {
        lemma_append_all_room(start, items.drop_last(), cap);
        assert((start + items.drop_last()).push(items.last()) =~= start + items);
    }
}

} // verus!
