use vstd::prelude::*;

verus! {

/// Contents after inserting `v` into a buffer holding `s` (oldest first) with room for `cap`
/// items: once full, the oldest item makes way for the new one.
pub open spec fn after_insert<T>(s: Seq<T>, v: T, cap: nat) -> Seq<T> {
    if s.len() < cap {
        s.push(v)
    } else {
        s.drop_first().push(v)
    }
}

/// What an insertion hands back: the oldest item when the buffer is full, nothing otherwise.
pub open spec fn evicted<T>(s: Seq<T>, cap: nat) -> Option<T> {
    if s.len() < cap {
        None
    } else {
        Some(s[0])
    }
}

/// What a removal hands back: the oldest item, if any.
pub open spec fn front<T>(s: Seq<T>) -> Option<T> {
    if s.len() == 0 {
        None
    } else {
        Some(s[0])
    }
}

/// Contents after a removal.
pub open spec fn after_remove<T>(s: Seq<T>) -> Seq<T> {
    if s.len() == 0 {
        s
    } else {
        s.drop_first()
    }
}

/// Contents after inserting every item of `vs`, in order, starting from `s`.
pub open spec fn after_inserts<T>(s: Seq<T>, vs: Seq<T>, cap: nat) -> Seq<T>
    decreases vs.len(),
{
    if vs.len() == 0 {
        s
    } else {
        after_insert(after_inserts(s, vs.drop_last(), cap), vs.last(), cap)
    }
}

/// The items that removals return, one after the other, until the buffer is empty.
pub open spec fn drained<T>(s: Seq<T>) -> Seq<T>
    decreases s.len(),
{
    if s.len() == 0 {
        Seq::empty()
    } else {
        seq![s[0]] + drained(after_remove(s))
    }
}

/// The last `cap` items of `s`, or all of them when there are no more than `cap`.
pub open spec fn newest<T>(s: Seq<T>, cap: nat) -> Seq<T> {
    if s.len() <= cap {
        s
    } else {
        s.subrange(s.len() - cap, s.len() as int)
    }
}

/// Each item is no greater than any item after it.
pub open spec fn non_decreasing(s: Seq<int>) -> bool {
    forall|i: int, j: int| 0 <= i <= j < s.len() ==> s[i] <= s[j]
}

/// Draining a buffer hands its items back oldest first, each exactly once.
pub proof fn lemma_drained_in_order<T>(s: Seq<T>)
    ensures
        drained(s) == s,
    decreases s.len(),
{
    if s.len() > 0 {
        lemma_drained_in_order(after_remove(s));
        assert(seq![s[0]] + s.drop_first() =~= s);
    }
}

/// Inserting `vs` one by one into a buffer holding `s` leaves the newest `cap` items of
/// `s + vs`, in insertion order.
pub proof fn lemma_inserts_keep_newest<T>(s: Seq<T>, vs: Seq<T>, cap: nat)
    requires
        cap > 0,
        s.len() <= cap,
    ensures
        after_inserts(s, vs, cap) == newest(s + vs, cap),
    decreases vs.len(),
{
    if vs.len() > 0 {
        let prev = vs.drop_last();
        let v = vs.last();
        lemma_inserts_keep_newest(s, prev, cap);
        let a = after_inserts(s, prev, cap);
        assert(s + vs =~= (s + prev).push(v));
        let all = s + vs;
        if a.len() < cap {
            assert(a == s + prev);
            assert(a.push(v) =~= all);
        } else {
            assert(all.len() > cap);
            assert(a.drop_first().push(v) =~= all.subrange(all.len() - cap, all.len() as int));
        }
    }
}

/// Inserting `v_1 .. v_n` one at a time into an empty buffer of capacity `cap`, then
/// removing until empty, yields the last `cap` of them (all when `n <= cap`) in insertion
/// order.
pub proof fn lemma_fifo_sequential<T>(vs: Seq<T>, cap: nat)
    requires
        cap > 0,
    ensures
        drained(after_inserts(Seq::empty(), vs, cap)) == newest(vs, cap),
{
    lemma_inserts_keep_newest(Seq::<T>::empty(), vs, cap);
    assert(Seq::<T>::empty() + vs =~= vs);
    lemma_drained_in_order(after_inserts(Seq::empty(), vs, cap));
}

/// On a full buffer, what an insertion evicts is what the next removal would have returned.
pub proof fn lemma_eviction_is_next_removal<T>(s: Seq<T>, cap: nat)
    requires
        cap > 0,
        s.len() == cap,
    ensures
        evicted(s, cap) == front(s),
{
}

/// A buffer holding nothing answers a removal with nothing, and stays empty.
pub proof fn lemma_empty_removal<T>(s: Seq<T>)
    requires
        s.len() == 0,
    ensures
        front(s) == None::<T>,
        after_remove(s) == s,
{
}

/// Contents after `k` removals.
pub open spec fn removed_times<T>(s: Seq<T>, k: nat) -> Seq<T>
    decreases k,
{
    if k == 0 {
        s
    } else {
        after_remove(removed_times(s, (k - 1) as nat))
    }
}

/// Repeated removals on an empty buffer keep answering nothing.
pub proof fn lemma_empty_stays_empty<T>(s: Seq<T>, n: nat)
    requires
        s.len() == 0,
    ensures
        forall|k: nat| k <= n ==> front(#[trigger] removed_times(s, k)) == None::<T>
            && removed_times(s, k) == s,
    decreases n,
{
    if n > 0 {
        lemma_empty_stays_empty(s, (n - 1) as nat);
        assert forall|k: nat| k <= n implies front(#[trigger] removed_times(s, k)) == None::<T>
            && removed_times(s, k) == s by {
            if k == n {
                assert(removed_times(s, k) == after_remove(removed_times(s, (k - 1) as nat)));
            }
        }
    }
}

/// A single-slot buffer overwrites: once full, every insertion evicts the sole stored item
/// and leaves only the new one.
pub proof fn lemma_single_slot_overwrites<T>(s: Seq<T>, v: T)
    requires
        s.len() == 1,
    ensures
        evicted(s, 1) == Some(s[0]),
        after_insert(s, v, 1) == seq![v],
{
    assert(s.drop_first().push(v) =~= seq![v]);
}

/// Filling a buffer from one producer with non-decreasing values and then draining it
/// yields `min(cap, n)` values, in non-decreasing order.
pub proof fn lemma_monotone_inserts_drain(vs: Seq<int>, cap: nat)
    requires
        cap > 0,
        non_decreasing(vs),
    ensures
        drained(after_inserts(Seq::empty(), vs, cap)).len() == if vs.len() <= cap {
            vs.len()
        } else {
            cap
        },
        non_decreasing(drained(after_inserts(Seq::empty(), vs, cap))),
{
    lemma_fifo_sequential(vs, cap);
    let r = newest(vs, cap);
    if vs.len() > cap {
        assert forall|i: int, j: int| 0 <= i <= j < r.len() implies r[i] <= r[j] by {
            assert(r[i] == vs[vs.len() - cap + i]);
            assert(r[j] == vs[vs.len() - cap + j]);
        }
    }
}

} // verus!
