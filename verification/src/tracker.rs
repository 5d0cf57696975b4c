//! Tracks the operations that are in flight in io_uring, each under a small integer index.
//!
//! A tracker of capacity `n` has `n` slots. Free indices are handed out first-in, first-out;
//! an index that is handed out is filled with [`Tracker::put`], looked up with
//! [`Tracker::get`], and given back to the end of the free list when its operation is removed.

use std::collections::VecDeque;
use vstd::prelude::*;

verus! {

/// The number of occupied slots.
pub open spec fn count_some<T>(slots: Seq<Option<T>>) -> nat
    decreases slots.len(),
{
    if slots.len() == 0 {
        0
    } else {
        count_some(slots.drop_last()) + if slots.last() is Some { 1nat } else { 0nat }
    }
}

/// At most every slot is occupied.
pub proof fn lemma_count_some_bounded<T>(slots: Seq<Option<T>>)
    ensures
        count_some(slots) <= slots.len(),
    decreases slots.len(),
{
    if slots.len() > 0 {
        lemma_count_some_bounded(slots.drop_last());
    }
}

/// Filling or emptying one slot changes the count by one.
pub proof fn lemma_count_some_update<T>(slots: Seq<Option<T>>, i: int, x: Option<T>)
    requires
        0 <= i < slots.len(),
    ensures
        count_some(slots.update(i, x)) + (if slots[i] is Some { 1int } else { 0int })
            == count_some(slots) + (if x is Some { 1int } else { 0int }),
    decreases slots.len(),
{
    let u = slots.update(i, x);
    if i == slots.len() - 1 {
        assert(u.drop_last() =~= slots.drop_last());
    } else {
        assert(u.drop_last() =~= slots.drop_last().update(i, x));
        lemma_count_some_update(slots.drop_last(), i, x);
    }
}

/// A tracker where no slot is occupied has a count of zero, and conversely.
pub proof fn lemma_count_some_zero<T>(slots: Seq<Option<T>>)
    ensures
        count_some(slots) == 0 <==> forall|i: int| 0 <= i < slots.len() ==> slots[i] is None,
    decreases slots.len(),
{
    if slots.len() > 0 {
        lemma_count_some_zero(slots.drop_last());
        if count_some(slots) == 0 {
            assert forall|i: int| 0 <= i < slots.len() implies slots[i] is None by {
                if i < slots.len() - 1 {
                    assert(slots.drop_last()[i] == slots[i]);
                }
            }
        }
        if forall|i: int| 0 <= i < slots.len() ==> slots[i] is None {
            assert forall|i: int| 0 <= i < slots.drop_last().len() implies slots.drop_last()[i] is None by {
                assert(slots.drop_last()[i] == slots[i]);
            }
        }
    }
}

/// What a tracker holds: its slots, its free indices in the order they will be handed out,
/// and its count of occupied slots.
pub struct TrackerView<T> {
    pub slots: Seq<Option<T>>,
    pub free: Seq<usize>,
    pub len: nat,
}

impl<T> TrackerView<T> {
    /// The view after `index` is filled with `op`.
    pub open spec fn put(self, index: int, op: T) -> TrackerView<T> {
        TrackerView { slots: self.slots.update(index, Some(op)), free: self.free, len: self.len + 1 }
    }

    /// The view after the operation at `index` is removed and `index` is freed.
    pub open spec fn remove(self, index: int) -> TrackerView<T> {
        TrackerView {
            slots: self.slots.update(index, None),
            free: self.free.push(index as usize),
            len: (self.len - 1) as nat,
        }
    }

    /// `index` has been handed out and not yet filled.
    pub open spec fn is_reserved(self, index: int) -> bool {
        &&& 0 <= index < self.slots.len()
        &&& self.slots[index] is None
        &&& !self.free.contains(index as usize)
    }

    /// `index` holds an operation.
    pub open spec fn is_occupied(self, index: int) -> bool {
        0 <= index < self.slots.len() && self.slots[index] is Some
    }

    /// The free indices are distinct, in range and empty, and the count matches the slots.
    pub open spec fn wf(self) -> bool {
        &&& forall|k: int|
            0 <= k < self.free.len() ==> {
                &&& #[trigger] self.free[k] < self.slots.len()
                &&& self.slots[self.free[k] as int] is None
            }
        &&& forall|a: int, b: int|
            0 <= a < b < self.free.len() ==> #[trigger] self.free[a] != #[trigger] self.free[b]
        &&& self.len == count_some(self.slots)
    }
}

/// Storing an operation at a handed-out index and then removing it gives the operation back,
/// empties the slot again, restores the count and puts the index at the end of the free list.
pub proof fn lemma_put_then_remove<T>(v: TrackerView<T>, index: int, op: T)
    requires
        v.wf(),
        v.is_reserved(index),
    ensures
        v.put(index, op).wf(),
        v.put(index, op).is_occupied(index),
        v.put(index, op).slots[index].unwrap() == op,
        v.put(index, op).remove(index).slots == v.slots,
        v.put(index, op).remove(index).len == v.len,
        v.put(index, op).remove(index).free == v.free.push(index as usize),
{
    lemma_count_some_update(v.slots, index, Some(op));
    let w = v.put(index, op);
    assert forall|k: int| 0 <= k < w.free.len() implies {
        &&& #[trigger] w.free[k] < w.slots.len()
        &&& w.slots[w.free[k] as int] is None
    } by {
        assert(w.free[k] != index);
    }
    assert(w.remove(index).slots =~= v.slots);
}

/// The indices of the empty slots.
pub open spec fn empty_slots<T>(slots: Seq<Option<T>>) -> Set<usize> {
    Set::new(|i: usize| i < slots.len() && slots[i as int] is None)
}

/// Changing the operation in an occupied slot keeps a tracker well formed.
pub proof fn lemma_update_occupied<T>(v: TrackerView<T>, index: int, op: T)
    requires
        v.wf(),
        v.is_occupied(index),
    ensures
        (TrackerView { slots: v.slots.update(index, Some(op)), ..v }).wf(),
{
    lemma_count_some_update(v.slots, index, Some(op));
    let w = TrackerView { slots: v.slots.update(index, Some(op)), ..v };
    assert forall|k: int| 0 <= k < w.free.len() implies {
        &&& #[trigger] w.free[k] < w.slots.len()
        &&& w.slots[w.free[k] as int] is None
    } by {
        assert(v.slots[v.free[k] as int] is None);
    }
}

/// The empty slots are those that are not occupied.
pub proof fn lemma_empty_slots_len<T>(slots: Seq<Option<T>>)
    requires
        slots.len() <= usize::MAX + 1,
    ensures
        empty_slots(slots).finite(),
        empty_slots(slots).len() + count_some(slots) == slots.len(),
    decreases slots.len(),
{
    if slots.len() == 0 {
        assert(empty_slots(slots) =~= Set::<usize>::empty());
    } else {
        let init = slots.drop_last();
        lemma_empty_slots_len(init);
        let last = (slots.len() - 1) as usize;
        assert(!empty_slots(init).contains(last));
        if slots.last() is None {
            assert(empty_slots(slots) =~= empty_slots(init).insert(last));
        } else {
            assert(empty_slots(slots) =~= empty_slots(init));
        }
    }
}

/// Every slot is accounted for at most once: the free indices and the occupied slots together
/// never outnumber the capacity.
pub proof fn lemma_free_and_occupied_within_capacity<T>(v: TrackerView<T>)
    requires
        v.wf(),
        v.slots.len() <= usize::MAX + 1,
    ensures
        v.free.len() + v.len <= v.slots.len(),
{
    lemma_empty_slots_len(v.slots);
    assert(v.free.no_duplicates());
    v.free.unique_seq_to_set();
    assert forall|i: usize| v.free.to_set().contains(i) implies empty_slots(v.slots).contains(i) by {
        let k = choose|k: int| 0 <= k < v.free.len() && v.free[k] == i;
        assert(v.free[k] < v.slots.len());
    }
    vstd::set_lib::lemma_len_subset(v.free.to_set(), empty_slots(v.slots));
}

/// Holds up to `n` operations, each under an index in `0..n`.
pub struct Tracker<T> {
    ops_in_flight: Vec<Option<T>>,
    next_index: VecDeque<usize>,
    len: usize,
}

impl<T> View for Tracker<T> {
    type V = TrackerView<T>;

    closed spec fn view(&self) -> TrackerView<T> {
        TrackerView { slots: self.ops_in_flight@, free: self.next_index@, len: self.len as nat }
    }
}

/// Proof that an index held by an operation was found in a tracker. It is used to read,
/// replace or remove that operation.
pub struct TrackerGuard {
    index: usize,
}

impl TrackerGuard {
    pub closed spec fn spec_index(self) -> usize {
        self.index
    }
}

impl<T> Tracker<T> {
    /// A tracker with `n` empty slots, whose indices are handed out in the order `0, 1, ...`.
    pub fn new(n: usize) -> (r: Self)
        ensures
            r@.wf(),
            r@.slots == Seq::new(n as nat, |i: int| None::<T>),
            r@.free == Seq::new(n as nat, |i: int| i as usize),
            r@.len == 0,
    {
        let mut ops_in_flight: Vec<Option<T>> = Vec::new();
        let mut next_index: VecDeque<usize> = VecDeque::new();
        let mut i: usize = 0;
        while i < n
            invariant
                i <= n,
                ops_in_flight@ == Seq::new(i as nat, |k: int| None::<T>),
                next_index@ == Seq::new(i as nat, |k: int| k as usize),
            decreases n - i,
        {
            ops_in_flight.push(None);
            next_index.push_back(i);
            i = i + 1;
        }
        let r = Tracker { ops_in_flight, next_index, len: 0 };
        proof {
            lemma_count_some_zero(r@.slots);
        }
        r
    }

    /// Hands out the next free index, or `None` if every index is in use.
    pub fn get_next_index(&mut self) -> (r: Option<usize>)
        requires
            old(self)@.wf(),
        ensures
            final(self)@.wf(),
            final(self)@.slots == old(self)@.slots,
            final(self)@.len == old(self)@.len,
            old(self)@.free.len() == 0 ==> r is None && final(self)@.free == old(self)@.free,
            old(self)@.free.len() > 0 ==> r == Some(old(self)@.free[0]) && final(self)@.free
                == old(self)@.free.drop_first(),
            r matches Some(i) ==> final(self)@.is_reserved(i as int),
    {
        let r = self.next_index.pop_front();
        proof {
            if r is Some {
                let i = r.unwrap();
                if self.next_index@.contains(i) {
                    let k = choose|k: int| 0 <= k < self.next_index@.len() && self.next_index@[k] == i;
                    assert(old(self).next_index@[k + 1] == i);
                    assert(old(self).next_index@[0] == i);
                }
                assert forall|a: int, b: int|
                    0 <= a < b < self.next_index@.len() implies #[trigger] self.next_index@[a]
                    != #[trigger] self.next_index@[b] by {
                    assert(self.next_index@[a] == old(self).next_index@[a + 1]);
                    assert(self.next_index@[b] == old(self).next_index@[b + 1]);
                }
                assert forall|k: int| 0 <= k < self.next_index@.len() implies {
                    &&& #[trigger] self.next_index@[k] < self.ops_in_flight@.len()
                    &&& self.ops_in_flight@[self.next_index@[k] as int] is None
                } by {
                    assert(self.next_index@[k] == old(self).next_index@[k + 1]);
                }
                assert(self.next_index@ =~= old(self).next_index@.drop_first());
            }
        }
        r
    }

    /// Stores `op` at `index`, replacing whatever was there, and counts one more operation.
    /// `index` must be below the capacity and the count must have room for one more. When
    /// `index` was handed out by [`Tracker::get_next_index`] and not yet filled, the tracker
    /// stays well formed.
    pub fn put(&mut self, index: usize, op: T)
        requires
            index < old(self)@.slots.len(),
            old(self)@.len < usize::MAX,
        ensures
            final(self)@ == old(self)@.put(index as int, op),
            old(self)@.wf() && old(self)@.is_reserved(index as int) ==> final(self)@.wf(),
    {
        let ghost v = self@;
        self.ops_in_flight.set(index, Some(op));
        self.len = self.len + 1;
        proof {
            assert(self@.slots =~= v.slots.update(index as int, Some(op)));
            if v.wf() && v.is_reserved(index as int) {
                lemma_count_some_update(v.slots, index as int, Some(op));
                assert forall|k: int| 0 <= k < self.next_index@.len() implies {
                    &&& #[trigger] self.next_index@[k] < self.ops_in_flight@.len()
                    &&& self.ops_in_flight@[self.next_index@[k] as int] is None
                } by {
                    assert(self.next_index@[k] != index);
                }
            }
        }
    }

    /// Looks up `index`: returns a guard for it if it holds an operation, else `None`.
    /// `index` must be below the capacity.
    pub fn get(&mut self, index: usize) -> (r: Option<TrackerGuard>)
        requires
            old(self)@.wf(),
            index < old(self)@.slots.len(),
        ensures
            final(self)@ == old(self)@,
            r is Some <==> old(self)@.is_occupied(index as int),
            r matches Some(g) ==> g.spec_index() == index,
    {
        if self.ops_in_flight[index].is_none() {
            None
        } else {
            Some(TrackerGuard { index })
        }
    }

    /// Returns true if no slot holds an operation.
    pub fn is_empty(&self) -> (r: bool)
        requires
            self@.wf(),
        ensures
            r == (self@.len == 0),
            r <==> forall|i: int| 0 <= i < self@.slots.len() ==> self@.slots[i] is None,
    {
        proof {
            lemma_count_some_zero(self@.slots);
        }
        self.len == 0
    }

    /// The number of slots.
    pub fn capacity(&self) -> (r: usize)
        ensures
            r == self@.slots.len(),
    {
        self.ops_in_flight.len()
    }

    /// Returns true if every index is in use: none is left to hand out.
    pub fn is_full(&self) -> (r: bool)
        ensures
            r == (self@.free.len() == 0),
    {
        self.next_index.len() == 0
    }
}

impl TrackerGuard {
    /// The operation at the guarded index.
    pub fn as_ref<'a, T>(&self, tracker: &'a Tracker<T>) -> (r: &'a T)
        requires
            tracker@.is_occupied(self.spec_index() as int),
        ensures
            *r == tracker@.slots[self.spec_index() as int].unwrap(),
    {
        match &tracker.ops_in_flight[self.index] {
            Some(op) => op,
            None => vstd::pervasive::unreached(),
        }
    }

    /// The operation at the guarded index, for modification.
    pub fn as_mut<'a, T>(&self, tracker: &'a mut Tracker<T>) -> (r: &'a mut T)
        requires
            old(tracker)@.is_occupied(self.spec_index() as int),
        ensures
            *r == old(tracker)@.slots[self.spec_index() as int].unwrap(),
            final(tracker)@ == (TrackerView {
                slots: old(tracker)@.slots.update(self.spec_index() as int, Some(*final(r))),
                ..old(tracker)@
            }),
    {
        let slot = &mut tracker.ops_in_flight[self.index];
        match slot {
            Some(op) => op,
            None => vstd::pervasive::unreached(),
        }
    }

    /// Removes and returns the operation at the guarded index, and puts the index at the end
    /// of the free list.
    pub fn remove<T>(&self, tracker: &mut Tracker<T>) -> (r: T)
        requires
            old(tracker)@.wf(),
            old(tracker)@.is_occupied(self.spec_index() as int),
        ensures
            final(tracker)@.wf(),
            r == old(tracker)@.slots[self.spec_index() as int].unwrap(),
            final(tracker)@ == old(tracker)@.remove(self.spec_index() as int),
    {
        let index = self.index;
        proof {
            lemma_count_some_update(tracker.ops_in_flight@, index as int, None);
            if tracker.next_index@.contains(index) {
                let k = choose|k: int| 0 <= k < tracker.next_index@.len() && tracker.next_index@[k] == index;
                assert(tracker.ops_in_flight@[tracker.next_index@[k] as int] is None);
            }
        }
        tracker.next_index.push_back(index);
        tracker.len = tracker.len - 1;
        let mut old_op: Option<T> = None;
        std::mem::swap(&mut old_op, &mut tracker.ops_in_flight[index]);
        let r = match old_op {
            Some(op) => op,
            None => vstd::pervasive::unreached(),
        };
        proof {
            let v = tracker@;
            assert forall|k: int| 0 <= k < v.free.len() implies {
                &&& #[trigger] v.free[k] < v.slots.len()
                &&& v.slots[v.free[k] as int] is None
            } by {
                if k < v.free.len() - 1 {
                    assert(v.free[k] == old(tracker)@.free[k]);
                }
            }
            assert forall|a: int, b: int|
                0 <= a < b < v.free.len() implies #[trigger] v.free[a] != #[trigger] v.free[b] by {
                if b == v.free.len() - 1 {
                    assert(v.free[a] == old(tracker)@.free[a]);
                    assert(old(tracker)@.slots[old(tracker)@.free[a] as int] is None);
                }
            }
        }
        r
    }

    /// Replaces the operation at the guarded index.
    pub fn replace<T>(&self, tracker: &mut Tracker<T>, op: T)
        requires
            old(tracker)@.wf(),
            old(tracker)@.is_occupied(self.spec_index() as int),
        ensures
            final(tracker)@.wf(),
            final(tracker)@ == (TrackerView {
                slots: old(tracker)@.slots.update(self.spec_index() as int, Some(op)),
                ..old(tracker)@
            }),
    {
        proof {
            lemma_count_some_update(tracker.ops_in_flight@, self.index as int, Some(op));
        }
        tracker.ops_in_flight.set(self.index, Some(op));
    }
}

} // verus!
