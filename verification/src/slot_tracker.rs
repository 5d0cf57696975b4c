//! A tracker of in-flight operations without a count: each operation is boxed in its slot, and
//! removing an index that holds nothing is answered with `None`.

use std::collections::VecDeque;
use vstd::prelude::*;

verus! {

/// What a slot tracker holds: its slots and its free indices in the order they will be handed
/// out.
pub struct SlotsView<T> {
    pub slots: Seq<Option<T>>,
    pub free: Seq<usize>,
}

impl<T> SlotsView<T> {
    /// The free indices are distinct, in range and point at empty slots.
    pub open spec fn wf(self) -> bool {
        &&& forall|k: int|
            0 <= k < self.free.len() ==> {
                &&& #[trigger] self.free[k] < self.slots.len()
                &&& self.slots[self.free[k] as int] is None
            }
        &&& forall|a: int, b: int|
            0 <= a < b < self.free.len() ==> #[trigger] self.free[a] != #[trigger] self.free[b]
    }

    /// `index` has been handed out and not yet filled.
    pub open spec fn is_reserved(self, index: int) -> bool {
        &&& 0 <= index < self.slots.len()
        &&& self.slots[index] is None
        &&& !self.free.contains(index as usize)
    }
}

/// Freeing an occupied index keeps the free list well formed.
pub proof fn lemma_free_occupied_slot<T>(v: SlotsView<T>, index: usize)
    requires
        v.wf(),
        index < v.slots.len(),
        v.slots[index as int] is Some,
    ensures
        (SlotsView { slots: v.slots.update(index as int, None), free: v.free.push(index) }).wf(),
{
    let w = SlotsView { slots: v.slots.update(index as int, None), free: v.free.push(index) };
    assert forall|k: int| 0 <= k < w.free.len() implies {
        &&& #[trigger] w.free[k] < w.slots.len()
        &&& w.slots[w.free[k] as int] is None
    } by {
        if k < w.free.len() - 1 {
            assert(w.free[k] == v.free[k]);
        }
    }
    assert forall|a: int, b: int| 0 <= a < b < w.free.len() implies #[trigger] w.free[a]
        != #[trigger] w.free[b] by {
        if b == w.free.len() - 1 {
            assert(w.free[a] == v.free[a]);
        }
    }
}

/// Filling a handed-out index keeps the free list well formed.
pub proof fn lemma_fill_reserved_slot<T>(v: SlotsView<T>, index: int, op: T)
    requires
        v.wf(),
        v.is_reserved(index),
    ensures
        (SlotsView { slots: v.slots.update(index, Some(op)), free: v.free }).wf(),
{
    let w = SlotsView { slots: v.slots.update(index, Some(op)), free: v.free };
    assert forall|k: int| 0 <= k < w.free.len() implies {
        &&& #[trigger] w.free[k] < w.slots.len()
        &&& w.slots[w.free[k] as int] is None
    } by {
        assert(w.free[k] != index);
    }
}

/// Taking the first free index keeps the free list well formed and leaves that index handed
/// out.
pub proof fn lemma_take_first_free<T>(v: SlotsView<T>)
    requires
        v.wf(),
        v.free.len() > 0,
    ensures
        (SlotsView { slots: v.slots, free: v.free.drop_first() }).wf(),
        (SlotsView { slots: v.slots, free: v.free.drop_first() }).is_reserved(v.free[0] as int),
{
    let w = SlotsView { slots: v.slots, free: v.free.drop_first() };
    assert forall|k: int| 0 <= k < w.free.len() implies {
        &&& #[trigger] w.free[k] < w.slots.len()
        &&& w.slots[w.free[k] as int] is None
    } by {
        assert(w.free[k] == v.free[k + 1]);
    }
    assert forall|a: int, b: int| 0 <= a < b < w.free.len() implies #[trigger] w.free[a]
        != #[trigger] w.free[b] by {
        assert(w.free[a] == v.free[a + 1]);
        assert(w.free[b] == v.free[b + 1]);
    }
    if w.free.contains(v.free[0]) {
        let k = choose|k: int| 0 <= k < w.free.len() && w.free[k] == v.free[0];
        assert(v.free[k + 1] == v.free[0]);
    }
}

/// Holds up to `n` boxed operations, each under an index in `0..n`.
pub struct Tracker<T> {
    ops_in_flight: Vec<Option<Box<T>>>,
    next_index: VecDeque<usize>,
}

/// The slots with each box opened.
pub open spec fn unboxed<T>(s: Seq<Option<Box<T>>>) -> Seq<Option<T>> {
    s.map_values(|o: Option<Box<T>>| match o {
        Some(b) => Some(*b),
        None => None,
    })
}

impl<T> View for Tracker<T> {
    type V = SlotsView<T>;

    closed spec fn view(&self) -> SlotsView<T> {
        SlotsView { slots: unboxed(self.ops_in_flight@), free: self.next_index@ }
    }
}

impl<T> Tracker<T> {
    /// A tracker with `n` empty slots, whose indices are handed out in the order `0, 1, ...`.
    pub fn new(n: usize) -> (r: Self)
        ensures
            r@.wf(),
            r@.slots == Seq::new(n as nat, |i: int| None::<T>),
            r@.free == Seq::new(n as nat, |i: int| i as usize),
    {
        let mut ops_in_flight: Vec<Option<Box<T>>> = Vec::new();
        let mut next_index: VecDeque<usize> = VecDeque::new();
        let mut i: usize = 0;
        while i < n
            invariant
                i <= n,
                ops_in_flight@ == Seq::new(i as nat, |k: int| None::<Box<T>>),
                next_index@ == Seq::new(i as nat, |k: int| k as usize),
            decreases n - i,
        {
            ops_in_flight.push(None);
            next_index.push_back(i);
            i = i + 1;
        }
        let r = Tracker { ops_in_flight, next_index };
        assert(r@.slots =~= Seq::new(n as nat, |i: int| None::<T>));
        r
    }

    /// Hands out the next free index, or `None` if every index is in use.
    pub fn get_next_index(&mut self) -> (r: Option<usize>)
        ensures
            final(self)@.slots == old(self)@.slots,
            old(self)@.free.len() == 0 ==> r is None && final(self)@.free == old(self)@.free,
            old(self)@.free.len() > 0 ==> r == Some(old(self)@.free[0]) && final(self)@.free
                == old(self)@.free.drop_first(),
            old(self)@.wf() ==> final(self)@.wf(),
            old(self)@.wf() && r is Some ==> final(self)@.is_reserved(r.unwrap() as int),
    {
        let r = self.next_index.pop_front();
        proof {
            if old(self)@.free.len() > 0 {
                assert(self.next_index@ =~= old(self).next_index@.drop_first());
                if old(self)@.wf() {
                    lemma_take_first_free(old(self)@);
                }
            }
        }
        r
    }

    /// Stores `op` at `index`, replacing whatever was there. `index` must be below the
    /// capacity. When `index` was handed out and not yet filled, the tracker stays well formed.
    pub fn put(&mut self, index: usize, op: T)
        requires
            index < old(self)@.slots.len(),
        ensures
            final(self)@.slots == old(self)@.slots.update(index as int, Some(op)),
            final(self)@.free == old(self)@.free,
            old(self)@.wf() && old(self)@.is_reserved(index as int) ==> final(self)@.wf(),
    {
        let op = Box::new(op);
        self.ops_in_flight.set(index, Some(op));
        proof {
            assert(self@.slots =~= old(self)@.slots.update(index as int, Some(*op)));
            if old(self)@.wf() && old(self)@.is_reserved(index as int) {
                lemma_fill_reserved_slot(old(self)@, index as int, *op);
            }
        }
    }

    /// Removes and returns the operation at `index`, putting `index` at the end of the free
    /// list; returns `None`, changing nothing, if the slot is empty. `index` must be below the
    /// capacity.
    pub fn remove(&mut self, index: usize) -> (r: Option<T>)
        requires
            index < old(self)@.slots.len(),
        ensures
            r == old(self)@.slots[index as int],
            r is None ==> final(self)@ == old(self)@,
            r is Some ==> final(self)@.slots == old(self)@.slots.update(index as int, None)
                && final(self)@.free == old(self)@.free.push(index),
            old(self)@.wf() ==> final(self)@.wf(),
    {
        let mut taken: Option<Box<T>> = None;
        std::mem::swap(&mut taken, &mut self.ops_in_flight[index]);
        match taken {
            Some(t) => {
                self.next_index.push_back(index);
                proof {
                    assert(self@.slots =~= old(self)@.slots.update(index as int, None));
                    if old(self)@.wf() {
                        lemma_free_occupied_slot(old(self)@, index);
                    }
                }
                Some(*t)
            },
            None => {
                proof {
                    assert(self.ops_in_flight@ =~= old(self).ops_in_flight@);
                }
                None
            },
        }
    }
}

} // verus!
