//! A tracker of in-flight operations that insists on being used correctly: it expects a free
//! index to be available when one is asked for, and an operation to be present when one is
//! removed.

use crate::slot_tracker::{lemma_fill_reserved_slot, lemma_free_occupied_slot, lemma_take_first_free, unboxed, SlotsView};
use std::collections::VecDeque;
use vstd::prelude::*;

verus! {

/// Holds up to `n` boxed operations, each under an index in `0..n`.
pub struct OpTracker<T> {
    ops_in_flight: Vec<Option<Box<T>>>,
    next_index: VecDeque<usize>,
}

impl<T> View for OpTracker<T> {
    type V = SlotsView<T>;

    closed spec fn view(&self) -> SlotsView<T> {
        SlotsView { slots: unboxed(self.ops_in_flight@), free: self.next_index@ }
    }
}

impl<T> OpTracker<T> {
    /// A tracker with `n` empty slots, whose indices are handed out in the order `0, 1, ...`.
    pub fn new(n: usize) -> (r: Self)
        ensures
            r@.wf(),
            r@.slots == Seq::new(n as nat, |i: int| None::<T>),
            r@.free == Seq::new(n as nat, |i: int| i as usize),
    {
        let mut ops_in_flight: Vec<Option<Box<T>>> = Vec::new();
        let mut next_index: VecDeque<usize> = VecDeque::new();
        let mut i: usize = 0;
        while i < n
            invariant
                i <= n,
                ops_in_flight@ == Seq::new(i as nat, |k: int| None::<Box<T>>),
                next_index@ == Seq::new(i as nat, |k: int| k as usize),
            decreases n - i,
        {
            ops_in_flight.push(None);
            next_index.push_back(i);
            i = i + 1;
        }
        let r = OpTracker { ops_in_flight, next_index };
        assert(r@.slots =~= Seq::new(n as nat, |i: int| None::<T>));
        r
    }

    /// Hands out the next free index. Some index must be free.
    pub fn get_next_index(&mut self) -> (r: usize)
        requires
            old(self)@.wf(),
            old(self)@.free.len() > 0,
        ensures
            r == old(self)@.free[0],
            final(self)@.slots == old(self)@.slots,
            final(self)@.free == old(self)@.free.drop_first(),
            final(self)@.wf(),
            final(self)@.is_reserved(r as int),
    {
        let r = self.next_index.pop_front();
        proof {
            assert(self.next_index@ =~= old(self).next_index@.drop_first());
            lemma_take_first_free(old(self)@);
        }
        match r {
            Some(i) => i,
            None => vstd::pervasive::unreached(),
        }
    }

    /// Stores `op` at `index`, replacing whatever was there. `index` must be below the
    /// capacity. When `index` was handed out and not yet filled, the tracker stays well formed.
    pub fn put(&mut self, index: usize, op: T)
        requires
            index < old(self)@.slots.len(),
        ensures
            final(self)@.slots == old(self)@.slots.update(index as int, Some(op)),
            final(self)@.free == old(self)@.free,
            old(self)@.wf() && old(self)@.is_reserved(index as int) ==> final(self)@.wf(),
    {
        let op = Box::new(op);
        self.ops_in_flight.set(index, Some(op));
        proof {
            assert(self@.slots =~= old(self)@.slots.update(index as int, Some(*op)));
            if old(self)@.wf() && old(self)@.is_reserved(index as int) {
                lemma_fill_reserved_slot(old(self)@, index as int, *op);
            }
        }
    }

    /// Removes and returns the operation at `index`, which must hold one, and puts `index` at
    /// the end of the free list.
    pub fn remove(&mut self, index: usize) -> (r: T)
        requires
            old(self)@.wf(),
            index < old(self)@.slots.len(),
            old(self)@.slots[index as int] is Some,
        ensures
            r == old(self)@.slots[index as int].unwrap(),
            final(self)@.slots == old(self)@.slots.update(index as int, None),
            final(self)@.free == old(self)@.free.push(index),
            final(self)@.wf(),
    {
        self.next_index.push_back(index);
        let mut taken: Option<Box<T>> = None;
        std::mem::swap(&mut taken, &mut self.ops_in_flight[index]);
        proof {
            assert(self@.slots =~= old(self)@.slots.update(index as int, None));
            lemma_free_occupied_slot(old(self)@, index);
        }
        match taken {
            Some(t) => *t,
            None => vstd::pervasive::unreached(),
        }
    }
}

} // verus!
