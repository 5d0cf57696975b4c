//! The bookkeeping of a work-stealing thread pool's parked threads.
//!
//! A worker with nothing to do reports that it is parked and sleeps. When new tasks arrive,
//! the park manager wakes up to the requested number of parked threads, oldest first. A flag,
//! which workers read before asking for a wake-up, says whether any thread is parked.

use std::collections::VecDeque;
use vstd::prelude::*;

verus! {

/// A message to the park manager.
#[derive(Debug, PartialEq, Eq, Clone, Copy, Structural)]
pub enum ParkManagerCommand {
    /// Wake up to this many parked threads.
    WakeAtMostNThreads(u32),
    /// The thread with this id has parked.
    ThreadIsParked(u64),
    /// Stop the park manager.
    Stop,
}

/// The parked threads, oldest first, and whether at least one thread is parked.
#[derive(Debug)]
pub struct ParkManager {
    parked_threads: VecDeque<u64>,
    at_least_one_thread_is_parked: bool,
}

/// What the park manager does with a command.
#[derive(Debug, PartialEq, Eq)]
pub enum Handled {
    /// Unpark these threads and wait for the next command.
    Continue(Vec<u64>),
    /// Leave the main loop.
    Stop,
}

impl ParkManager {
    /// The parked threads, oldest first.
    pub closed spec fn parked(self) -> Seq<u64> {
        self.parked_threads@
    }

    /// The flag that workers read.
    pub closed spec fn flag(self) -> bool {
        self.at_least_one_thread_is_parked
    }

    /// The flag says whether a thread is parked, and no thread is listed twice.
    pub open spec fn wf(self) -> bool {
        &&& self.flag() == (self.parked().len() > 0)
        &&& forall|a: int, b: int|
            0 <= a < b < self.parked().len() ==> #[trigger] self.parked()[a] != #[trigger] self.parked()[b]
    }

    /// A park manager with no parked thread.
    pub fn new(n_worker_threads: usize) -> (r: Self)
        ensures
            r.wf(),
            r.parked() == Seq::<u64>::empty(),
            !r.flag(),
    {
        ParkManager { parked_threads: VecDeque::with_capacity(n_worker_threads), at_least_one_thread_is_parked: false }
    }

    /// Whether at least one thread is parked.
    pub fn at_least_one_thread_is_parked(&self) -> (r: bool)
        ensures
            r == self.flag(),
    {
        self.at_least_one_thread_is_parked
    }

    /// Whether thread `t` is listed as parked.
    pub fn is_parked(&self, t: u64) -> (r: bool)
        ensures
            r == self.parked().contains(t),
    {
        let n = self.parked_threads.len();
        let mut i: usize = 0;
        while i < n
            invariant
                n == self.parked().len(),
                i <= n,
                forall|k: int| 0 <= k < i ==> self.parked()[k] != t,
            decreases n - i,
        {
            if self.parked_threads[i] == t {
                return true;
            }
            i = i + 1;
        }
        false
    }

    /// Records that thread `t`, which is not already parked, has parked.
    pub fn thread_is_parked(&mut self, t: u64)
        requires
            old(self).wf(),
            !old(self).parked().contains(t),
        ensures
            final(self).wf(),
            final(self).parked() == old(self).parked().push(t),
            final(self).flag(),
    {
        self.at_least_one_thread_is_parked = true;
        self.parked_threads.push_back(t);
        proof {
            assert forall|a: int, b: int| 0 <= a < b < self.parked().len() implies #[trigger] self.parked()[a]
                != #[trigger] self.parked()[b] by {
                if b == self.parked().len() - 1 {
                    assert(self.parked()[a] == old(self).parked()[a]);
                }
            }
        }
    }

    /// Takes up to `n` parked threads, oldest first, to be unparked; clears the flag if no
    /// thread is left parked.
    pub fn wake_at_most_n_threads(&mut self, n: u32) -> (r: Vec<u64>)
        requires
            old(self).wf(),
        ensures
            final(self).wf(),
            ({
                let k = if (n as int) < old(self).parked().len() { n as int } else { old(self).parked().len() as int };
                &&& r@ == old(self).parked().take(k)
                &&& final(self).parked() == old(self).parked().skip(k)
            }),
    {
        let mut woken: Vec<u64> = Vec::new();
        let mut i: u32 = 0;
        let ghost p = self.parked_threads@;
        while i < n
            invariant_except_break
                i <= n,
            invariant
                self.at_least_one_thread_is_parked == old(self).at_least_one_thread_is_parked,
                old(self).wf(),
                p == old(self).parked(),
                woken@.len() <= p.len(),
                woken@ == p.take(woken@.len() as int),
                self.parked_threads@ == p.skip(woken@.len() as int),
                woken@.len() == i || woken@.len() == p.len(),
                woken@.len() <= n,
            ensures
                woken@.len() == (if (n as int) < p.len() { n as int } else { p.len() as int }),
            decreases n - i,
        {
            match self.parked_threads.pop_front() {
                Some(t) => {
                    woken.push(t);
                    proof {
                        assert(woken@ =~= p.take(woken@.len() as int));
                        assert(self.parked_threads@ =~= p.skip(woken@.len() as int));
                    }
                },
                None => {
                    break;
                },
            }
            i = i + 1;
        }
        if self.parked_threads.len() == 0 {
            self.at_least_one_thread_is_parked = false;
        }
        proof {
            assert forall|a: int, b: int| 0 <= a < b < self.parked().len() implies #[trigger] self.parked()[a]
                != #[trigger] self.parked()[b] by {
                let k = woken@.len() as int;
                assert(self.parked()[a] == p[a + k]);
                assert(self.parked()[b] == p[b + k]);
            }
        }
        woken
    }

    /// Handles one command: a parked thread is recorded, a wake-up request takes threads to
    /// unpark, and `Stop` ends the main loop. A parked thread must not be recorded twice.
    pub fn handle(&mut self, cmd: ParkManagerCommand) -> (r: Handled)
        requires
            old(self).wf(),
            cmd matches ParkManagerCommand::ThreadIsParked(t) ==> !old(self).parked().contains(t),
        ensures
            final(self).wf(),
            cmd is Stop ==> r == Handled::Stop && *final(self) == *old(self),
            cmd matches ParkManagerCommand::ThreadIsParked(t) ==> r matches Handled::Continue(v) && v@.len() == 0
                && final(self).parked() == old(self).parked().push(t),
            cmd matches ParkManagerCommand::WakeAtMostNThreads(n) ==> r matches Handled::Continue(v) && ({
                let k = if (n as int) < old(self).parked().len() { n as int } else { old(self).parked().len() as int };
                &&& v@ == old(self).parked().take(k)
                &&& final(self).parked() == old(self).parked().skip(k)
            }),
    {
        match cmd {
            ParkManagerCommand::ThreadIsParked(t) => {
                self.thread_is_parked(t);
                Handled::Continue(Vec::new())
            },
            ParkManagerCommand::WakeAtMostNThreads(n) => Handled::Continue(self.wake_at_most_n_threads(n)),
            ParkManagerCommand::Stop => Handled::Stop,
        }
    }
}

/// How many other threads a worker asks to wake after pushing to its local queue, which now
/// holds `local_queue_len` tasks: as many as the tasks, if there is more than one.
pub fn threads_to_unpark(local_queue_len: usize) -> (r: Option<u32>)
    ensures
        local_queue_len > 1 ==> r == Some(local_queue_len as u32),
        local_queue_len <= 1 ==> r is None,
{
    if local_queue_len > 1 {
        Some(local_queue_len as u32)
    } else {
        None
    }
}

/// Whether a wake-up request is worth sending: only when some thread is parked.
pub fn should_request_wake(at_least_one_thread_is_parked: bool) -> (r: bool)
    ensures
        r == at_least_one_thread_is_parked,
{
    at_least_one_thread_is_parked
}

} // verus!
