//! The decisions of a worker thread that drives chained operations through fixed file slots.
//!
//! Entries generated by the thread itself take precedence over new user tasks. A new user task
//! is only taken while the rings have room and a fixed file slot is free; the thread blocks for
//! a user task only when nothing is in flight.

use crate::chain_ops::ChainNextStep;
use vstd::prelude::*;

verus! {

/// The number of fixed file slots registered with io_uring.
pub const MAX_FILES_TO_REGISTER: usize = 16;

/// The most entries in one chain of linked entries.
pub const MAX_ENTRIES_PER_CHAIN: usize = 2;

/// The size of the io_uring submission queue.
pub const SQ_RING_SIZE: usize = 32;

/// The rings are full when there is no room left for one more chain.
pub open spec fn spec_uring_is_full(sq_len: int, cq_len: int) -> bool {
    sq_len + cq_len >= SQ_RING_SIZE - MAX_ENTRIES_PER_CHAIN
}

pub fn uring_is_full(sq_len: usize, cq_len: usize) -> (r: bool)
    requires
        sq_len + cq_len <= usize::MAX,
    ensures
        r == spec_uring_is_full(sq_len as int, cq_len as int),
{
    sq_len + cq_len >= SQ_RING_SIZE - MAX_ENTRIES_PER_CHAIN
}

/// How to receive the next user task.
#[derive(Debug, PartialEq, Eq, Clone, Copy, Structural)]
pub enum Receive {
    /// Nothing is in flight, so block until a task arrives.
    Block,
    /// Take a task only if one is waiting.
    Poll,
}

/// Whether another user task may be taken now: the rings have room and a file slot is free;
/// and if so, whether to block for it.
pub fn user_task_receive(sq_len: usize, cq_len: usize, n_files_registered: usize, tasks_in_flight_is_empty: bool) -> (r: Option<Receive>)
    requires
        sq_len + cq_len <= usize::MAX,
    ensures
        r is Some <==> !spec_uring_is_full(sq_len as int, cq_len as int) && n_files_registered
            < MAX_FILES_TO_REGISTER,
        r is Some ==> (r == Some(Receive::Block) <==> tasks_in_flight_is_empty),
{
    if !uring_is_full(sq_len, cq_len) && n_files_registered < MAX_FILES_TO_REGISTER {
        if tasks_in_flight_is_empty {
            Some(Receive::Block)
        } else {
            Some(Receive::Poll)
        }
    } else {
        None
    }
}

/// Whether submitting should also wait for a completion: only when no completion is ready and
/// something is in flight.
pub fn submit_should_wait(cq_is_empty: bool, tasks_in_flight_is_empty: bool) -> (r: bool)
    ensures
        r == (cq_is_empty && !tasks_in_flight_is_empty),
{
    cq_is_empty && !tasks_in_flight_is_empty
}

/// What to do with an operation after one of its steps.
#[derive(Debug, PartialEq, Eq, Clone, Copy, Structural)]
pub enum StepAction {
    /// Submit the step's entries: as a new task's first step, or, later, by queueing them on
    /// the thread's own queue.
    Submit,
    /// Keep waiting.
    Wait,
    /// Remove the operation from the tracker.
    Remove,
}

/// The number of fixed file slots in use.
#[derive(Debug)]
pub struct FileSlots {
    n_files_registered: usize,
}

impl FileSlots {
    #[verifier::type_invariant]
    spec fn inv(self) -> bool {
        self.n_files_registered <= MAX_FILES_TO_REGISTER
    }

    pub closed spec fn spec_n(self) -> usize {
        self.n_files_registered
    }

    pub fn new() -> (r: Self)
        ensures
            r.spec_n() == 0,
    {
        FileSlots { n_files_registered: 0 }
    }

    /// The number of slots in use, never more than the number registered with io_uring.
    pub fn n_files_registered(&self) -> (r: usize)
        ensures
            r == self.spec_n(),
            r <= MAX_FILES_TO_REGISTER,
    {
        proof {
            use_type_invariant(self);
        }
        self.n_files_registered
    }

    /// Accounts for a new task's first step: it may register a file, which takes a slot. A
    /// first step must submit entries, and a slot must be free when it registers a file.
    pub fn first_step(&mut self, step: &ChainNextStep) -> (r: StepAction)
        requires
            *step is SubmitEntries,
            *step matches ChainNextStep::SubmitEntries { register_file, .. } && register_file ==> old(
                self,
            ).spec_n() < MAX_FILES_TO_REGISTER,
        ensures
            r == StepAction::Submit,
            *step matches ChainNextStep::SubmitEntries { register_file, .. } && final(self).spec_n() == (if register_file {
                old(self).spec_n() + 1
            } else {
                old(self).spec_n() as int
            }),
    {
        match step {
            ChainNextStep::SubmitEntries { register_file, .. } => {
                if *register_file {
                    self.n_files_registered = self.n_files_registered + 1;
                }
            },
            _ => {},
        }
        StepAction::Submit
    }

    /// Accounts for a later step: its entries are submitted (and must not register another
    /// file), `Pending` waits, and `Done` removes the operation, releasing a slot if it says so
    /// (there must then be one in use).
    pub fn later_step(&mut self, step: &ChainNextStep) -> (r: StepAction)
        requires
            *step matches ChainNextStep::SubmitEntries { register_file, .. } ==> !register_file,
            *step matches ChainNextStep::Done { unregister_file } && unregister_file ==> old(self).spec_n() > 0,
        ensures
            *step is SubmitEntries ==> r == StepAction::Submit && final(self).spec_n() == old(self).spec_n(),
            *step is Pending ==> r == StepAction::Wait && final(self).spec_n() == old(self).spec_n(),
            *step matches ChainNextStep::Done { unregister_file } ==> r == StepAction::Remove
                && final(self).spec_n() == (if unregister_file {
                old(self).spec_n() - 1
            } else {
                old(self).spec_n() as int
            }),
    {
        proof {
            use_type_invariant(&*self);
        }
        match step {
            ChainNextStep::SubmitEntries { .. } => StepAction::Submit,
            ChainNextStep::Pending => StepAction::Wait,
            ChainNextStep::Done { unregister_file } => {
                if *unregister_file {
                    self.n_files_registered = self.n_files_registered - 1;
                }
                StepAction::Remove
            },
        }
    }
}

} // verus!
