//! The decisions of a reader that pushes a list of read tasks through one io_uring, keeping at
//! most a ring's worth of tasks in flight.

use vstd::prelude::*;

verus! {

/// The size of the completion ring, and so the most tasks in flight at once.
pub const CQ_RING_SIZE: u32 = 16;

/// How many more tasks to submit now: as many as remain, up to the room left in the ring.
pub fn n_to_submit(task_i: usize, n_tasks: usize, n_in_flight: u32) -> (r: usize)
    requires
        task_i <= n_tasks,
        n_in_flight <= CQ_RING_SIZE,
    ensures
        r == if n_tasks - task_i < CQ_RING_SIZE - n_in_flight {
            n_tasks - task_i
        } else {
            CQ_RING_SIZE - n_in_flight
        },
        task_i + r <= n_tasks,
        n_in_flight + r <= CQ_RING_SIZE,
{
    let room = (CQ_RING_SIZE - n_in_flight) as usize;
    let left = n_tasks - task_i;
    if left < room {
        left
    } else {
        room
    }
}

/// How a worker thread takes its next task from the user.
#[derive(Debug, PartialEq, Eq, Clone, Copy, Structural)]
pub enum TakeTask {
    /// Nothing is in flight: block until a task arrives.
    Block,
    /// The ring is full: take nothing now.
    Full,
    /// Take a task if one is waiting.
    Poll,
}

/// Blocks when nothing is in flight, takes nothing when the ring is full, else polls.
pub fn take_task(n_in_flight: u32) -> (r: TakeTask)
    ensures
        n_in_flight == 0 ==> r == TakeTask::Block,
        n_in_flight >= CQ_RING_SIZE ==> r == TakeTask::Full,
        0 < n_in_flight < CQ_RING_SIZE ==> r == TakeTask::Poll,
{
    if n_in_flight == 0 {
        TakeTask::Block
    } else if n_in_flight >= CQ_RING_SIZE {
        TakeTask::Full
    } else {
        TakeTask::Poll
    }
}

} // verus!
