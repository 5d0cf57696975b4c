//! The decisions of an io_uring worker thread's main loop.
//!
//! The loop keeps the submission queue (SQ) topped up with new tasks until the SQ and the
//! completion queue (CQ) together reach a high water line, so that io_uring can work on many
//! operations at once, and only then drains the CQ. When the rings are nearly full it drains
//! the CQ, waiting for a completion first if none is ready. With no task to start and nothing in
//! flight, the thread parks.

use crate::io::Output;
use crate::opcode::{CLOSE, STATX};
use crate::open_file::StatxFields;
use crate::operation::{state_after, step_spec, FirstStep, NextStep, Operation, OperationError};
use crate::tracker::{lemma_update_occupied, Tracker, TrackerView};
use crate::user_data::{spec_decode_index, spec_decode_opcode, spec_encode, UringUserData};
use vstd::prelude::*;

verus! {

/// The most SQ entries that one iteration of the loop submits.
pub const MAX_SQ_ENTRIES_PER_ITERATION: usize = 2;

/// The size of the io_uring submission queue.
pub const SQ_RING_SIZE: usize = 64;

/// The SQ is kept filling until SQ plus CQ length reaches this line.
pub const HIGH_WATER_LINE: usize = 32;

/// The number of entries in the SQ and the CQ together.
pub fn sq_len_plus_cq_len(sq_len: usize, cq_len: usize) -> (r: usize)
    requires
        sq_len + cq_len <= usize::MAX,
    ensures
        r == sq_len + cq_len,
{
    sq_len + cq_len
}

/// The rings are full when there is no room left for one more iteration's entries.
pub open spec fn spec_uring_is_full(sq_len: int, cq_len: int) -> bool {
    sq_len + cq_len >= SQ_RING_SIZE - MAX_SQ_ENTRIES_PER_ITERATION
}

pub fn uring_is_full(sq_len: usize, cq_len: usize) -> (r: bool)
    requires
        sq_len + cq_len <= usize::MAX,
    ensures
        r == spec_uring_is_full(sq_len as int, cq_len as int),
{
    sq_len_plus_cq_len(sq_len, cq_len) >= SQ_RING_SIZE - MAX_SQ_ENTRIES_PER_ITERATION
}

/// What the loop does at the top of an iteration.
#[derive(Debug, PartialEq, Eq, Clone, Copy, Structural)]
pub enum LoopStart {
    /// The pool is shutting down: leave the loop.
    Stop,
    /// The rings are full and no completion is ready: submit and wait for one completion,
    /// then drain the CQ.
    WaitThenDrain,
    /// The rings are full but completions are ready: drain the CQ.
    Drain,
    /// There is room: look for a task to start.
    FindTask,
}

/// Decides the start of an iteration.
pub fn at_loop_start(keep_running: bool, sq_len: usize, cq_len: usize, cq_is_empty: bool) -> (r: LoopStart)
    requires
        sq_len + cq_len <= usize::MAX,
    ensures
        !keep_running ==> r == LoopStart::Stop,
        keep_running && spec_uring_is_full(sq_len as int, cq_len as int) && cq_is_empty ==> r
            == LoopStart::WaitThenDrain,
        keep_running && spec_uring_is_full(sq_len as int, cq_len as int) && !cq_is_empty ==> r
            == LoopStart::Drain,
        keep_running && !spec_uring_is_full(sq_len as int, cq_len as int) ==> r == LoopStart::FindTask,
{
    if !keep_running {
        LoopStart::Stop
    } else if uring_is_full(sq_len, cq_len) {
        if cq_is_empty {
            LoopStart::WaitThenDrain
        } else {
            LoopStart::Drain
        }
    } else {
        LoopStart::FindTask
    }
}

/// What the loop does after looking for a task.
#[derive(Debug, PartialEq, Eq, Clone, Copy, Structural)]
pub enum AfterTask {
    /// Go back to the top of the loop without draining the CQ.
    Restart,
    /// Drain the CQ.
    Drain,
    /// Park the thread, then go back to the top of the loop.
    ParkThenRestart,
}

/// After a task's first step was submitted: keep topping up the SQ while SQ plus CQ length is
/// below the high water line, else drain the CQ.
pub fn after_submitting_task(sq_len: usize, cq_len: usize) -> (r: AfterTask)
    requires
        sq_len + cq_len <= usize::MAX,
    ensures
        sq_len + cq_len < HIGH_WATER_LINE ==> r == AfterTask::Restart,
        sq_len + cq_len >= HIGH_WATER_LINE ==> r == AfterTask::Drain,
{
    if sq_len_plus_cq_len(sq_len, cq_len) < HIGH_WATER_LINE {
        AfterTask::Restart
    } else {
        AfterTask::Drain
    }
}

/// When no task was found: park if nothing is in flight, else drain the CQ.
pub fn after_finding_no_task(ops_in_flight_is_empty: bool) -> (r: AfterTask)
    ensures
        ops_in_flight_is_empty ==> r == AfterTask::ParkThenRestart,
        !ops_in_flight_is_empty ==> r == AfterTask::Drain,
{
    if ops_in_flight_is_empty {
        AfterTask::ParkThenRestart
    } else {
        AfterTask::Drain
    }
}

/// What happens to an operation's tracker slot after one of its completions.
#[derive(Debug, PartialEq, Eq, Clone, Copy, Structural)]
pub enum SlotUpdate {
    Keep,
    Replace,
    Remove,
}

/// `Pending` keeps the operation, `ReplaceWith` replaces it and `Done` removes it.
pub fn slot_update(next: &NextStep) -> (r: SlotUpdate)
    ensures
        next is Pending <==> r == SlotUpdate::Keep,
        next is ReplaceWith <==> r == SlotUpdate::Replace,
        next is Done <==> r == SlotUpdate::Remove,
{
    match next {
        NextStep::Pending => SlotUpdate::Keep,
        NextStep::ReplaceWith(_) => SlotUpdate::Replace,
        NextStep::Done => SlotUpdate::Remove,
    }
}

/// What the worker does after one completion: the output to send to the user, the new
/// operations to queue, what became of the operation's slot and, when the operation was
/// replaced, the first submission of its replacement.
#[derive(Debug)]
pub struct HandledCompletion {
    pub index_of_op: usize,
    pub output: Option<Result<Output, OperationError>>,
    pub new_ops: Vec<Operation>,
    pub slot: SlotUpdate,
    pub first_step: Option<FirstStep>,
}

/// The step that a slot update stands for, given the tracker after it: a kept operation was
/// pending, a removed one done, and a replaced one replaced by what its slot now holds.
pub open spec fn next_of(slot: SlotUpdate, ops: TrackerView<Operation>, index: int) -> NextStep {
    match slot {
        SlotUpdate::Keep => NextStep::Pending,
        SlotUpdate::Remove => NextStep::Done,
        SlotUpdate::Replace => NextStep::ReplaceWith(ops.slots[index].unwrap()),
    }
}

/// `after` is `before` with the `statx` fields that the kernel wrote stored, when the
/// completion is a successful `statx` of a `GetRanges` and the fields are given; otherwise
/// `after` is `before`.
pub open spec fn statx_stored(before: Operation, after: Operation, opcode: u8, cqe_result: i32, statx: Option<StatxFields>) -> bool {
    if opcode == STATX && cqe_result >= 0 && statx is Some && before is GetRanges {
        &&& after is GetRanges
        &&& after->GetRanges_0.spec_builder() is Some
        &&& after->GetRanges_0.spec_builder().unwrap().spec_statx() == statx.unwrap()
        &&& after->GetRanges_0.spec_builder().unwrap().spec_location() == before->GetRanges_0.spec_builder().unwrap().spec_location()
        &&& after->GetRanges_0.spec_builder().unwrap().spec_file_descriptor() == before->GetRanges_0.spec_builder().unwrap().spec_file_descriptor()
        &&& after->GetRanges_0.spec_builder().unwrap().spec_statx_initialised() == before->GetRanges_0.spec_builder().unwrap().spec_statx_initialised()
        &&& after->GetRanges_0.spec_ranges() == before->GetRanges_0.spec_ranges()
        &&& after->GetRanges_0.spec_user_data() == before->GetRanges_0.spec_user_data()
        &&& after->GetRanges_0.spec_n_cqes_received() == before->GetRanges_0.spec_n_cqes_received()
        &&& after->GetRanges_0.spec_error_reported() == before->GetRanges_0.spec_error_reported()
    } else {
        after == before
    }
}

/// The `statx` fields of a successful `statx` (whose result is zero or more) reach every read
/// that the completion spawns: each reads a file whose size and alignment are those fields.
pub proof fn lemma_statx_fields_reach_the_reads(
    before: Operation,
    op: Operation,
    opcode: u8,
    cqe_result: i32,
    statx: Option<StatxFields>,
    next: NextStep,
    output: Option<Result<Output, OperationError>>,
    new_ops: Seq<Operation>,
)
    requires
        statx_stored(before, op, opcode, cqe_result, statx),
        step_spec(op, opcode, cqe_result, next, output, new_ops),
        opcode == STATX,
        cqe_result >= 0,
        statx is Some,
        before is GetRanges,
    ensures
        forall|i: int| 0 <= i < new_ops.len() ==> {
            &&& #[trigger] new_ops[i] is GetRange
            &&& new_ops[i]->GetRange_0.spec_file() is Some
            &&& new_ops[i]->GetRange_0.spec_file().unwrap().spec_size() == statx.unwrap().stx_size
            &&& new_ops[i]->GetRange_0.spec_file().unwrap().spec_alignment() == statx.unwrap().stx_dio_mem_align
        },
{
    assert forall|i: int| 0 <= i < new_ops.len() implies {
        &&& #[trigger] new_ops[i] is GetRange
        &&& new_ops[i]->GetRange_0.spec_file() is Some
        &&& new_ops[i]->GetRange_0.spec_file().unwrap().spec_size() == statx.unwrap().stx_size
        &&& new_ops[i]->GetRange_0.spec_file().unwrap().spec_alignment() == statx.unwrap().stx_dio_mem_align
    } by {
        assert(new_ops[i] is GetRange);
    }
}

/// The completion can be handled: its index holds an operation that takes it.
pub open spec fn completion_ok(ops: TrackerView<Operation>, user_data: u64, cqe_result: i32) -> bool {
    let index = spec_decode_index(user_data) as int;
    &&& ops.is_occupied(index)
    &&& ops.slots[index].unwrap().can_process(spec_decode_opcode(user_data), cqe_result)
}

/// Handles one completion: finds the operation that its `user_data` names, stores the `statx`
/// fields that the kernel wrote for a successful `statx`, hands it the completion and updates
/// its slot: a pending operation is kept, a finished one removed (its index freed), and one
/// that is replaced has its replacement's first step taken and stored in its place.
///
/// Returns `None`, changing nothing, when no operation at the index takes the completion.
/// The tracker's capacity must fit the `user_data` index.
pub fn handle_completion(ops: &mut Tracker<Operation>, user_data: u64, cqe_result: i32, statx: Option<StatxFields>) -> (r: Option<HandledCompletion>)
    requires
        old(ops)@.wf(),
        old(ops)@.slots.len() <= u32::MAX,
    ensures
        final(ops)@.wf(),
        r is None <==> !completion_ok(old(ops)@, user_data, cqe_result),
        r is None ==> final(ops)@ == old(ops)@,
        r matches Some(h) ==> {
            let index = spec_decode_index(user_data) as int;
            let opcode = spec_decode_opcode(user_data);
            &&& h.index_of_op == index
            &&& opcode == STATX && cqe_result >= 0 && statx is Some && old(ops)@.slots[index].unwrap() is GetRanges
                ==> forall|i: int| 0 <= i < h.new_ops@.len() ==> {
                    &&& #[trigger] h.new_ops@[i] is GetRange
                    &&& h.new_ops@[i]->GetRange_0.spec_file() is Some
                    &&& h.new_ops@[i]->GetRange_0.spec_file().unwrap().spec_size() == statx.unwrap().stx_size
                    &&& h.new_ops@[i]->GetRange_0.spec_file().unwrap().spec_alignment() == statx.unwrap().stx_dio_mem_align
                }
            &&& exists|op: Operation, after: Operation| {
                &&& statx_stored(old(ops)@.slots[index].unwrap(), op, opcode, cqe_result, statx)
                &&& step_spec(op, opcode, cqe_result, next_of(h.slot, final(ops)@, index), h.output, h.new_ops@)
                &&& state_after(op, after, opcode, cqe_result, next_of(h.slot, final(ops)@, index))
                &&& h.slot == SlotUpdate::Keep ==> final(ops)@.slots[index] == Some(after)
            }
            &&& h.slot == SlotUpdate::Keep ==> {
                &&& final(ops)@.free == old(ops)@.free
                &&& final(ops)@.len == old(ops)@.len
                &&& final(ops)@.slots.len() == old(ops)@.slots.len()
                &&& forall|j: int| 0 <= j < old(ops)@.slots.len() && j != index ==> final(ops)@.slots[j] == old(ops)@.slots[j]
                &&& h.first_step is None
            }
            &&& h.slot == SlotUpdate::Remove ==> final(ops)@ == old(ops)@.remove(index) && h.first_step is None
            &&& h.slot == SlotUpdate::Replace ==> {
                &&& final(ops)@.free == old(ops)@.free
                &&& final(ops)@.len == old(ops)@.len
                &&& final(ops)@.slots.len() == old(ops)@.slots.len()
                &&& forall|j: int| 0 <= j < old(ops)@.slots.len() && j != index ==> final(ops)@.slots[j] == old(ops)@.slots[j]
                &&& final(ops)@.slots[index] matches Some(Operation::Close(c))
                &&& h.first_step == Some(FirstStep::Close {
                    file_descriptor: final(ops)@.slots[index].unwrap()->Close_0.spec_file().spec_file_descriptor(),
                    user_data: spec_encode(index as u32, CLOSE),
                })
            }
        },
{
    let idx_and_opcode = UringUserData::from_u64(user_data);
    let index_of_op = idx_and_opcode.index_of_op() as usize;
    let opcode = idx_and_opcode.opcode().value();
    if index_of_op >= ops.capacity() {
        return None;
    }
    let guard = match ops.get(index_of_op) {
        Some(g) => g,
        None => return None,
    };
    let ghost before = ops@.slots[index_of_op as int].unwrap();
    if !guard.as_ref(ops).process_allowed(opcode, cqe_result) {
        return None;
    }
    if opcode == STATX && cqe_result >= 0 {
        match statx {
            Some(fields) => {
                let ghost v0 = ops@;
                let operation = guard.as_mut(ops);
                match operation {
                    Operation::GetRanges(g) => g.set_statx(fields),
                    _ => {},
                }
                proof {
                    lemma_update_occupied(v0, index_of_op as int, ops@.slots[index_of_op as int].unwrap());
                }
            },
            None => {},
        }
    }
    let ghost stored = ops@.slots[index_of_op as int].unwrap();
    let ghost v1 = ops@;
    let step = guard.as_mut(ops).process_opcode_and_get_next_step(&idx_and_opcode, cqe_result);
    let ghost after = ops@.slots[index_of_op as int].unwrap();
    proof {
        lemma_update_occupied(v1, index_of_op as int, ops@.slots[index_of_op as int].unwrap());
        assert(statx_stored(before, stored, opcode, cqe_result, statx));
    }
    let slot = slot_update(&step.next);
    let ghost next = step.next;
    let output = step.output;
    let new_ops = step.new_ops;
    assert(step_spec(stored, opcode, cqe_result, next, output, new_ops@));
    assert(state_after(stored, after, opcode, cqe_result, next));
    proof {
        if opcode == STATX && cqe_result >= 0 && statx is Some && before is GetRanges {
            lemma_statx_fields_reach_the_reads(before, stored, opcode, cqe_result, statx, next, output, new_ops@);
        }
    }
    match step.next {
        NextStep::Pending => {
            assert(next_of(slot, ops@, index_of_op as int) == next);
            Some(HandledCompletion { index_of_op, output, new_ops, slot, first_step: None })
        },
        NextStep::Done => {
            let _ = guard.remove(ops);
            assert(ops@.slots =~= old(ops)@.slots.update(index_of_op as int, None));
            assert(next_of(slot, ops@, index_of_op as int) == next);
            Some(HandledCompletion { index_of_op, output, new_ops, slot, first_step: None })
        },
        NextStep::ReplaceWith(mut replacement) => {
            let ghost r0 = replacement;
            let first_step = replacement.first_step(index_of_op);
            guard.replace(ops, replacement);
            assert(replacement == r0);
            assert(next_of(slot, ops@, index_of_op as int) == next);
            Some(HandledCompletion { index_of_op, output, new_ops, slot, first_step: Some(first_step) })
        },
    }
}

} // verus!
