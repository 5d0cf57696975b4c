use lsio::bench::{chunk_ranges, file_contents};
use lsio::chain_ops::{ChainNextStep, SqePlan};
use lsio::chain_worker::{self, FileSlots, Receive, StepAction};
use lsio::park_manager::{should_request_wake, threads_to_unpark, Handled, ParkManager, ParkManagerCommand};
use lsio::open_file::StatxFields;
use lsio::operation::{FirstStep, GetRanges, Operation};
use lsio::tracker::Tracker;
use lsio::worker::{
    after_finding_no_task, after_submitting_task, at_loop_start, handle_completion, uring_is_full, AfterTask,
    LoopStart, SlotUpdate,
};

#[test]
fn worker_loop_decisions() {
    assert_eq!(at_loop_start(false, 0, 0, true), LoopStart::Stop);
    assert_eq!(at_loop_start(true, 40, 22, true), LoopStart::WaitThenDrain);
    assert_eq!(at_loop_start(true, 40, 22, false), LoopStart::Drain);
    assert_eq!(at_loop_start(true, 40, 21, true), LoopStart::FindTask);
    assert!(uring_is_full(62, 0));
    assert!(!uring_is_full(61, 0));
    assert_eq!(after_submitting_task(31, 0), AfterTask::Restart);
    assert_eq!(after_submitting_task(16, 16), AfterTask::Drain);
    assert_eq!(after_finding_no_task(true), AfterTask::ParkThenRestart);
    assert_eq!(after_finding_no_task(false), AfterTask::Drain);
}

#[test]
fn chain_worker_decisions() {
    assert_eq!(chain_worker::user_task_receive(0, 0, 0, true), Some(Receive::Block));
    assert_eq!(chain_worker::user_task_receive(0, 0, 0, false), Some(Receive::Poll));
    assert_eq!(chain_worker::user_task_receive(0, 0, 16, true), None);
    assert_eq!(chain_worker::user_task_receive(20, 10, 0, true), None);
    assert!(chain_worker::submit_should_wait(true, false));
    assert!(!chain_worker::submit_should_wait(true, true));
    assert!(!chain_worker::submit_should_wait(false, false));

    let mut slots = FileSlots::new();
    let first = ChainNextStep::SubmitEntries { entries: vec![SqePlan::OpenAt { user_data: 18 }], register_file: true };
    assert_eq!(slots.first_step(&first), StepAction::Submit);
    assert_eq!(slots.n_files_registered(), 1);
    assert_eq!(slots.later_step(&ChainNextStep::Pending), StepAction::Wait);
    assert_eq!(slots.later_step(&ChainNextStep::Done { unregister_file: true }), StepAction::Remove);
    assert_eq!(slots.n_files_registered(), 0);
}

#[test]
fn park_manager_wakes_oldest_first() {
    let mut pm = ParkManager::new(4);
    assert!(!pm.at_least_one_thread_is_parked());
    assert_eq!(pm.handle(ParkManagerCommand::ThreadIsParked(1)), Handled::Continue(vec![]));
    assert_eq!(pm.handle(ParkManagerCommand::ThreadIsParked(2)), Handled::Continue(vec![]));
    pm.thread_is_parked(3);
    assert!(pm.at_least_one_thread_is_parked());
    assert_eq!(pm.handle(ParkManagerCommand::WakeAtMostNThreads(2)), Handled::Continue(vec![1, 2]));
    assert!(pm.at_least_one_thread_is_parked());
    assert_eq!(pm.wake_at_most_n_threads(5), vec![3]);
    assert!(!pm.at_least_one_thread_is_parked());
    assert_eq!(pm.wake_at_most_n_threads(1), Vec::<u64>::new());
    assert_eq!(pm.handle(ParkManagerCommand::Stop), Handled::Stop);
    assert_eq!(threads_to_unpark(1), None);
    assert_eq!(threads_to_unpark(3), Some(3));
    assert!(should_request_wake(true));
    assert!(!should_request_wake(false));
}

#[test]
fn bench_chunks_and_contents() {
    let (chunks, user_data) = chunk_ranges(1024 * 1024, Some(4096));
    assert_eq!(chunks.len(), 256);
    assert_eq!(chunks[0], 0..4096);
    assert_eq!(chunks[255], 1_044_480..1_048_576);
    assert_eq!(user_data, (0..256u64).collect::<Vec<_>>());
    // Without a block size, the whole file is one chunk.
    let (chunks, user_data) = chunk_ranges(1000, None);
    assert_eq!(chunks, vec![0..1000]);
    assert_eq!(user_data, vec![0]);
    // A trailing partial chunk is not read.
    let (chunks, _) = chunk_ranges(10, Some(3));
    assert_eq!(chunks, vec![0..3, 3..6, 6..9]);
    let contents = file_contents(300);
    assert_eq!(contents.len(), 300);
    assert_eq!(contents[255], 255);
    assert_eq!(contents[256], 0);
    assert_eq!(contents[299], 43);
}

#[test]
fn handle_completion_drives_an_operation_through_its_slot() {
    let mut ops: Tracker<Operation> = Tracker::new(4);
    let index = ops.get_next_index().unwrap();
    assert_eq!(index, 0);
    ops.put(index, Operation::GetRanges(GetRanges::new(b"/f".to_vec(), vec![0..100], vec![42])));
    // No operation at index 3: the completion is not recognised.
    assert!(handle_completion(&mut ops, (3u64 << 32) | 18, 5, None).is_none());
    // A close completion is not one a GetRanges takes.
    assert!(handle_completion(&mut ops, 19, 0, None).is_none());

    let h = handle_completion(&mut ops, 18, 5, None).unwrap();
    assert_eq!(h.index_of_op, 0);
    assert_eq!(h.slot, SlotUpdate::Keep);
    assert!(h.output.is_none() && h.new_ops.is_empty() && h.first_step.is_none());

    let statx = StatxFields { stx_size: 1000, stx_dio_mem_align: 512 };
    let h = handle_completion(&mut ops, 21, 0, Some(statx)).unwrap();
    assert_eq!(h.slot, SlotUpdate::Remove);
    assert_eq!(h.new_ops.len(), 1);
    assert!(ops.is_empty());

    // The spawned read learnt the file's size from the statx fields.
    let mut read = h.new_ops.into_iter().next().unwrap();
    let index = ops.get_next_index().unwrap();
    assert_eq!(index, 1);
    match read.first_step(index) {
        FirstStep::Read(plan) => {
            assert_eq!(plan.offset, 0);
            assert_eq!(plan.len, 512);
        }
        other => panic!("unexpected {other:?}"),
    }
    ops.put(index, read);
    // The last read of the file is replaced by the close of the file.
    let h = handle_completion(&mut ops, (1u64 << 32) | 22, 512, None).unwrap();
    assert_eq!(h.slot, SlotUpdate::Replace);
    assert!(matches!(h.output, Some(Ok(_))));
    match h.first_step {
        Some(FirstStep::Close { file_descriptor, user_data }) => {
            assert_eq!(file_descriptor, 5);
            assert_eq!(user_data, (1u64 << 32) | 19);
        }
        other => panic!("unexpected {other:?}"),
    }
    let h = handle_completion(&mut ops, (1u64 << 32) | 19, 0, None).unwrap();
    assert_eq!(h.slot, SlotUpdate::Remove);
    assert!(ops.is_empty());
}
