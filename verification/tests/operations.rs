use lsio::chain_ops::{self, ChainNextStep, InnerState, SqePlan};
use lsio::cqe::cqe_error_to_error;
use lsio::io::Output;
use lsio::opcode::{OpCode, CLOSE, OPENAT, READ, STATX};
use lsio::open_file::{OpenFileBuilder, StatxFields};
use lsio::operation::{step_after_last_read, Close, FirstStep, GetRange, GetRanges, NextStep, Operation};
use lsio::read_range::build_read_range;
use lsio::user_data::UringUserData;
use std::sync::Arc;

fn open_file(size: u64) -> lsio::open_file::OpenFile {
    let mut b = OpenFileBuilder::new(b"/tmp/file".to_vec());
    b.set_file_descriptor(7);
    b.set_statx(StatxFields { stx_size: size, stx_dio_mem_align: 512 });
    b.assume_statx_is_initialised();
    assert!(b.is_ready());
    b.build()
}

fn ud(index: u32, code: u8) -> UringUserData {
    UringUserData::new(index, OpCode::new(code))
}

#[test]
fn read_range_resolves_offsets() {
    let file = open_file(10_000);
    let plan = build_read_range(5, &file, &(512..1024));
    assert_eq!(plan.offset, 512);
    assert_eq!(plan.len, 512);
    assert_eq!(plan.user_data, (5u64 << 32) | 22);
    assert_eq!(plan.buffer.len(), 512);

    // A negative end of -1 reads to the last byte.
    // The read asks for whole blocks: 10_000 bytes padded to 10_240.
    let plan = build_read_range(0, &file, &(0..-1));
    assert_eq!(plan.offset, 0);
    assert_eq!(plan.len, 10_240);
    assert_eq!(plan.buffer.len(), 10_000);
    assert_eq!(plan.buffer.start(), 0);

    // A negative start counts back from the file size: 10_000 - 1_808 = 8_192.
    let plan = build_read_range(1, &file, &(-1_808..-1));
    assert_eq!(plan.offset, 8_192);
    assert_eq!(plan.len, 2_048);
    assert_eq!(plan.buffer.len(), 1_808);
}

#[test]
fn read_range_with_an_unaligned_start_reads_from_the_block_before() {
    // The last 100 bytes of a 1000-byte file start at 900, inside the block at 512.
    let file = open_file(1_000);
    let plan = build_read_range(2, &file, &(-100..-1));
    assert_eq!(plan.offset, 512);
    assert_eq!(plan.len, 512);
    assert_eq!(plan.buffer.start(), 388);
    assert_eq!(plan.buffer.len(), 100);
    // 0..100 asks for one whole block.
    let plan = build_read_range(2, &file, &(0..100));
    assert_eq!(plan.len, 512);
    assert_eq!(plan.buffer.len(), 100);
}

#[test]
fn cqe_results() {
    assert_eq!(cqe_error_to_error(4096, String::from("read")), Ok(4096));
    assert_eq!(cqe_error_to_error(0, String::new()), Ok(0));
    let err = cqe_error_to_error(-2, String::from("openat of /tmp/missing")).unwrap_err();
    assert_eq!(err.errno, 2);
    assert_eq!(err.description, "ENOENT: No such file or directory");
    assert_eq!(err.context, "openat of /tmp/missing");
    let err = cqe_error_to_error(-9, String::new()).unwrap_err();
    assert_eq!(err.errno, 9);
    assert!(err.description.starts_with("EBADF"));
}

#[test]
fn get_ranges_spawns_one_read_per_range() {
    let mut op = GetRanges::new(b"/tmp/file".to_vec(), vec![0..512, 512..1024], vec![10, 11]);
    assert_eq!(op.first_step(3), ((3u64 << 32) | 18, (3u64 << 32) | 21));
    let (next, spawned, error) = op.process_opcode_and_submit_next_step(&ud(3, OPENAT), 5);
    assert!(matches!(next, NextStep::Pending));
    assert!(spawned.is_empty());
    assert!(error.is_none());
    op.set_statx(StatxFields { stx_size: 2048, stx_dio_mem_align: 512 });
    let (next, spawned, error) = op.process_opcode_and_submit_next_step(&ud(3, STATX), 0);
    assert!(matches!(next, NextStep::Done));
    assert!(error.is_none());
    assert_eq!(spawned.len(), 2);
    assert_eq!(spawned[1].file_descriptor(), Some(5));
}

#[test]
fn get_ranges_with_failed_open_spawns_nothing() {
    let mut op = GetRanges::new(b"/missing".to_vec(), vec![0..512], vec![1]);
    let (next, spawned, error) = op.process_opcode_and_submit_next_step(&ud(0, OPENAT), -2);
    assert!(matches!(next, NextStep::Pending));
    assert!(spawned.is_empty());
    // The missing file is reported once, naming the file.
    let error = error.expect("an error for the failed openat");
    assert_eq!(error.errno, 2);
    assert_eq!(error.location, b"/missing".to_vec());
    assert!(error.range.is_none());
    let (next, spawned, error) = op.process_opcode_and_submit_next_step(&ud(0, STATX), -2);
    assert!(matches!(next, NextStep::Done));
    assert!(spawned.is_empty());
    assert!(error.is_none());
}

#[test]
fn get_range_emits_a_chunk_and_the_last_one_closes_the_file() {
    let file = Arc::new(open_file(4096));
    let mut a = GetRange::new(file.clone(), 0..512, 100);
    let mut b = GetRange::new(file, 512..1024, 101);
    let plan = a.first_step(1);
    assert_eq!(plan.user_data, (1u64 << 32) | 22);
    b.first_step(2);

    let (next, output) = a.process_opcode_and_submit_next_step(&ud(1, READ), 512);
    // `b` still holds the file.
    assert!(matches!(next, NextStep::Done));
    match output {
        Ok(Output::Chunk(c)) => {
            assert_eq!(c.user_data, 100);
            assert_eq!(c.buffer.len(), 512);
        }
        Err(e) => panic!("expected a chunk, got {e:?}"),
    }

    // The worker drops a finished operation, and with it its hold on the file.
    drop(a);
    // A failed read emits an error naming the file, the range and its user_data; it was the
    // last user of the file, so the file is closed.
    let (next, output) = b.process_opcode_and_submit_next_step(&ud(2, READ), -5);
    let error = output.expect_err("a failed read reports an error");
    assert_eq!(error.errno, 5);
    assert_eq!(error.location, b"/tmp/file".to_vec());
    assert_eq!(error.range, Some(512..1024));
    assert_eq!(error.user_data, Some(101));
    match next {
        NextStep::ReplaceWith(Operation::Close(close)) => {
            assert_eq!(close.first_step(2), (7, (2u64 << 32) | 19));
            assert!(matches!(close.process_opcode_and_submit_next_step(&ud(2, CLOSE)), NextStep::Done));
        }
        other => panic!("expected a close, got {other:?}"),
    }
}

#[test]
fn operation_dispatch() {
    let mut op = Operation::GetRanges(GetRanges::new(b"/f".to_vec(), vec![0..512], vec![9]));
    match op.first_step(4) {
        FirstStep::OpenAndStatx { openat_user_data, statx_user_data } => {
            assert_eq!(openat_user_data, (4u64 << 32) | 18);
            assert_eq!(statx_user_data, (4u64 << 32) | 21);
        }
        other => panic!("unexpected {other:?}"),
    }
    let r = op.process_opcode_and_get_next_step(&ud(4, STATX), 0);
    assert!(matches!(r.next, NextStep::Pending));
    assert!(r.output.is_none());
    let r = op.process_opcode_and_get_next_step(&ud(4, OPENAT), 3);
    assert!(matches!(r.next, NextStep::Done));
    assert_eq!(r.new_ops.len(), 1);
    let mut get_range = r.new_ops.into_iter().next().unwrap();
    match get_range.first_step(5) {
        FirstStep::Read(plan) => assert_eq!(plan.len, 512),
        other => panic!("unexpected {other:?}"),
    }
    let r = get_range.process_opcode_and_get_next_step(&ud(5, READ), 512);
    assert!(matches!(r.output, Some(Ok(_))));
    let mut close = match r.next {
        NextStep::ReplaceWith(op) => op,
        other => panic!("unexpected {other:?}"),
    };
    match close.first_step(5) {
        FirstStep::Close { file_descriptor, user_data } => {
            assert_eq!(file_descriptor, 3);
            assert_eq!(user_data, (5u64 << 32) | 19);
        }
        other => panic!("unexpected {other:?}"),
    }
    let r = close.process_opcode_and_get_next_step(&ud(5, CLOSE), 0);
    assert!(matches!(r.next, NextStep::Done));
    let _ = Close::new(open_file(1));
}

#[test]
fn chained_get_range_steps() {
    let mut op = chain_ops::GetRange::new(b"/f".to_vec(), 10..100);
    let (step, out) = op.next_step(7);
    assert!(out.is_none());
    match step {
        ChainNextStep::SubmitEntries { entries, register_file } => {
            assert!(register_file);
            assert_eq!(entries, vec![SqePlan::OpenAt { user_data: (7u64 << 32) | 18 }]);
        }
        _ => panic!("expected the openat entry"),
    }
    assert_eq!(op.inner.process_cqe((7u64 << 32) | 18, 3), None);
    let (step, _) = op.next_step(7);
    match step {
        ChainNextStep::SubmitEntries { entries, register_file } => {
            assert!(!register_file);
            assert_eq!(
                entries,
                vec![
                    SqePlan::Read { fixed_fd: 3, len: 512, offset: 10, user_data: (7u64 << 32) | 22 },
                    SqePlan::Close { fixed_fd: 3, user_data: (7u64 << 32) | 19 },
                ]
            );
        }
        _ => panic!("expected the read and close entries"),
    }
    op.inner.process_cqe((7u64 << 32) | 22, 512);
    let (step, out) = op.next_step(7);
    assert!(matches!(step, ChainNextStep::Pending));
    assert_eq!(out.unwrap().aligned_len(), 512);
    op.inner.process_cqe((7u64 << 32) | 19, 0);
    let (step, _) = op.next_step(7);
    assert!(matches!(step, ChainNextStep::Done { unregister_file: true }));
}

#[test]
fn chained_get_with_failed_open() {
    let mut op = chain_ops::Get::new(b"/missing".to_vec());
    let _ = op.next_step(0, 0);
    let report = op.inner.process_cqe(18, -2);
    assert_eq!(report, Some(chain_ops::ErrorReport::Send { errno: 2, opcode: 18 }));
    let (step, out) = op.next_step(0, 0);
    assert!(out.is_none());
    assert!(matches!(step, ChainNextStep::Done { unregister_file: true }));
    // A second error is only logged.
    assert_eq!(op.inner.process_cqe(19, -9), Some(chain_ops::ErrorReport::AlreadySent { errno: 9, opcode: 19 }));
    let mut state = InnerState::new();
    assert_eq!(state.process_cqe(0, 1), None);
    assert!(!state.error_has_occurred);
}

#[test]
fn chained_get_reads_the_whole_file() {
    let mut op = chain_ops::Get::new(b"/f".to_vec());
    let _ = op.next_step(1, 0);
    op.inner.process_cqe((1u64 << 32) | 18, 4);
    let (step, _) = op.next_step(1, 1000);
    match step {
        ChainNextStep::SubmitEntries { entries, .. } => {
            assert_eq!(entries[0], SqePlan::Read { fixed_fd: 4, len: 1024, offset: 0, user_data: (1u64 << 32) | 22 });
        }
        _ => panic!("expected the read and close entries"),
    }
}

#[test]
fn chained_run_with_a_failed_read_sends_one_message() {
    // openat succeeds, the read fails, and the linked close is cancelled: one error is sent,
    // no buffer is handed out, one file is registered and its slot released once.
    let mut op = chain_ops::GetRange::new(b"/f".to_vec(), 0..100);
    let mut registers = 0;
    let mut releases = 0;
    let mut messages = 0;
    let mut count = |step: &ChainNextStep, out: &Option<lsio::aligned_buffer::AlignedBuffer>, r: &mut i32, u: &mut i32, m: &mut i32| {
        if let ChainNextStep::SubmitEntries { register_file: true, .. } = step {
            *r += 1;
        }
        if let ChainNextStep::Done { unregister_file: true } = step {
            *u += 1;
        }
        if out.is_some() {
            *m += 1;
        }
    };
    let (step, out) = op.next_step(1);
    count(&step, &out, &mut registers, &mut releases, &mut messages);
    for (code, result) in [(18u64, 3), (22, -5), (19, -125)] {
        if let Some(chain_ops::ErrorReport::Send { .. }) = op.inner.process_cqe((1u64 << 32) | code, result) {
            messages += 1;
        }
        let (step, out) = op.next_step(1);
        count(&step, &out, &mut registers, &mut releases, &mut messages);
    }
    assert_eq!((registers, releases, messages), (1, 1, 1));
}

#[test]
fn the_last_read_of_a_file_closes_it() {
    let (next, kept) = step_after_last_read(Ok(open_file(100)));
    assert!(kept.is_none());
    match next {
        NextStep::ReplaceWith(Operation::Close(close)) => assert_eq!(close.first_step(3), (7, (3u64 << 32) | 19)),
        other => panic!("expected a close, got {other:?}"),
    }
    let shared = Arc::new(open_file(100));
    let (next, kept) = step_after_last_read(Err(shared.clone()));
    assert!(matches!(next, NextStep::Done));
    assert!(Arc::ptr_eq(&kept.unwrap(), &shared));
}

#[test]
fn a_negative_cqe_result_is_always_an_error() {
    for result in [-1, -2, -125, i32::MIN + 1] {
        assert!(cqe_error_to_error(result, String::from("ctx")).is_err());
    }
}

#[test]
fn chained_run_with_a_successful_read_sends_one_message() {
    let mut op = chain_ops::GetRange::new(b"/f".to_vec(), 0..100);
    let (mut registers, mut releases, mut messages) = (0, 0, 0);
    let (step, out) = op.next_step(2);
    if let ChainNextStep::SubmitEntries { register_file: true, .. } = step {
        registers += 1;
    }
    assert!(out.is_none());
    for (code, result) in [(18u64, 4), (22, 512), (19, 0)] {
        if let Some(chain_ops::ErrorReport::Send { .. }) = op.inner.process_cqe((2u64 << 32) | code, result) {
            messages += 1;
        }
        let (step, out) = op.next_step(2);
        if let ChainNextStep::SubmitEntries { register_file: true, .. } = step {
            registers += 1;
        }
        if let ChainNextStep::Done { unregister_file: true } = step {
            releases += 1;
        }
        if let Some(buffer) = out {
            assert_eq!(buffer.len(), 100);
            assert_eq!(buffer.aligned_len(), 512);
            messages += 1;
        }
    }
    assert_eq!((registers, releases, messages), (1, 1, 1));
}
