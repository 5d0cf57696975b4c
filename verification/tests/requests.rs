use lsio::batch::{n_to_submit, take_task, TakeTask};
use lsio::byte_ranges::{IoOperation, UringOptimisedByteRanges};
use lsio::file_path::is_valid_file_path;

#[test]
fn file_names_with_numeric_hash_suffix_are_refused() {
    assert!(is_valid_file_path(Some("README.md")));
    assert!(is_valid_file_path(Some("a#b")));
    assert!(is_valid_file_path(Some("a#")));
    assert!(is_valid_file_path(Some("a#1b")));
    assert!(is_valid_file_path(Some("a#b#12")));
    assert!(!is_valid_file_path(Some("a#12")));
    assert!(!is_valid_file_path(Some("#0")));
    assert!(!is_valid_file_path(None));
}

#[test]
fn batch_decisions() {
    assert_eq!(n_to_submit(0, 2, 0), 2);
    assert_eq!(n_to_submit(0, 100, 0), 16);
    assert_eq!(n_to_submit(10, 100, 10), 6);
    assert_eq!(n_to_submit(100, 100, 3), 0);
    assert_eq!(take_task(0), TakeTask::Block);
    assert_eq!(take_task(5), TakeTask::Poll);
    assert_eq!(take_task(16), TakeTask::Full);
}

#[test]
fn optimise_keeps_each_range_with_its_metadata() {
    let op = IoOperation::GetRanges {
        filename: b"foo/bar".to_vec(),
        byte_ranges: vec![0..100, 500..-1],
        metadata: Some(vec![0u32, 1]),
    };
    let reads = UringOptimisedByteRanges::optimise(op, 0, 0);
    assert_eq!(reads.len(), 2);
    for (i, read) in reads.iter().enumerate() {
        match read {
            UringOptimisedByteRanges::Unchanged { filename, byte_range, buffer, metadata } => {
                assert_eq!(**filename, b"foo/bar".to_vec());
                assert_eq!(*byte_range, if i == 0 { 0..100 } else { 500..-1 });
                assert!(buffer.is_none());
                assert_eq!(*metadata, Some(i as u32));
            }
            _ => panic!("expected an unchanged range"),
        }
    }
    // Pairs stop at the shorter list.
    let op = IoOperation::GetRanges { filename: vec![], byte_ranges: vec![0..1, 1..2], metadata: Some(vec![7u8]) };
    assert_eq!(UringOptimisedByteRanges::optimise(op, 0, 0).len(), 1);
    let split = UringOptimisedByteRanges::<u8>::new_split_byte_range(
        UringOptimisedByteRanges::<u8>::convert_filename(b"f".to_vec()),
        vec![0..2, 2..4],
        0..4,
        None,
        Some(1),
    );
    assert!(matches!(split, UringOptimisedByteRanges::Split { next_to_submit: 0, n_completed: 0, .. }));
    let merged = UringOptimisedByteRanges::<u8>::new_merged_byte_range(
        UringOptimisedByteRanges::<u8>::convert_filename(b"f".to_vec()),
        0..10,
        None,
        vec![0..4, 6..10],
        Some(vec![1, 2]),
    );
    assert!(matches!(merged, UringOptimisedByteRanges::Merged { .. }));
}
