use lsio::aligned_buffer::AlignedBuffer;
use lsio::aligned_buffer_mut::{overlaps, AlignedBufferMut, InnerAlignedBuffer, SliceError};

#[test]
fn test_overlaps() {
    // Ranges which don't overlap
    for (a, b) in vec![((0..5), (5..10)), ((0..1), (100..200)), ((1..1), (0..5))] {
        assert!(!overlaps(&a, &b));
        assert!(!overlaps(&b, &a));
    }

    // Ranges which do overlap
    for (a, b) in vec![((0..5), (4..5)), ((0..5), (0..5))] {
        assert!(overlaps(&a, &b), "overlaps({a:?}, {b:?})");
        assert!(overlaps(&b, &a), "overlaps({b:?}, {a:?})");
    }
}

#[test]
fn overlaps_is_symmetric_for_a_range_inside_another() {
    assert!(overlaps(&(0..10), &(2..3)));
    assert!(overlaps(&(2..3), &(0..10)));
    assert!(overlaps(&(2..5), &(0..10)));
    assert!(!overlaps(&(0..10), &(10..12)));
    assert!(!overlaps(&(3..3), &(0..10)));
}

#[test]
fn claim_and_remove_slices() {
    let mut inner = InnerAlignedBuffer::new(100, 64);
    assert_eq!(inner.size(), 128);
    assert_eq!(inner.alignment(), 64);
    assert_eq!(inner.claim_new_exclusive_slice(&(0..10)), Ok(()));
    assert_eq!(inner.claim_new_exclusive_slice(&(10..20)), Ok(()));
    match inner.claim_new_exclusive_slice(&(5..15)) {
        Err(SliceError::Overlaps { requested_start, requested_end, existing_start, existing_end }) => {
            assert_eq!((requested_start, requested_end), (5, 15));
            assert!((existing_start, existing_end) == (0, 10) || (existing_start, existing_end) == (10, 20));
        }
        other => panic!("unexpected {other:?}"),
    }
    // The same non-empty slice cannot be claimed twice.
    assert!(inner.claim_new_exclusive_slice(&(0..10)).is_err());
    assert_eq!(inner.remove_exclusive_slice(&(0..10)), Ok(()));
    assert_eq!(
        inner.remove_exclusive_slice(&(0..10)),
        Err(SliceError::NotClaimed { start: 0, end: 10 })
    );
    // Once released, the space can be claimed again.
    assert_eq!(inner.claim_new_exclusive_slice(&(5..10)), Ok(()));
    // Empty slices overlap nothing.
    assert_eq!(inner.claim_new_exclusive_slice(&(7..7)), Ok(()));
    assert_eq!(inner.claim_new_exclusive_slice(&(7..7)), Ok(()));
    assert_eq!(inner.remove_exclusive_slice(&(7..7)), Ok(()));
    assert!(inner.remove_exclusive_slice(&(7..7)).is_err());
}

#[test]
fn a_slice_around_a_claimed_slice_is_refused() {
    let mut inner = InnerAlignedBuffer::new(16, 8);
    assert_eq!(inner.claim_new_exclusive_slice(&(2..5)), Ok(()));
    assert_eq!(
        inner.claim_new_exclusive_slice(&(0..10)),
        Err(SliceError::Overlaps { requested_start: 0, requested_end: 10, existing_start: 2, existing_end: 5 })
    );
}

#[test]
fn aligned_buffer_mut_moves_the_start_back_to_a_block() {
    // Length 3 at offset 2 with alignment 4 needs 8 bytes.
    let buf = AlignedBufferMut::new(2..5, 4);
    assert_eq!(buf.len(), 3);
    assert_eq!(buf.capacity(), 8);
    let buf = AlignedBufferMut::new(0..16, 8);
    assert_eq!(buf.len(), 16);
    assert_eq!(buf.capacity(), 16);
}

#[test]
fn aligned_buffer_offsets() {
    let buf = AlignedBuffer::new(3, 4, 2);
    assert_eq!(buf.aligned_len(), 8);
    assert_eq!(buf.aligned_start_offset(), 0);
    let buf = AlignedBuffer::new(100, 512, 1000);
    // 100 bytes starting 488 bytes into a block need two blocks.
    assert_eq!(buf.aligned_len(), 1024);
    assert_eq!(buf.aligned_start_offset(), 512);
    let buf = AlignedBuffer::new(16, 8, 0);
    assert_eq!(buf.aligned_len(), 16);
    assert_eq!(buf.aligned_start_offset(), 0);
}
