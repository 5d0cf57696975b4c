use lsio::aligned_bytes::{AlignedBytesMut, SplitError};

const MIB: usize = 1 << 20;

#[test]
fn new_buffer_covers_the_request() {
    let bytes = AlignedBytesMut::new(1000, 512);
    assert_eq!(bytes.len(), 1000);
    // The backing buffer is padded to 1024 bytes, so the whole buffer can be viewed once frozen.
    let mut frozen = bytes.freeze().unwrap();
    assert_eq!(frozen.len(), 1000);
    frozen.reset_slice();
    assert_eq!(frozen.len(), 1024);
}

#[test]
fn readme_use_case_one_contiguous_ranges() {
    const LEN: usize = 8_192;
    const ALIGN: usize = 512;
    let bytes = AlignedBytesMut::new(LEN, ALIGN);
    let mut bytes = bytes.freeze().unwrap();
    bytes.reset_slice();
    assert_eq!(bytes.len(), LEN);

    let mut buffer_0 = bytes.clone();
    buffer_0.set_slice(0..4_096);
    let mut buffer_1 = bytes.clone();
    buffer_1.set_slice(4_096..8_192);
    assert_eq!(buffer_0.len(), 4_096);
    assert_eq!(buffer_1.len(), 4_096);
    // The first view is unchanged.
    assert_eq!(bytes.len(), LEN);
    drop(bytes);
    assert_eq!(buffer_0.len(), 4_096);
    assert_eq!(buffer_1.len(), 4_096);
}

#[test]
fn readme_use_case_two_split_into_four() {
    const LEN: usize = 8 * MIB;
    let mut bytes_3 = AlignedBytesMut::new(LEN, 512);
    let bytes_0 = bytes_3.split_to(2 * MIB).unwrap();
    assert_eq!(bytes_0.len(), 2 * MIB);
    assert_eq!(bytes_3.len(), 6 * MIB);

    let bytes_1 = bytes_3.split_to(4 * MIB).unwrap();
    let bytes_2 = bytes_3.split_to(6 * MIB).unwrap();
    assert_eq!(bytes_0.len(), 2 * MIB);
    assert_eq!(bytes_1.len(), 2 * MIB);
    assert_eq!(bytes_2.len(), 2 * MIB);
    assert_eq!(bytes_3.len(), 2 * MIB);

    // While other views exist, freezing is refused and the view comes back unchanged.
    let bytes_3 = bytes_3.freeze().unwrap_err();
    assert_eq!(bytes_3.len(), 2 * MIB);

    drop(bytes_0);
    drop(bytes_1);
    drop(bytes_2);
    let mut bytes = bytes_3.freeze().unwrap();
    assert_eq!(bytes.len(), 2 * MIB);
    bytes.reset_slice();
    assert_eq!(bytes.len(), LEN);
}

#[test]
fn split_to_errors() {
    let mut bytes = AlignedBytesMut::new(4096, 512);
    // Not in range.
    assert_eq!(
        bytes.split_to(4096).unwrap_err(),
        SplitError::IndexNotInRange { idx: 4096, start: 0, end: 4096 }
    );
    // Zero.
    assert_eq!(bytes.split_to(0).unwrap_err(), SplitError::IndexIsZero);
    // Not aligned.
    assert_eq!(
        bytes.split_to(100).unwrap_err(),
        SplitError::IndexNotAligned { idx: 100, alignment: 512 }
    );
    // The failed splits changed nothing.
    assert_eq!(bytes.len(), 4096);
    let lower = bytes.split_to(1024).unwrap();
    assert_eq!(lower.len(), 1024);
    assert_eq!(bytes.len(), 3072);
    // The lower bound of the remaining view is now 1024.
    assert_eq!(
        bytes.split_to(512).unwrap_err(),
        SplitError::IndexNotInRange { idx: 512, start: 1024, end: 4096 }
    );
}

#[test]
fn freeze_if_sole_view_follows_the_count() {
    let bytes = AlignedBytesMut::new(1024, 512);
    let bytes = bytes.freeze_if_sole_view(2).unwrap_err();
    assert_eq!(bytes.len(), 1024);
    let frozen = bytes.freeze_if_sole_view(1).unwrap();
    assert_eq!(frozen.len(), 1024);
}

#[test]
fn set_slice_returns_the_new_view() {
    let bytes = AlignedBytesMut::new(2048, 1024);
    let mut frozen = bytes.freeze().unwrap();
    assert_eq!(frozen.set_slice(10..20).len(), 10);
    assert_eq!(frozen.reset_slice().len(), 2048);
}
