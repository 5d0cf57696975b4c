//! Planning a read of a byte range of an open file: where the read starts, how many bytes it
//! asks for, the buffer that receives them, and the `user_data` that identifies it.
//!
//! Negative offsets count from the end of the file: a negative start is an offset from the
//! file size, and a negative end of `-1` means the last byte.

use crate::aligned_bytes::{lemma_padded_len, padded_len, AlignedBytes, AlignedBytesMut, BufferView};
use crate::opcode::{read_code, OpCode, READ};
use crate::open_file::OpenFile;
use crate::user_data::{spec_encode, UringUserData};
use std::ops::Range;
use vstd::arithmetic::power2::is_pow2;
use vstd::prelude::*;

verus! {

/// The alignment of read buffers and read offsets, in bytes.
pub const ALIGN: usize = 512;

/// The file offset that a range start denotes: a negative start counts back from `filesize`.
pub open spec fn resolve_start(start: int, filesize: int) -> int {
    if start >= 0 {
        start
    } else {
        filesize + start
    }
}

/// The file offset just past the range: a negative end counts back from `filesize`, with `-1`
/// meaning the last byte.
pub open spec fn resolve_end(end: int, filesize: int) -> int {
    if end >= 0 {
        end
    } else {
        filesize + end + 1
    }
}

/// `offset` rounded down to a multiple of the alignment: where a direct read of it starts.
pub open spec fn aligned_down(offset: int) -> int {
    (offset / (ALIGN as int)) * (ALIGN as int)
}

/// The inputs on which a read of `range` can be planned: the file size fits an `isize`, the
/// index fits the `user_data` word, both ends resolve to non-negative offsets, the range is
/// non-empty, and the buffer from the aligned-down start to the end, padded to the alignment,
/// fits both an `isize` and the `u32` length of a read.
pub open spec fn read_range_ok(index_of_op: usize, filesize: u64, range: Range<isize>) -> bool {
    let s = resolve_start(range.start as int, filesize as int);
    let e = resolve_end(range.end as int, filesize as int);
    &&& filesize <= isize::MAX
    &&& index_of_op < u32::MAX
    &&& s >= 0
    &&& e >= 0
    &&& e - s > 0
    &&& padded_len(e - aligned_down(s), ALIGN as int) <= u32::MAX
    &&& padded_len(e - aligned_down(s), ALIGN as int) <= isize::MAX
}

/// `offset` rounded down to a multiple of 512 lies at most 511 bytes before it.
proof fn lemma_aligned_down(offset: int)
    requires
        offset >= 0,
    ensures
        0 <= aligned_down(offset) <= offset < aligned_down(offset) + ALIGN as int,
        aligned_down(offset) % (ALIGN as int) == 0,
{
    let q = offset / 512;
    let r = offset % 512;
    assert(offset == q * 512 + r && 0 <= r < 512) by (nonlinear_arith)
        requires
            q == offset / 512,
            r == offset % 512,
    ;
    assert(0 <= q * 512) by (nonlinear_arith)
        requires
            q >= 0,
    ;
    assert((q * 512) % 512 == 0) by (nonlinear_arith);
}

/// Returns whether a read of `range` can be planned for the operation at `index_of_op` on a
/// file of `filesize` bytes.
pub fn can_build_read_range(index_of_op: usize, filesize: u64, range: &Range<isize>) -> (r: bool)
    ensures
        r == read_range_ok(index_of_op, filesize, *range),
{
    if filesize > isize::MAX as u64 || index_of_op >= u32::MAX as usize {
        return false;
    }
    let fs = filesize as i128;
    let s: i128 = if range.start >= 0 { range.start as i128 } else { fs + range.start as i128 };
    let e: i128 = if range.end >= 0 { range.end as i128 } else { fs + range.end as i128 + 1 };
    if s < 0 || e < 0 || e - s <= 0 {
        return false;
    }
    proof {
        lemma_aligned_down(s as int);
    }
    let a: i128 = (s / 512) * 512;
    let len: i128 = e - a;
    if len > u32::MAX as i128 {
        return false;
    }
    proof {
        lemma_padded_len(len as int, ALIGN as int);
        assert(padded_len(len as int, ALIGN as int) == ((len + 511) as int / 512) * 512);
    }
    let padded: i128 = ((len + 511) / 512) * 512;
    padded <= u32::MAX as i128 && padded <= isize::MAX as i128
}

/// A planned read: the kernel reads `len` bytes at file offset `offset` into `buffer`, and
/// the completion carries `user_data`.
#[derive(Debug)]
pub struct ReadRange {
    pub user_data: u64,
    pub offset: u64,
    pub len: u32,
    pub buffer: AlignedBytes,
}

/// 512 is a power of two.
pub proof fn lemma_align_is_pow2()
    ensures
        is_pow2(ALIGN as int),
{
    reveal_with_fuel(is_pow2, 11);
}

/// Plans the read of `range` from `file` for the operation at `index_of_op`.
///
/// A direct read starts at an aligned offset and transfers whole blocks, so the read starts at
/// the range's start rounded down to the alignment and asks for the whole padded buffer that
/// reaches the range's end. The buffer is frozen with its range set to the bytes requested:
/// the bytes before the range's start, and the padding after its end, are left out of view.
pub fn build_read_range(index_of_op: usize, file: &OpenFile, range: &Range<isize>) -> (r: ReadRange)
    requires
        read_range_ok(index_of_op, file.spec_size(), *range),
    ensures
        ({
            let s = resolve_start(range.start as int, file.spec_size() as int);
            let e = resolve_end(range.end as int, file.spec_size() as int);
            let a = aligned_down(s);
            &&& r.offset == a
            &&& r.len == padded_len(e - a, ALIGN as int)
            &&& r.user_data == spec_encode(index_of_op as u32, READ)
            &&& r.buffer@ == (BufferView {
                start: s - a,
                end: e - a,
                buffer_len: padded_len(e - a, ALIGN as int),
                alignment: ALIGN as int,
            })
        }),
        plan_reads_the_request(r.offset as int, r.len as int, r.buffer@, file.spec_size() as int, *range),
{
    proof {
        lemma_plan_reads_the_request(file.spec_size() as int, *range);
    }
    let filesize: isize = file.size() as isize;
    let start_offset: isize = if range.start >= 0 {
        range.start
    } else {
        filesize + range.start
    };
    let end_offset: isize = if range.end >= 0 {
        range.end
    } else {
        filesize + range.end + 1
    };
    proof {
        lemma_aligned_down(start_offset as int);
    }
    let aligned_start_offset: isize = (start_offset / 512) * 512;
    let buf_len: isize = end_offset - aligned_start_offset;
    proof {
        lemma_align_is_pow2();
        assert(buf_len > 0);
        lemma_padded_len(buf_len as int, ALIGN as int);
    }
    let buffer = AlignedBytesMut::new(buf_len as usize, ALIGN);
    let user_data = UringUserData::new(index_of_op as u32, OpCode::new(read_code())).into_u64();
    let mut frozen = buffer.into_frozen();
    // The whole padded buffer is read; the view keeps only the bytes requested.
    frozen.reset_slice();
    let len: u32 = frozen.len() as u32;
    let start_slice: usize = (start_offset - aligned_start_offset) as usize;
    let end_slice: usize = buf_len as usize;
    frozen.set_slice(start_slice..end_slice);
    ReadRange { user_data, offset: aligned_start_offset as u64, len, buffer: frozen }
}

/// A planned read of `range` from a file of `filesize` bytes, starting at file offset `offset`,
/// asking for `len` bytes into a buffer seen through `view`, reads what was asked: the read
/// starts at a multiple of 512 less than one block before the requested start; the view's
/// first byte is the requested start (`range.start`, or `filesize + range.start` for a
/// negative start) and its end is the requested end (`range.end`, or `filesize + range.end + 1`
/// for a negative end); and the read asks for whole blocks, covering the view with less than
/// one block to spare.
pub open spec fn plan_reads_the_request(offset: int, len: int, view: BufferView, filesize: int, range: Range<isize>) -> bool {
    &&& offset % 512 == 0
    &&& 0 <= view.start < 512
    &&& range.start >= 0 ==> offset + view.start == range.start
    &&& range.start < 0 ==> offset + view.start == filesize + range.start
    &&& range.end >= 0 ==> offset + view.end == range.end
    &&& range.end < 0 ==> offset + view.end == filesize + range.end + 1
    &&& view.start < view.end
    &&& len % 512 == 0
    &&& view.end <= len < view.end + 512
    &&& view.buffer_len == len
    &&& view.alignment == 512
}

/// The plan that [`build_read_range`] states reads exactly the requested bytes: see
/// [`plan_reads_the_request`].
pub proof fn lemma_plan_reads_the_request(filesize: int, range: Range<isize>)
    requires
        ({
            let s = resolve_start(range.start as int, filesize);
            let e = resolve_end(range.end as int, filesize);
            s >= 0 && e - s > 0
        }),
    ensures
        ({
            let s = resolve_start(range.start as int, filesize);
            let e = resolve_end(range.end as int, filesize);
            let a = aligned_down(s);
            plan_reads_the_request(
                a,
                padded_len(e - a, ALIGN as int),
                BufferView {
                    start: s - a,
                    end: e - a,
                    buffer_len: padded_len(e - a, ALIGN as int),
                    alignment: ALIGN as int,
                },
                filesize,
                range,
            )
        }),
{
    let s = resolve_start(range.start as int, filesize);
    let e = resolve_end(range.end as int, filesize);
    lemma_aligned_down(s);
    lemma_padded_len(e - aligned_down(s), ALIGN as int);
}

/// Negative offsets count from the end of the file: `0..-1` is the whole file, and `-n..-1` is
/// its last `n` bytes.
pub proof fn lemma_negative_offsets(filesize: int, n: int)
    requires
        0 < n <= filesize,
    ensures
        resolve_start(0, filesize) == 0,
        resolve_end(-1, filesize) == filesize,
        resolve_start(-n, filesize) == filesize - n,
        resolve_end(-1, filesize) - resolve_start(-n, filesize) == n,
{
}

} // verus!
