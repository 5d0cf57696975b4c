//! What the read benchmark asks for: the contents of its test files and the chunks in which it
//! reads them.

use std::ops::Range;
use vstd::prelude::*;

verus! {

/// The chunk size: the block size if one was given, else the whole file.
pub open spec fn spec_blocksize(filesize: u64, blocksize: Option<u64>) -> u64 {
    match blocksize {
        Some(bs) => bs,
        None => filesize,
    }
}

/// The `i`-th chunk of `bs` bytes.
pub open spec fn spec_chunk(i: int, bs: int) -> Range<isize> {
    ((i * bs) as isize)..(((i + 1) * bs) as isize)
}

/// Splits a file of `filesize` bytes into whole chunks of the block size (or one chunk of the
/// whole file), numbering them `0, 1, ...`; a trailing partial chunk is not read. The chunk
/// size must not be zero and the file size must fit an `isize`.
pub fn chunk_ranges(filesize: u64, blocksize: Option<u64>) -> (r: (Vec<Range<isize>>, Vec<u64>))
    requires
        spec_blocksize(filesize, blocksize) > 0,
        filesize <= isize::MAX,
    ensures
        ({
            let bs = spec_blocksize(filesize, blocksize) as int;
            let n = filesize as int / bs;
            &&& r.0.len() == n
            &&& r.1.len() == n
            &&& forall|i: int| 0 <= i < n ==> #[trigger] r.0@[i] == spec_chunk(i, bs)
            &&& forall|i: int| 0 <= i < n ==> #[trigger] r.1@[i] == i
        }),
{
    let bs: u64 = match blocksize {
        Some(b) => b,
        None => filesize,
    };
    let n_chunks: u64 = filesize / bs;
    proof {
        assert(n_chunks * bs <= filesize) by (nonlinear_arith)
            requires
                bs > 0,
                n_chunks == filesize / bs,
        ;
    }
    let mut chunks: Vec<Range<isize>> = Vec::new();
    let mut user_data: Vec<u64> = Vec::new();
    let mut i: u64 = 0;
    while i < n_chunks
        invariant
            bs > 0,
            bs == spec_blocksize(filesize, blocksize),
            n_chunks == filesize / bs,
            n_chunks * bs <= filesize,
            filesize <= isize::MAX,
            i <= n_chunks,
            chunks.len() == i,
            user_data.len() == i,
            forall|k: int| 0 <= k < i ==> #[trigger] chunks@[k] == spec_chunk(k, bs as int),
            forall|k: int| 0 <= k < i ==> #[trigger] user_data@[k] == k,
        decreases n_chunks - i,
    {
        proof {
            assert((i + 1) * bs <= n_chunks * bs) by (nonlinear_arith)
                requires
                    i < n_chunks,
                    bs > 0,
            ;
            assert((i + 1) * bs == i * bs + bs) by (nonlinear_arith);
        }
        let chunk_start = (i * bs) as isize;
        let chunk_end = chunk_start + (bs as isize);
        chunks.push(chunk_start..chunk_end);
        user_data.push(i);
        i = i + 1;
    }
    (chunks, user_data)
}

/// The contents of a test file of `filesize` bytes: byte `i` is `i` modulo 256.
pub fn file_contents(filesize: usize) -> (r: Vec<u8>)
    ensures
        r.len() == filesize,
        forall|i: int| 0 <= i < filesize ==> #[trigger] r@[i] == i % 256,
{
    let mut v: Vec<u8> = Vec::new();
    let mut i: usize = 0;
    while i < filesize
        invariant
            i <= filesize,
            v.len() == i,
            forall|k: int| 0 <= k < i ==> #[trigger] v@[k] == k % 256,
        decreases filesize - i,
    {
        let b = (i % 256) as u8;
        v.push(b);
        i = i + 1;
    }
    v
}

/// The chunks tile the file from its start: each chunk holds the block size, and each starts
/// where the one before ends.
pub proof fn lemma_chunks_tile(i: int, bs: int, filesize: int)
    requires
        bs > 0,
        0 <= i,
        (i + 2) * bs <= filesize <= isize::MAX,
    ensures
        spec_chunk(i, bs).end == spec_chunk(i + 1, bs).start,
        spec_chunk(i, bs).end - spec_chunk(i, bs).start == bs,
        spec_chunk(0, bs).start == 0,
{
    assert((i + 1) * bs == i * bs + bs) by (nonlinear_arith);
    assert((i + 2) * bs == (i + 1) * bs + bs) by (nonlinear_arith);
    assert(0 <= i * bs) by (nonlinear_arith)
        requires
            0 <= i,
            bs > 0,
    ;
    assert(0 * bs == 0) by (nonlinear_arith);
}

} // verus!
