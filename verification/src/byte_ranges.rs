//! The byte ranges of a request to read or write parts of one file, and their rearrangement
//! into the reads that io_uring performs: a range can stay as it is, a large range can be split
//! into several reads, and nearby ranges can be merged into one read.

use std::ops::Range;
use std::sync::Arc;
use vstd::prelude::*;

verus! {

/// A buffer and the metadata that identifies it.
#[derive(Debug)]
pub struct Chunk<M> {
    pub buffer: Vec<u8>,
    pub metadata: M,
}

/// An I/O request on one file, common to all I/O backends.
///
/// Byte ranges may use negative offsets, which count from the end of the file. `metadata`
/// holds one value per byte range, to identify each range's output.
#[derive(Debug)]
pub enum IoOperation<M> {
    GetRanges { filename: Vec<u8>, byte_ranges: Vec<Range<isize>>, metadata: Option<Vec<M>> },
    PutRanges { filename: Vec<u8>, byte_ranges: Vec<Range<isize>>, chunks: Vec<Chunk<M>> },
}

/// A read as io_uring performs it.
#[derive(Debug)]
#[allow(inconsistent_fields)]
pub enum UringOptimisedByteRanges<M> {
    /// A single byte range that has been neither split nor merged.
    Unchanged { filename: Arc<Vec<u8>>, byte_range: Range<isize>, buffer: Option<Vec<u8>>, metadata: Option<M> },
    /// One large range read in several parts (a single `read` transfers at most about 2 GiB).
    Split {
        filename: Arc<Vec<u8>>,
        split_byte_ranges: Vec<Range<isize>>,
        next_to_submit: usize,
        n_completed: usize,
        user_byte_range: Range<isize>,
        user_buffer: Option<Vec<u8>>,
        user_metadata: Option<M>,
    },
    /// Several ranges read as one.
    Merged {
        filename: Arc<Vec<u8>>,
        merged_byte_range: Range<isize>,
        merged_buffer: Option<Vec<u8>>,
        user_byte_ranges: Vec<Range<isize>>,
        user_metadata: Option<Vec<M>>,
    },
}

/// The elements of `v` in reverse order.
fn reversed<T>(v: Vec<T>) -> (r: Vec<T>)
    ensures
        r@ == v@.reverse(),
{
    let mut v = v;
    let ghost orig = v@;
    let mut r: Vec<T> = Vec::new();
    while v.len() > 0
        invariant
            v@.len() <= orig.len(),
            v@ == orig.subrange(0, v@.len() as int),
            r@.len() == orig.len() - v@.len(),
            forall|k: int| 0 <= k < r@.len() ==> #[trigger] r@[k] == orig[orig.len() - 1 - k],
        decreases v.len(),
    {
        let x = v.pop().unwrap();
        r.push(x);
        proof {
            assert(v@ =~= orig.subrange(0, v@.len() as int));
        }
    }
    assert(r@ =~= orig.reverse());
    r
}

impl<M> UringOptimisedByteRanges<M> {
    /// The file name, shared by all the reads of one request.
    pub fn convert_filename(filename: Vec<u8>) -> (r: Arc<Vec<u8>>)
        ensures
            *r == filename,
    {
        Arc::new(filename)
    }

    pub fn new_unchanged_byte_range(
        filename: Arc<Vec<u8>>,
        byte_range: Range<isize>,
        buffer: Option<Vec<u8>>,
        metadata: Option<M>,
    ) -> (r: Self)
        ensures
            r == (UringOptimisedByteRanges::Unchanged { filename, byte_range, buffer, metadata }),
    {
        UringOptimisedByteRanges::Unchanged { filename, byte_range, buffer, metadata }
    }

    /// A split read that has submitted and completed none of its parts.
    pub fn new_split_byte_range(
        filename: Arc<Vec<u8>>,
        split_byte_ranges: Vec<Range<isize>>,
        user_byte_range: Range<isize>,
        user_buffer: Option<Vec<u8>>,
        user_metadata: Option<M>,
    ) -> (r: Self)
        ensures
            r == (UringOptimisedByteRanges::Split {
                filename,
                split_byte_ranges,
                next_to_submit: 0,
                n_completed: 0,
                user_byte_range,
                user_buffer,
                user_metadata,
            }),
    {
        UringOptimisedByteRanges::Split {
            filename,
            split_byte_ranges,
            next_to_submit: 0,
            n_completed: 0,
            user_byte_range,
            user_buffer,
            user_metadata,
        }
    }

    pub fn new_merged_byte_range(
        filename: Arc<Vec<u8>>,
        merged_byte_range: Range<isize>,
        merged_buffer: Option<Vec<u8>>,
        user_byte_ranges: Vec<Range<isize>>,
        user_metadata: Option<Vec<M>>,
    ) -> (r: Self)
        ensures
            r == (UringOptimisedByteRanges::Merged {
                filename,
                merged_byte_range,
                merged_buffer,
                user_byte_ranges,
                user_metadata,
            }),
    {
        UringOptimisedByteRanges::Merged {
            filename,
            merged_byte_range,
            merged_buffer,
            user_byte_ranges,
            user_metadata,
        }
    }

    /// Turns a `GetRanges` request into reads. For now every range is read unchanged, paired
    /// with its metadata in order (extra ranges or metadata beyond the shorter list are
    /// dropped); `max_gap` and `max_file_size` are not used yet. The request must be a
    /// `GetRanges` with metadata.
    pub fn optimise(io_operation: IoOperation<M>, max_gap: usize, max_file_size: usize) -> (r: Vec<Self>)
        requires
            io_operation matches IoOperation::GetRanges { metadata, .. } && metadata is Some,
        ensures
            io_operation matches IoOperation::GetRanges { filename, byte_ranges, metadata } && {
                let meta = metadata.unwrap()@;
                let n = if byte_ranges@.len() < meta.len() { byte_ranges@.len() } else { meta.len() };
                &&& r.len() == n
                &&& forall|i: int| 0 <= i < n ==> (#[trigger] r@[i]) == (UringOptimisedByteRanges::Unchanged {
                    filename: Arc::new(filename),
                    byte_range: byte_ranges@[i],
                    buffer: None::<Vec<u8>>,
                    metadata: Some(meta[i]),
                })
            },
    {
        match io_operation {
            IoOperation::GetRanges { filename, byte_ranges, metadata } => {
                let metadata = match metadata {
                    Some(m) => m,
                    None => vstd::pervasive::unreached(),
                };
                let ghost ranges0 = byte_ranges@;
                let ghost meta0 = metadata@;
                let filename = Self::convert_filename(filename);
                let mut ranges = reversed(byte_ranges);
                let mut metas = reversed(metadata);
                let n = if ranges.len() < metas.len() { ranges.len() } else { metas.len() };
                let mut out: Vec<Self> = Vec::new();
                let mut i: usize = 0;
                while i < n
                    invariant
                        n == if ranges0.len() < meta0.len() { ranges0.len() } else { meta0.len() },
                        i <= n,
                        ranges@.len() == ranges0.len() - i,
                        metas@.len() == meta0.len() - i,
                        forall|k: int| 0 <= k < ranges@.len() ==> #[trigger] ranges@[k] == ranges0[ranges0.len() - 1 - k],
                        forall|k: int| 0 <= k < metas@.len() ==> #[trigger] metas@[k] == meta0[meta0.len() - 1 - k],
                        out.len() == i,
                        forall|k: int| 0 <= k < i ==> (#[trigger] out@[k]) == (UringOptimisedByteRanges::Unchanged {
                            filename,
                            byte_range: ranges0[k],
                            buffer: None::<Vec<u8>>,
                            metadata: Some(meta0[k]),
                        }),
                    decreases n - i,
                {
                    let range = ranges.pop().unwrap();
                    let meta = metas.pop().unwrap();
                    let filename_i = filename.clone();
                    out.push(Self::new_unchanged_byte_range(filename_i, range, None, Some(meta)));
                    i = i + 1;
                }
                out
            },
            IoOperation::PutRanges { .. } => vstd::pervasive::unreached(),
        }
    }
}

} // verus!
