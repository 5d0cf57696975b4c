//! The values that pass from the I/O layer to its users.

use crate::aligned_bytes::AlignedBytes;
use std::ops::Range;
use vstd::prelude::*;

verus! {

/// The unit of data passed from the I/O layer to the compute and application layers: a buffer
/// and the `user_data` that identifies it.
#[derive(Debug)]
pub struct Chunk {
    pub buffer: AlignedBytes,
    /// Identifies the chunk, for example as an index into an array that describes each chunk.
    pub user_data: u64,
}

/// What an I/O operation produces.
#[derive(Debug)]
pub enum Output {
    Chunk(Chunk),
}

/// A user's instruction to an I/O backend: one variant per kind of request. The path is kept
/// here, as bytes, until the request completes.
#[derive(Debug)]
pub enum Operation {
    Get { path: Vec<u8> },
    GetRange { path: Vec<u8>, range: Range<i32> },
    GetRanges { path: Vec<u8>, ranges: Vec<Range<i32>> },
}

/// What a completed `get`, `get_range` or `get_ranges` operation returns.
#[derive(Debug)]
pub enum OperationOutput {
    Get(Vec<u8>),
    GetRange(Vec<u8>),
    GetRanges(Vec<Vec<u8>>),
}

} // verus!
