//! A heap buffer whose start and end are aligned, for reads that begin part-way through an
//! aligned block.

use crate::aligned_bytes::{lemma_padded_len, lemma_pow2_positive, padded_len, padded_size, valid_buffer_request};
use vstd::prelude::*;

verus! {

/// A buffer of `len` requested bytes that start `start_offset` bytes into a file, backed by an
/// allocation whose start and end are aligned to `align`.
#[derive(Debug)]
pub struct AlignedBuffer {
    /// The number of bytes requested by the user.
    len: usize,
    /// The number of bytes unused at the start of the buffer.
    start_offset: usize,
    /// The number of bytes actually allocated: a multiple of `align`.
    size: usize,
    align: usize,
}

impl AlignedBuffer {
    /// The number of bytes requested by the user.
    pub closed spec fn spec_len(self) -> usize {
        self.len
    }

    /// The offset requested by the user.
    pub closed spec fn spec_start_offset(self) -> usize {
        self.start_offset
    }

    /// The alignment of the allocation.
    pub closed spec fn spec_align(self) -> usize {
        self.align
    }

    #[verifier::type_invariant]
    spec fn inv(self) -> bool {
        &&& self.align > 0
        &&& self.size == padded_len(self.len + self.start_offset % self.align, self.align as int)
    }

    /// Allocates enough aligned bytes to hold `len` bytes whose start lies `start_offset % align`
    /// bytes into an aligned block. `len` must not be zero and `align` must be a power of two.
    ///
    /// For example, `len` 3 at offset 2 with `align` 4 needs 8 bytes: the start moves back to
    /// byte 0 and the end forward to byte 8.
    pub fn new(len: usize, align: usize, start_offset: usize) -> (r: Self)
        requires
            len > 0,
            valid_buffer_request(len + (start_offset % align) as int, align as int),
        ensures
            r.spec_len() == len,
            r.spec_start_offset() == start_offset,
            r.spec_align() == align,
            r.spec_aligned_len() == padded_len(len + (start_offset % align) as int, align as int),
    {
        proof {
            lemma_pow2_positive(align as int);
            lemma_padded_len(len + (start_offset % align) as int, align as int);
        }
        let size = padded_size(len + start_offset % align, align);
        AlignedBuffer { len, start_offset, size, align }
    }

    /// The number of bytes actually allocated.
    pub closed spec fn spec_aligned_len(self) -> usize {
        self.size
    }

    /// The requested offset rounded down to a multiple of the alignment.
    pub fn aligned_start_offset(&self) -> (r: usize)
        ensures
            r == (self.spec_start_offset() / self.spec_align()) * self.spec_align(),
            r <= self.spec_start_offset(),
            r % self.spec_align() == 0,
    {
        proof {
            use_type_invariant(self);
            let q = self.start_offset / self.align;
            assert(q * self.align <= self.start_offset) by (nonlinear_arith)
                requires
                    self.align > 0,
                    q == self.start_offset / self.align,
            ;
            assert((q * self.align) % (self.align as int) == 0) by (nonlinear_arith)
                requires
                    self.align > 0,
            ;
        }
        (self.start_offset / self.align) * self.align
    }

    /// The number of bytes requested by the user.
    pub fn len(&self) -> (r: usize)
        ensures
            r == self.spec_len(),
    {
        self.len
    }

    /// The offset requested by the user.
    pub fn start_offset(&self) -> (r: usize)
        ensures
            r == self.spec_start_offset(),
    {
        self.start_offset
    }

    /// The number of bytes actually allocated: a multiple of the alignment.
    pub fn aligned_len(&self) -> (r: usize)
        ensures
            r == self.spec_aligned_len(),
    {
        self.size
    }
}

} // verus!
