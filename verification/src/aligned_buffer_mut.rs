//! A backing buffer that hands out exclusive, non-overlapping slices of itself.
//!
//! The buffer keeps the set of slices currently claimed; a new slice is refused if it overlaps
//! a claimed one, and a slice is released by removing it from the set.

use crate::aligned_bytes::{padded_size, lemma_padded_len, lemma_pow2_positive, padded_len, valid_buffer_request};
use std::ops::Range;
use std::sync::Arc;
use vstd::arithmetic::power2::is_pow2;
use vstd::prelude::*;

verus! {

/// A range is empty when it holds no index.
pub open spec fn range_is_empty(r: Range<usize>) -> bool {
    !(r.start < r.end)
}

/// `x` lies in the half-open range `r`.
pub open spec fn range_contains(r: Range<usize>, x: int) -> bool {
    r.start <= x < r.end
}

/// Two ranges overlap when both are non-empty and they share an index.
pub open spec fn spec_overlaps(a: Range<usize>, b: Range<usize>) -> bool {
    &&& !range_is_empty(a)
    &&& !range_is_empty(b)
    &&& a.start < b.end
    &&& b.start < a.end
}

/// Returns true if the two ranges share an index. Empty ranges overlap nothing.
pub fn overlaps(a: &Range<usize>, b: &Range<usize>) -> (r: bool)
    ensures
        r == spec_overlaps(*a, *b),
{
    if !(a.start < a.end) || !(b.start < b.end) {
        return false;
    }
    a.start < b.end && b.start < a.end
}

/// Two ranges overlap exactly when they share an index, whichever comes first.
pub proof fn lemma_overlaps_share_an_index(a: Range<usize>, b: Range<usize>)
    ensures
        spec_overlaps(a, b) <==> exists|x: int| range_contains(a, x) && range_contains(b, x),
        spec_overlaps(a, b) == spec_overlaps(b, a),
{
    if spec_overlaps(a, b) {
        let x = if a.start < b.start { b.start as int } else { a.start as int };
        assert(range_contains(a, x) && range_contains(b, x));
    }
}

/// A non-empty range overlaps itself; ranges that touch end to start overlap in neither order.
pub proof fn lemma_overlaps_basic(a: Range<usize>, b: Range<usize>)
    ensures
        !range_is_empty(a) ==> spec_overlaps(a, a),
        a.end <= b.start ==> !spec_overlaps(a, b) && !spec_overlaps(b, a),
{
}

/// Claiming a slice that was not claimed and then releasing it leaves the claimed set as it
/// was.
pub proof fn lemma_claim_then_remove(claimed: Set<(usize, usize)>, slice: (usize, usize))
    requires
        !claimed.contains(slice),
    ensures
        claimed.insert(slice).remove(slice) == claimed,
{
    assert(claimed.insert(slice).remove(slice) =~= claimed);
}

/// Errors reported when claiming or releasing a slice.
#[derive(Debug, PartialEq, Eq, Clone, Copy, Structural)]
pub enum SliceError {
    /// The requested slice overlaps a slice that is already claimed.
    Overlaps { requested_start: usize, requested_end: usize, existing_start: usize, existing_end: usize },
    /// The slice to release was not claimed.
    NotClaimed { start: usize, end: usize },
}

/// A backing buffer of `size` bytes aligned to `align`, and the slices of it that are
/// currently claimed.
#[derive(Debug)]
pub struct InnerAlignedBuffer {
    size: usize,
    align: usize,
    exclusive_slices: Vec<Range<usize>>,
}

/// The range with the given pair of bounds.
pub open spec fn range_of(p: (usize, usize)) -> Range<usize> {
    p.0..p.1
}

/// The pair of bounds of a range.
pub open spec fn bounds(r: Range<usize>) -> (usize, usize) {
    (r.start, r.end)
}

impl InnerAlignedBuffer {
    /// The claimed slices, as pairs of bounds.
    pub closed spec fn claimed(self) -> Set<(usize, usize)> {
        Set::new(|p: (usize, usize)| exists|i: int| 0 <= i < self.exclusive_slices.len()
            && #[trigger] bounds(self.exclusive_slices@[i]) == p)
    }

    /// The number of bytes in the backing buffer.
    pub closed spec fn spec_size(self) -> usize {
        self.size
    }

    /// The alignment of the backing buffer.
    pub closed spec fn spec_alignment(self) -> usize {
        self.align
    }

    /// The claimed slices are listed once each and no two of them overlap, and the buffer's
    /// size is a positive multiple of its alignment, which is a power of two.
    pub closed spec fn wf(self) -> bool {
        &&& self.size > 0
        &&& is_pow2(self.align as int)
        &&& self.size % self.align == 0
        &&& forall|i: int, j: int|
            0 <= i < j < self.exclusive_slices.len() ==> bounds(#[trigger] self.exclusive_slices@[i])
                != bounds(#[trigger] self.exclusive_slices@[j])
        &&& forall|i: int, j: int|
            0 <= i < j < self.exclusive_slices.len() ==> !spec_overlaps(
                #[trigger] self.exclusive_slices@[i],
                #[trigger] self.exclusive_slices@[j],
            )
    }

    /// No two claimed slices overlap.
    pub proof fn lemma_claimed_disjoint(self)
        requires
            self.wf(),
        ensures
            forall|p: (usize, usize), q: (usize, usize)|
                #[trigger] self.claimed().contains(p) && #[trigger] self.claimed().contains(q) && p
                    != q ==> !spec_overlaps(range_of(p), range_of(q)),
    {
        assert forall|p: (usize, usize), q: (usize, usize)|
            #[trigger] self.claimed().contains(p) && #[trigger] self.claimed().contains(q) && p
                != q implies !spec_overlaps(range_of(p), range_of(q)) by {
            let i = choose|i: int|
                0 <= i < self.exclusive_slices.len() && #[trigger] bounds(self.exclusive_slices@[i]) == p;
            let j = choose|j: int|
                0 <= j < self.exclusive_slices.len() && #[trigger] bounds(self.exclusive_slices@[j]) == q;
            assert(range_of(p) == self.exclusive_slices@[i]);
            assert(range_of(q) == self.exclusive_slices@[j]);
            if i > j {
                assert(!spec_overlaps(self.exclusive_slices@[j], self.exclusive_slices@[i]));
            }
        }
    }

    /// Creates a buffer of `len` bytes rounded up to a multiple of `align`, with no slice
    /// claimed.
    pub fn new(len: usize, align: usize) -> (r: Self)
        requires
            valid_buffer_request(len as int, align as int),
        ensures
            r.wf(),
            r.spec_size() == padded_len(len as int, align as int),
            r.spec_alignment() == align,
            r.claimed() == Set::<(usize, usize)>::empty(),
    {
        proof {
            lemma_pow2_positive(align as int);
            lemma_padded_len(len as int, align as int);
        }
        let size = padded_size(len, align);
        let r = InnerAlignedBuffer { size, align, exclusive_slices: Vec::new() };
        assert(r.claimed() =~= Set::<(usize, usize)>::empty());
        r
    }

    /// Claims `slice` unless it shares an index with a slice that is already claimed; then the
    /// overlapping slice is reported and nothing changes.
    pub fn claim_new_exclusive_slice(&mut self, slice: &Range<usize>) -> (r: Result<(), SliceError>)
        requires
            old(self).wf(),
        ensures
            final(self).wf(),
            final(self).spec_size() == old(self).spec_size(),
            final(self).spec_alignment() == old(self).spec_alignment(),
            r is Ok <==> forall|p: (usize, usize)|
                #[trigger] old(self).claimed().contains(p) ==> !spec_overlaps(range_of(p), *slice),
            r is Ok ==> final(self).claimed() == old(self).claimed().insert(bounds(*slice)),
            r is Err ==> final(self).claimed() == old(self).claimed(),
            r matches Err(e) ==> e matches SliceError::Overlaps {
                requested_start,
                requested_end,
                existing_start,
                existing_end,
            } && requested_start == slice.start && requested_end == slice.end
                && old(self).claimed().contains((existing_start, existing_end)) && spec_overlaps(
                existing_start..existing_end,
                *slice,
            ),
    {
        let n = self.exclusive_slices.len();
        let mut i: usize = 0;
        let mut already_claimed = false;
        while i < n
            invariant
                *self == *old(self),
                old(self).wf(),
                n == self.exclusive_slices.len(),
                i <= n,
                forall|j: int|
                    0 <= j < i ==> !spec_overlaps(#[trigger] self.exclusive_slices@[j], *slice),
                already_claimed <==> exists|j: int|
                    0 <= j < i && bounds(#[trigger] self.exclusive_slices@[j]) == bounds(*slice),
            decreases n - i,
        {
            let existing = &self.exclusive_slices[i];
            if overlaps(existing, slice) {
                let ghost p = bounds(self.exclusive_slices@[i as int]);
                assert(self.claimed().contains(p));
                assert(range_of(p) == self.exclusive_slices@[i as int]);
                return Err(
                    SliceError::Overlaps {
                        requested_start: slice.start,
                        requested_end: slice.end,
                        existing_start: existing.start,
                        existing_end: existing.end,
                    },
                );
            }
            if existing.start == slice.start && existing.end == slice.end {
                already_claimed = true;
            }
            i = i + 1;
        }
        proof {
            assert forall|p: (usize, usize)| #[trigger]
                old(self).claimed().contains(p) implies !spec_overlaps(range_of(p), *slice) by {
                let j = choose|j: int|
                    0 <= j < self.exclusive_slices.len() && #[trigger] bounds(
                        self.exclusive_slices@[j],
                    ) == p;
                assert(range_of(p) == self.exclusive_slices@[j]);
            }
        }
        if !already_claimed {
            let ghost old_slices = self.exclusive_slices@;
            self.exclusive_slices.push(slice.start..slice.end);
            proof {
                assert forall|p: (usize, usize)|
                    self.claimed().contains(p) <==> old(self).claimed().insert(
                        bounds(*slice),
                    ).contains(p) by {
                    if self.claimed().contains(p) {
                        let j = choose|j: int|
                            0 <= j < self.exclusive_slices.len() && #[trigger] bounds(
                                self.exclusive_slices@[j],
                            ) == p;
                        if j < n {
                            assert(old_slices[j] == self.exclusive_slices@[j]);
                        }
                    }
                    if old(self).claimed().contains(p) {
                        let j = choose|j: int|
                            0 <= j < old_slices.len() && #[trigger] bounds(old_slices[j]) == p;
                        assert(bounds(self.exclusive_slices@[j]) == p);
                    }
                    if p == bounds(*slice) {
                        assert(bounds(self.exclusive_slices@[n as int]) == p);
                    }
                }
                assert(self.claimed() =~= old(self).claimed().insert(bounds(*slice)));
            }
        } else {
            proof {
                let j = choose|j: int|
                    0 <= j < n && bounds(#[trigger] self.exclusive_slices@[j]) == bounds(*slice);
                assert(self.claimed().contains(bounds(*slice)));
                assert(self.claimed() =~= old(self).claimed().insert(bounds(*slice)));
            }
        }
        Ok(())
    }

    /// Releases `slice`, or reports that it was not claimed.
    pub fn remove_exclusive_slice(&mut self, slice: &Range<usize>) -> (r: Result<(), SliceError>)
        requires
            old(self).wf(),
        ensures
            final(self).wf(),
            final(self).spec_size() == old(self).spec_size(),
            final(self).spec_alignment() == old(self).spec_alignment(),
            r is Ok <==> old(self).claimed().contains(bounds(*slice)),
            r is Ok ==> final(self).claimed() == old(self).claimed().remove(bounds(*slice)),
            r is Err ==> final(self).claimed() == old(self).claimed() && r == Err::<(), SliceError>(
                SliceError::NotClaimed { start: slice.start, end: slice.end },
            ),
    {
        let n = self.exclusive_slices.len();
        let mut i: usize = 0;
        while i < n
            invariant
                *self == *old(self),
                old(self).wf(),
                n == self.exclusive_slices.len(),
                i <= n,
                forall|j: int|
                    0 <= j < i ==> bounds(#[trigger] self.exclusive_slices@[j]) != bounds(*slice),
            decreases n - i,
        {
            if self.exclusive_slices[i].start == slice.start && self.exclusive_slices[i].end
                == slice.end {
                let ghost old_slices = self.exclusive_slices@;
                let ghost k = i as int;
                self.exclusive_slices.remove(i);
                proof {
                    assert(old(self).claimed().contains(bounds(*slice))) by {
                        assert(bounds(old_slices[k]) == bounds(*slice));
                    }
                    assert forall|a: int, b: int|
                        0 <= a < b < self.exclusive_slices.len() implies bounds(
                        #[trigger] self.exclusive_slices@[a],
                    ) != bounds(#[trigger] self.exclusive_slices@[b]) by {
                        let a0 = if a < k { a } else { a + 1 };
                        let b0 = if b < k { b } else { b + 1 };
                        assert(self.exclusive_slices@[a] == old_slices[a0]);
                        assert(self.exclusive_slices@[b] == old_slices[b0]);
                    }
                    assert forall|p: (usize, usize)|
                        self.claimed().contains(p) <==> old(self).claimed().remove(
                            bounds(*slice),
                        ).contains(p) by {
                        if self.claimed().contains(p) {
                            let j = choose|j: int|
                                0 <= j < self.exclusive_slices.len() && #[trigger] bounds(
                                    self.exclusive_slices@[j],
                                ) == p;
                            let j0 = if j < k { j } else { j + 1 };
                            assert(self.exclusive_slices@[j] == old_slices[j0]);
                            assert(j0 != k);
                        }
                        if old(self).claimed().contains(p) && p != bounds(*slice) {
                            let j = choose|j: int|
                                0 <= j < old_slices.len() && #[trigger] bounds(old_slices[j]) == p;
                            assert(j != k);
                            let j1 = if j < k { j } else { j - 1 };
                            assert(self.exclusive_slices@[j1] == old_slices[j]);
                        }
                    }
                    assert(self.claimed() =~= old(self).claimed().remove(bounds(*slice)));
                }
                return Ok(());
            }
            i = i + 1;
        }
        proof {
            if old(self).claimed().contains(bounds(*slice)) {
                let j = choose|j: int|
                    0 <= j < n && #[trigger] bounds(self.exclusive_slices@[j]) == bounds(*slice);
                assert(false);
            }
        }
        Err(SliceError::NotClaimed { start: slice.start, end: slice.end })
    }

    /// The total size of the backing buffer.
    pub fn size(&self) -> (r: usize)
        ensures
            r == self.spec_size(),
    {
        self.size
    }

    /// The alignment of the backing buffer, in bytes.
    pub fn alignment(&self) -> (r: usize)
        ensures
            r == self.spec_alignment(),
    {
        self.align
    }
}

/// A heap buffer whose start and end are aligned, viewed through the slice that the user
/// requested. The requested slice is claimed in the backing buffer for as long as this view
/// exists.
#[derive(Debug)]
pub struct AlignedBufferMut {
    buf: Arc<InnerAlignedBuffer>,
    /// The slice requested by the user.
    valid_slice: Range<usize>,
}

/// The length of the backing buffer that [`AlignedBufferMut::new`] allocates for `slice`: the
/// slice's length plus the offset of its start within an aligned block.
pub open spec fn backing_len(slice: Range<usize>, align: usize) -> int {
    (slice.end - slice.start) + (slice.start % align)
}

/// A backing buffer of the padded length for `slice` holds the slice once its start is moved
/// back to the start of its aligned block: it is a multiple of the alignment, at least the
/// slice's offset within its block plus its length, and less than one alignment more.
pub proof fn lemma_backing_buffer_holds_the_slice(slice: Range<usize>, align: usize, size: int)
    requires
        slice.start < slice.end,
        is_pow2(align as int),
        size == padded_len(backing_len(slice, align), align as int),
    ensures
        size % (align as int) == 0,
        (slice.start % align) + (slice.end - slice.start) <= size,
        size < (slice.start % align) + (slice.end - slice.start) + align,
{
    lemma_pow2_positive(align as int);
    lemma_padded_len(backing_len(slice, align), align as int);
}

impl AlignedBufferMut {
    #[verifier::type_invariant]
    spec fn inv(self) -> bool {
        &&& self.buf.wf()
        &&& self.buf.claimed().contains(bounds(self.valid_slice))
        &&& self.valid_slice.start < self.valid_slice.end
    }

    /// The slice that the user requested.
    pub closed spec fn valid_slice(self) -> Range<usize> {
        self.valid_slice
    }

    /// The backing buffer.
    pub closed spec fn inner(self) -> InnerAlignedBuffer {
        *self.buf
    }

    /// Allocates a backing buffer large enough to hold `slice` when its start is moved back to
    /// an aligned boundary, and claims `slice` in it. `slice` must not be empty and `align`
    /// must be a power of two.
    pub fn new(slice: Range<usize>, align: usize) -> (r: Self)
        requires
            slice.start < slice.end,
            is_pow2(align as int),
            valid_buffer_request(backing_len(slice, align), align as int),
        ensures
            r.valid_slice() == slice,
            r.inner().spec_size() == padded_len(backing_len(slice, align), align as int),
            r.inner().spec_size() as int % (align as int) == 0,
            (slice.start % align) + (slice.end - slice.start) <= r.inner().spec_size(),
            r.inner().spec_size() < (slice.start % align) + (slice.end - slice.start) + align,
            r.inner().spec_alignment() == align,
            r.inner().claimed() == Set::<(usize, usize)>::empty().insert(bounds(slice)),
    {
        proof {
            lemma_pow2_positive(align as int);
            lemma_padded_len(backing_len(slice, align), align as int);
            lemma_backing_buffer_holds_the_slice(slice, align, padded_len(backing_len(slice, align), align as int));
        }
        let mut inner_buf = InnerAlignedBuffer::new((slice.end - slice.start) + slice.start % align, align);
        let claimed = inner_buf.claim_new_exclusive_slice(&slice);
        assert(claimed is Ok);
        AlignedBufferMut { buf: Arc::new(inner_buf), valid_slice: slice }
    }

    /// The length of the slice requested by the user. The backing buffer may be larger.
    pub fn len(&self) -> (r: usize)
        ensures
            r == self.valid_slice().end - self.valid_slice().start,
    {
        proof {
            use_type_invariant(self);
        }
        self.valid_slice.end - self.valid_slice.start
    }

    /// The length of the backing buffer, in bytes.
    pub fn capacity(&self) -> (r: usize)
        ensures
            r == self.inner().spec_size(),
    {
        self.buf.size()
    }
}

} // verus!
