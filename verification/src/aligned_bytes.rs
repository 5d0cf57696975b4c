//! Shareable buffers whose backing storage is aligned at a boundary chosen at run time.
//!
//! An [`AlignedBytesMut`] is an exclusive view (a byte range) into a backing buffer. It can be
//! split into non-overlapping views of the same backing buffer, and, once it is the only view
//! left, frozen into an immutable [`AlignedBytes`], whose range can then be set freely within the
//! backing buffer. The backing buffer's length is the requested length rounded up to a multiple
//! of the alignment.
//!
//! These types describe the backing buffer (its length and alignment) and the ranges that views
//! cover; the bytes themselves are held by the caller, in memory that it allocates with that
//! length and alignment and that the kernel reads into.

use std::ops::Range;
use std::sync::Arc;
use vstd::arithmetic::power2::is_pow2;
use vstd::prelude::*;

verus! {

/// `len` rounded up to the nearest multiple of `align`.
pub open spec fn padded_len(len: int, align: int) -> int {
    if align <= 0 {
        len
    } else {
        ((len + align - 1) / align) * align
    }
}

/// What a request for a new backing buffer must satisfy: a non-zero length, an alignment that
/// is a power of two, and a padded length that fits in an `isize`.
pub open spec fn valid_buffer_request(len: int, align: int) -> bool {
    &&& len > 0
    &&& is_pow2(align)
    &&& padded_len(len, align) <= isize::MAX
}

/// What a view of a buffer is made of: the byte range `[start, end)` that the view covers,
/// indexed into the backing buffer, and the backing buffer's length and alignment.
pub struct BufferView {
    pub start: int,
    pub end: int,
    pub buffer_len: int,
    pub alignment: int,
}

impl BufferView {
    /// The number of bytes in the view's range.
    pub open spec fn len(self) -> int {
        self.end - self.start
    }

    /// The same backing buffer, with another range.
    pub open spec fn with_range(self, start: int, end: int) -> BufferView {
        BufferView { start, end, buffer_len: self.buffer_len, alignment: self.alignment }
    }

    /// Byte `x` of the backing buffer lies in the view's range.
    pub open spec fn holds(self, x: int) -> bool {
        self.start <= x < self.end
    }

    /// The range lies inside the backing buffer.
    pub open spec fn range_in_buffer(self) -> bool {
        0 <= self.start <= self.end <= self.buffer_len
    }
}

/// Errors that [`AlignedBytesMut::split_to`] reports.
#[derive(Debug, PartialEq, Eq, Clone, Copy, Structural)]
pub enum SplitError {
    /// The index is not contained in the view's range `[start, end)`.
    IndexNotInRange { idx: usize, start: usize, end: usize },
    /// The index is zero.
    IndexIsZero,
    /// The index is not a multiple of the backing buffer's alignment.
    IndexNotAligned { idx: usize, alignment: usize },
}

/// The backing buffer: its padded length and its alignment.
#[derive(Debug)]
struct InnerBuffer {
    len: usize,
    align: usize,
}

impl InnerBuffer {
    spec fn wf(self) -> bool {
        &&& self.len > 0
        &&& is_pow2(self.align as int)
        &&& self.len % self.align == 0
        &&& self.len <= isize::MAX
    }

    /// Rounds `len` up to a multiple of `align`, as `Layout::from_size_align(len, align)`
    /// followed by `pad_to_align` does.
    fn new(len: usize, align: usize) -> (r: InnerBuffer)
        requires
            valid_buffer_request(len as int, align as int),
        ensures
            r.wf(),
            r.len == padded_len(len as int, align as int),
            r.align == align,
    {
        proof {
            lemma_pow2_positive(align as int);
            lemma_padded_len(len as int, align as int);
        }
        InnerBuffer { len: padded_size(len, align), align }
    }

    fn len(&self) -> (r: usize)
        ensures
            r == self.len,
    {
        self.len
    }

    fn alignment(&self) -> (r: usize)
        ensures
            r == self.align,
    {
        self.align
    }
}

/// Rounds `len` up to a multiple of `align`.
pub(crate) fn padded_size(len: usize, align: usize) -> (r: usize)
    requires
        valid_buffer_request(len as int, align as int),
    ensures
        r == padded_len(len as int, align as int),
{
    proof {
        lemma_pow2_positive(align as int);
        lemma_padded_len(len as int, align as int);
    }
    let blocks = len / align + if len % align == 0 { 0 } else { 1 };
    proof {
        lemma_round_up_blocks(len as int, align as int);
        assert(blocks * align == padded_len(len as int, align as int));
    }
    blocks * align
}

/// A power of two is positive.
pub proof fn lemma_pow2_positive(n: int)
    requires
        is_pow2(n),
    ensures
        n > 0,
{
    reveal(is_pow2);
}

/// The padded length is a multiple of the alignment, is at least the length, and exceeds it by
/// less than one alignment.
pub proof fn lemma_padded_len(len: int, align: int)
    requires
        len >= 0,
        align > 0,
    ensures
        padded_len(len, align) % align == 0,
        len <= padded_len(len, align) < len + align,
{
    let q = (len + align - 1) / align;
    let r = (len + align - 1) % align;
    assert(len + align - 1 == q * align + r) by (nonlinear_arith)
        requires
            align > 0,
            q == (len + align - 1) / align,
            r == (len + align - 1) % align,
    ;
    assert((q * align) % align == 0) by (nonlinear_arith)
        requires
            align > 0,
    ;
}

/// Counting whole blocks, plus one for a partial block, gives the padded length.
proof fn lemma_round_up_blocks(len: int, align: int)
    requires
        len >= 0,
        align > 0,
    ensures
        (len / align + if len % align == 0 { 0int } else { 1int }) * align == padded_len(len, align),
{
    let q = len / align;
    let r = len % align;
    assert(len == q * align + r) by (nonlinear_arith)
        requires
            align > 0,
            q == len / align,
            r == len % align,
    ;
    if r == 0 {
        assert((len + align - 1) / align == q) by (nonlinear_arith)
            requires
                align > 0,
                len == q * align,
        ;
    } else {
        assert((len + align - 1) / align == q + 1) by (nonlinear_arith)
            requires
                align > 0,
                len == q * align + r,
                0 < r < align,
        ;
    }
    assert((q + 1) * align == q * align + align) by (nonlinear_arith);
}

/// A mutable view of an aligned backing buffer.
#[derive(Debug)]
pub struct AlignedBytesMut {
    buf: Arc<InnerBuffer>,
    /// The slice requested by the user, indexed into the backing buffer.
    range: Range<usize>,
}

impl View for AlignedBytesMut {
    type V = BufferView;

    closed spec fn view(&self) -> BufferView {
        BufferView {
            start: self.range.start as int,
            end: self.range.end as int,
            buffer_len: self.buf.len as int,
            alignment: self.buf.align as int,
        }
    }
}

/// Properties shared by every view of a backing buffer.
pub open spec fn wf_view(v: BufferView) -> bool {
    &&& v.range_in_buffer()
    &&& v.buffer_len > 0
    &&& is_pow2(v.alignment)
    &&& v.buffer_len % v.alignment == 0
    &&& v.buffer_len <= isize::MAX
}

impl AlignedBytesMut {
    #[verifier::type_invariant]
    spec fn inv(self) -> bool {
        &&& self.buf.wf()
        &&& self.range.start <= self.range.end <= self.buf.len
    }

    /// Creates a view of a new backing buffer of `len` bytes (rounded up to a multiple of
    /// `align`), aligned to `align`. The view's range is `0..len`.
    pub fn new(len: usize, align: usize) -> (r: Self)
        requires
            valid_buffer_request(len as int, align as int),
        ensures
            r@ == (BufferView {
                start: 0,
                end: len as int,
                buffer_len: padded_len(len as int, align as int),
                alignment: align as int,
            }),
            wf_view(r@),
    {
        proof {
            lemma_pow2_positive(align as int);
            lemma_padded_len(len as int, align as int);
        }
        let inner_buf = InnerBuffer::new(len, align);
        AlignedBytesMut { buf: Arc::new(inner_buf), range: 0..len }
    }

    /// Returns the length of the view's range.
    pub fn len(&self) -> (r: usize)
        ensures
            r == self@.len(),
            wf_view(self@),
    {
        proof {
            use_type_invariant(self);
        }
        self.range.end - self.range.start
    }

    /// Splits this view into two views of the same backing buffer at `idx`, which indexes into
    /// the backing buffer. Afterwards `self` covers `[idx, end)` and the returned view covers
    /// `[start, idx)`.
    ///
    /// `idx` must lie in `[start, end)`, must not be zero, and must be a multiple of the
    /// alignment; otherwise the matching error is returned and `self` is unchanged.
    pub fn split_to(&mut self, idx: usize) -> (r: Result<Self, SplitError>)
        ensures
            r is Ok <==> split_allowed(old(self)@, idx as int),
            r == Err::<Self, SplitError>(SplitError::IndexNotInRange {
                idx,
                start: old(self)@.start as usize,
                end: old(self)@.end as usize,
            }) <==> !(old(self)@.start <= idx < old(self)@.end),
            r == Err::<Self, SplitError>(SplitError::IndexIsZero) <==> (old(self)@.start <= idx
                < old(self)@.end && idx == 0),
            r == Err::<Self, SplitError>(SplitError::IndexNotAligned {
                idx,
                alignment: old(self)@.alignment as usize,
            }) <==> (old(self)@.start <= idx < old(self)@.end && idx != 0 && (idx as int)
                % old(self)@.alignment != 0),
            r is Err ==> final(self)@ == old(self)@,
            wf_view(final(self)@),
            r matches Ok(other) ==> {
                &&& wf_view(other@)
                &&& other@ == old(self)@.with_range(old(self)@.start, idx as int)
                &&& final(self)@ == old(self)@.with_range(idx as int, old(self)@.end)
            },
    {
        proof {
            use_type_invariant(&*self);
            lemma_pow2_positive(self.buf.align as int);
        }
        if !(self.range.start <= idx && idx < self.range.end) {
            Err(SplitError::IndexNotInRange { idx, start: self.range.start, end: self.range.end })
        } else if idx == 0 {
            Err(SplitError::IndexIsZero)
        } else if idx % self.buf.alignment() != 0 {
            Err(SplitError::IndexNotAligned { idx, alignment: self.buf.alignment() })
        } else {
            let new_range = self.range.start..idx;
            let other = AlignedBytesMut { buf: self.buf.clone(), range: new_range };
            self.range = idx..self.range.end;
            Ok(other)
        }
    }
}

impl AlignedBytesMut {
    /// If this is the only view of its backing buffer, consumes it and returns a read-only
    /// [`AlignedBytes`] with the same backing buffer and range; otherwise returns `Err(self)`.
    ///
    /// Whether other views exist is read from the backing buffer's reference count, which this
    /// crate does not track: the contract states what holds either way, and
    /// [`AlignedBytesMut::freeze_if_sole_view`] states what follows from the count.
    pub fn freeze(self) -> (r: Result<AlignedBytes, Self>)
        ensures
            r matches Ok(b) ==> b@ == self@,
            r matches Err(s) ==> s@ == self@,
    {
        let n = arc_strong_count(&self.buf);
        self.freeze_if_sole_view(n)
    }

    /// Freezes this view when `strong_count`, the number of views that hold its backing
    /// buffer, is one; otherwise gives the view back unchanged.
    pub fn freeze_if_sole_view(self, strong_count: usize) -> (r: Result<AlignedBytes, Self>)
        ensures
            r is Ok <==> strong_count == 1,
            r matches Ok(b) ==> b@ == self@,
            r matches Err(s) ==> s@ == self@,
    {
        if strong_count == 1 {
            Ok(self.into_frozen())
        } else {
            Err(self)
        }
    }

    /// Turns this view into a read-only one with the same backing buffer and range.
    pub(crate) fn into_frozen(self) -> (r: AlignedBytes)
        ensures
            r@ == self@,
    {
        proof {
            use_type_invariant(&self);
        }
        AlignedBytes { buf: self.buf, range: self.range }
    }
}

/// `Arc::strong_count`: the number of `Arc`s that share `a`'s allocation. As `a` is one of them,
/// the count is at least one; which count comes back depends on the other owners alive at the
/// time of the call, and no more is stated.
#[verifier::external_body]
fn arc_strong_count<T>(a: &Arc<T>) -> (n: usize)
    ensures
        n >= 1,
{
    Arc::strong_count(a)
}

/// A read-only view of an aligned backing buffer.
///
/// The only way to make an `AlignedBytes` is [`AlignedBytesMut::freeze`]. Clones share the
/// backing buffer, and each clone's range can be set independently.
#[derive(Debug)]
pub struct AlignedBytes {
    buf: Arc<InnerBuffer>,
    /// The slice requested by the user, indexed into the backing buffer.
    range: Range<usize>,
}

impl View for AlignedBytes {
    type V = BufferView;

    closed spec fn view(&self) -> BufferView {
        BufferView {
            start: self.range.start as int,
            end: self.range.end as int,
            buffer_len: self.buf.len as int,
            alignment: self.buf.align as int,
        }
    }
}

impl Clone for AlignedBytes {
    fn clone(&self) -> (r: Self)
        ensures
            r@ == self@,
    {
        proof {
            use_type_invariant(self);
        }
        AlignedBytes { buf: self.buf.clone(), range: self.range.start..self.range.end }
    }
}

impl AlignedBytes {
    #[verifier::type_invariant]
    spec fn inv(self) -> bool {
        &&& self.buf.wf()
        &&& self.range.start <= self.range.end <= self.buf.len
    }

    /// Sets this view's range, which indexes into the whole backing buffer.
    ///
    /// The range must be non-empty and must end within the backing buffer.
    pub fn set_slice(&mut self, range: Range<usize>) -> (r: &Self)
        requires
            range.start < range.end <= old(self)@.buffer_len,
        ensures
            final(self)@ == old(self)@.with_range(range.start as int, range.end as int),
            r@ == final(self)@,
            wf_view(final(self)@),
    {
        proof {
            use_type_invariant(&*self);
        }
        self.range = range;
        self
    }

    /// Resets this view's range to the whole backing buffer.
    pub fn reset_slice(&mut self) -> (r: &Self)
        ensures
            final(self)@ == old(self)@.with_range(0, old(self)@.buffer_len),
            r@ == final(self)@,
            wf_view(final(self)@),
    {
        proof {
            use_type_invariant(&*self);
        }
        self.range = 0..self.buf.len();
        self
    }

    /// Returns the length of the view's range.
    pub fn len(&self) -> (r: usize)
        ensures
            r == self@.len(),
            wf_view(self@),
    {
        proof {
            use_type_invariant(self);
        }
        self.range.end - self.range.start
    }

    /// Returns where the view's range starts in the backing buffer.
    pub fn start(&self) -> (r: usize)
        ensures
            r == self@.start,
    {
        self.range.start
    }
}

/// The conditions under which [`AlignedBytesMut::split_to`] succeeds.
pub open spec fn split_allowed(v: BufferView, idx: int) -> bool {
    &&& v.start <= idx < v.end
    &&& idx != 0
    &&& idx % v.alignment == 0
}

/// Splitting a view at an allowed index gives two views of the same backing buffer that are
/// adjacent and do not overlap, and that together cover exactly the bytes of the view that was split;
/// the part that stays with the view is never empty.
pub proof fn lemma_split_partitions(v: BufferView, idx: int)
    requires
        wf_view(v),
        split_allowed(v, idx),
    ensures
        ({
            let lower = v.with_range(v.start, idx);
            let upper = v.with_range(idx, v.end);
            &&& wf_view(lower)
            &&& wf_view(upper)
            &&& lower.end == upper.start
            &&& lower.len() + upper.len() == v.len()
            &&& upper.len() > 0
            &&& forall|x: int| #[trigger] v.holds(x) <==> (lower.holds(x) != upper.holds(x))
        }),
{
}

/// A new backing buffer is a multiple of its alignment and holds the requested bytes with less
/// than one alignment to spare.
pub proof fn lemma_new_buffer_size(len: int, align: int)
    requires
        valid_buffer_request(len, align),
    ensures
        padded_len(len, align) % align == 0,
        len <= padded_len(len, align) < len + align,
{
    lemma_pow2_positive(align);
    lemma_padded_len(len, align);
}

} // verus!
