//! The staging buffer: a bounded byte window between a byte source and the
//! decoders.
//!
//! Bytes enter at the tail, are decoded in place from the head, and leave when
//! the caller consumes them. The storage is a `circular::Buffer`; what this
//! module assumes of it is stated on the items below and nowhere else.

use circular::Buffer;
use vstd::prelude::*;

verus! {

/// `circular::Buffer`, taken as it is: nothing is assumed of what a value
/// holds but through the three names below.
#[verifier::external_type_specification]
#[verifier::external_body]
pub struct ExBuffer(circular::Buffer);

/// The readable bytes of a `circular::Buffer`, oldest first: the part of its
/// storage between its position and its end.
pub uninterp spec fn buffer_data(b: Buffer) -> Seq<u8>;

/// The offset in the storage of a `circular::Buffer` at which its readable
/// bytes begin.
pub uninterp spec fn buffer_position(b: Buffer) -> nat;

/// The size of the storage of a `circular::Buffer`.
pub uninterp spec fn buffer_capacity(b: Buffer) -> nat;

/// The offset in the storage at which the readable bytes end and the free
/// space begins.
pub open spec fn buffer_end(b: Buffer) -> nat {
    buffer_position(b) + buffer_data(b).len()
}

/// The ordering `position <= end <= capacity` that every operation keeps.
pub open spec fn buffer_ordered(b: Buffer) -> bool {
    buffer_end(b) <= buffer_capacity(b) <= usize::MAX
}

/// `circular::Buffer::with_capacity`: a buffer of the given size that holds
/// no readable byte, positioned at the start of its storage. Sizes beyond
/// `isize::MAX` are left out: the allocation would panic.
pub assume_specification[ Buffer::with_capacity ](capacity: usize) -> (b: Buffer)
    requires
        capacity <= isize::MAX,
    ensures
        buffer_data(b) == Seq::<u8>::empty(),
        buffer_position(b) == 0,
        buffer_capacity(b) == capacity,
;

/// `circular::Buffer::data`: the readable bytes as a slice.
pub assume_specification[ Buffer::data ](b: &Buffer) -> (d: &[u8])
    requires
        buffer_ordered(*b),
    ensures
        d@ == buffer_data(*b),
;

/// `circular::Buffer::capacity`: the size of the storage.
pub assume_specification[ Buffer::capacity ](b: &Buffer) -> (n: usize)
    ensures
        n == buffer_capacity(*b),
;

/// `circular::Buffer::available_data`: the number of readable bytes.
pub assume_specification[ Buffer::available_data ](b: &Buffer) -> (n: usize)
    requires
        buffer_ordered(*b),
    ensures
        n == buffer_data(*b).len(),
;

/// `circular::Buffer::available_space`: the number of bytes between the end
/// of the readable bytes and the end of the storage.
pub assume_specification[ Buffer::available_space ](b: &Buffer) -> (n: usize)
    requires
        buffer_ordered(*b),
    ensures
        n == buffer_capacity(*b) - buffer_end(*b),
;

/// `circular::Buffer::shift`: moves the readable bytes to the start of the
/// storage. They stay the same bytes; the position becomes 0.
pub assume_specification[ Buffer::shift ](b: &mut Buffer)
    requires
        buffer_ordered(*old(b)),
    ensures
        buffer_data(*final(b)) == buffer_data(*old(b)),
        buffer_position(*final(b)) == 0,
        buffer_capacity(*final(b)) == buffer_capacity(*old(b)),
;

/// Whether `circular::Buffer::consume` moves the remaining bytes to the start
/// of the storage after dropping `cnt` of them: it does once the position
/// has passed half of the capacity.
pub open spec fn consume_shifts(b: Buffer, cnt: nat) -> bool {
    buffer_position(b) + cnt > buffer_capacity(b) / 2
}

/// `circular::Buffer::consume`: drops up to `count` readable bytes from the
/// head, as many as there are, and returns how many it dropped.
pub assume_specification[ Buffer::consume ](b: &mut Buffer, count: usize) -> (cnt: usize)
    requires
        buffer_ordered(*old(b)),
    ensures
        cnt == if count <= buffer_data(*old(b)).len() {
            count as nat
        } else {
            buffer_data(*old(b)).len()
        },
        buffer_data(*final(b)) == buffer_data(*old(b)).skip(cnt as int),
        buffer_capacity(*final(b)) == buffer_capacity(*old(b)),
        buffer_position(*final(b)) == if consume_shifts(*old(b), cnt as nat) {
            0
        } else {
            buffer_position(*old(b)) + cnt
        },
;

/// `circular::Buffer::grow`: enlarges the storage to `new_size` unless it is
/// that large already, and says whether it did. The readable bytes and the
/// position stay. Sizes beyond `isize::MAX` are left out: the allocation
/// would panic.
pub assume_specification[ Buffer::grow ](b: &mut Buffer, new_size: usize) -> (grown: bool)
    requires
        buffer_ordered(*old(b)),
        new_size <= isize::MAX,
    ensures
        grown == (buffer_capacity(*old(b)) < new_size),
        buffer_capacity(*final(b)) == if grown {
            new_size as nat
        } else {
            buffer_capacity(*old(b))
        },
        buffer_data(*final(b)) == buffer_data(*old(b)),
        buffer_position(*final(b)) == buffer_position(*old(b)),
;

/// Whether the write of `cnt` bytes at the tail is followed by a move of the
/// readable bytes to the start of the storage: `circular::Buffer::fill` does
/// so when the space left after the write is smaller than the readable bytes
/// plus `cnt`.
pub open spec fn fill_shifts(b: Buffer, cnt: nat) -> bool {
    buffer_capacity(b) - (buffer_end(b) + cnt) < buffer_data(b).len() + cnt + cnt
}

/// The `std::io::Write` impl of `circular::Buffer`: copies as many bytes of
/// `bytes` as fit between the end of the readable bytes and the end of the
/// storage, makes them readable after the bytes already there, and returns
/// their number. The impl never fails.
#[verifier::external_body]
fn buffer_write(b: &mut Buffer, bytes: &[u8]) -> (cnt: usize)
    requires
        buffer_ordered(*old(b)),
    ensures
        cnt == if bytes@.len() <= buffer_capacity(*old(b)) - buffer_end(*old(b)) {
            bytes@.len() as int
        } else {
            buffer_capacity(*old(b)) - buffer_end(*old(b))
        },
        buffer_data(*final(b)) == buffer_data(*old(b)) + bytes@.take(cnt as int),
        buffer_capacity(*final(b)) == buffer_capacity(*old(b)),
        buffer_position(*final(b)) == if fill_shifts(*old(b), cnt as nat) {
            0
        } else {
            buffer_position(*old(b))
        },
{
    std::io::Write::write(b, bytes).unwrap_or(0)
}

/// A bounded window of bytes: written at the tail, read from the head.
#[derive(Debug)]
pub struct StagingBuffer {
    inner: Buffer,
}

impl View for StagingBuffer {
    type V = Seq<u8>;

    /// The readable bytes, oldest first.
    closed spec fn view(&self) -> Seq<u8> {
        buffer_data(self.inner)
    }
}

impl StagingBuffer {
    /// The invariant `0 <= consumed <= filled <= capacity`.
    pub closed spec fn wf(&self) -> bool {
        buffer_ordered(self.inner)
    }

    /// The size of the storage.
    pub closed spec fn capacity_spec(&self) -> nat {
        buffer_capacity(self.inner)
    }

    /// The offset in the storage below which bytes are gone.
    pub closed spec fn consumed_spec(&self) -> nat {
        buffer_position(self.inner)
    }

    /// The offset in the storage up to which bytes have been written.
    pub open spec fn filled_spec(&self) -> nat {
        self.consumed_spec() + self@.len()
    }

    /// The invariant bounds the readable bytes by the capacity.
    pub proof fn lemma_bounds(&self)
        requires
            self.wf(),
        ensures
            self.filled_spec() <= self.capacity_spec() <= usize::MAX,
    {
    }

    /// An empty buffer of the given capacity.
    pub fn with_capacity(capacity: usize) -> (b: StagingBuffer)
        requires
            capacity <= isize::MAX,
        ensures
            b.wf(),
            b@ == Seq::<u8>::empty(),
            b.capacity_spec() == capacity,
            b.consumed_spec() == 0,
    {
        StagingBuffer { inner: Buffer::with_capacity(capacity) }
    }

    /// The readable window.
    pub fn readable(&self) -> (d: &[u8])
        requires
            self.wf(),
        ensures
            d@ == self@,
    {
        self.inner.data()
    }

    /// The number of readable bytes.
    pub fn len(&self) -> (n: usize)
        requires
            self.wf(),
        ensures
            n == self@.len(),
    {
        self.inner.available_data()
    }

    /// The size of the storage.
    pub fn capacity(&self) -> (n: usize)
        requires
            self.wf(),
        ensures
            n == self.capacity_spec(),
    {
        self.inner.capacity()
    }

    /// The number of bytes that can still be written once the readable bytes
    /// have been moved to the start of the storage.
    pub fn remaining_capacity(&self) -> (n: usize)
        requires
            self.wf(),
        ensures
            n == self.capacity_spec() - self@.len(),
    {
        self.inner.capacity() - self.inner.available_data()
    }

    /// The number of bytes that can be written as the buffer stands.
    pub fn writable_len(&self) -> (n: usize)
        requires
            self.wf(),
        ensures
            n == self.capacity_spec() - self.filled_spec(),
    {
        self.inner.available_space()
    }

    /// Reclaims the space of the consumed bytes. The readable bytes stay.
    pub fn compact(&mut self)
        requires
            old(self).wf(),
        ensures
            final(self).wf(),
            final(self)@ == old(self)@,
            final(self).capacity_spec() == old(self).capacity_spec(),
            final(self).consumed_spec() == 0,
    {
        self.inner.shift();
    }

    /// Writes `bytes` after the readable bytes, as many as fit as the buffer
    /// stands, and returns how many were written.
    pub fn append(&mut self, bytes: &[u8]) -> (n: usize)
        requires
            old(self).wf(),
        ensures
            final(self).wf(),
            n == if bytes@.len() <= old(self).capacity_spec() - old(self).filled_spec() {
                bytes@.len() as int
            } else {
                old(self).capacity_spec() - old(self).filled_spec()
            },
            final(self)@ == old(self)@ + bytes@.take(n as int),
            final(self).capacity_spec() == old(self).capacity_spec(),
            final(self).consumed_spec() == 0 || final(self).consumed_spec() == old(
                self,
            ).consumed_spec(),
    {
        buffer_write(&mut self.inner, bytes)
    }

    /// Drops the first `n` readable bytes, or all of them if there are fewer,
    /// and returns how many it dropped. The consumed offset advances by as
    /// many, or returns to 0 where the storage was compacted.
    pub fn consume(&mut self, n: usize) -> (dropped: usize)
        requires
            old(self).wf(),
        ensures
            final(self).wf(),
            dropped == if n <= old(self)@.len() { n as nat } else { old(self)@.len() },
            final(self)@ == old(self)@.skip(dropped as int),
            final(self).capacity_spec() == old(self).capacity_spec(),
            final(self).consumed_spec() == 0 || final(self).consumed_spec() == old(
                self,
            ).consumed_spec() + dropped,
    {
        self.inner.consume(n)
    }

    /// Enlarges the storage to `new_capacity` unless it is that large
    /// already, and says whether it did. The readable bytes stay.
    pub fn grow(&mut self, new_capacity: usize) -> (grown: bool)
        requires
            old(self).wf(),
            new_capacity <= isize::MAX,
        ensures
            final(self).wf(),
            grown == (old(self).capacity_spec() < new_capacity),
            final(self).capacity_spec() == if grown {
                new_capacity as nat
            } else {
                old(self).capacity_spec()
            },
            final(self)@ == old(self)@,
            final(self).consumed_spec() == old(self).consumed_spec(),
    {
        self.inner.grow(new_capacity)
    }
}

} // verus!
