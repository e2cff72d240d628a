//! The streaming reader: a staging buffer, a dialect's decoder, and the
//! protocol that couples "decode one unit", "advance past it" and "take in
//! more bytes".
//!
//! The reader performs no input. Its caller reads from the byte source and
//! hands over what came; the reader decides what that means.

use crate::blocks::{BlockView, PcapBlockOwned};
use crate::buffer::StagingBuffer;
use crate::decoder::{decode, decode_step, lemma_step_extends, lemma_step_sound, Decode,
    DecoderState, Dialect, Step};
use crate::error::PcapError;
use crate::prober::{probe, probe_spec};
use vstd::prelude::*;

verus! {

/// Where a reader stands.
#[derive(Debug, Clone, Copy, PartialEq, Eq, Structural)]
pub enum Status {
    /// Normal operation.
    Active,
    /// The source has ended and every byte has been decoded.
    Exhausted,
    /// The reader failed with the given error and will report it again.
    Fatal(PcapError),
}

/// What a reader is, as far as its behaviour goes.
pub struct ReaderView {
    /// The bytes that have arrived and have not been consumed.
    pub buffered: Seq<u8>,
    /// The capacity of the staging buffer.
    pub capacity: nat,
    /// The state of the decoder.
    pub state: DecoderState,
    /// Whether a unit has been handed out that the caller has yet to
    /// consume.
    pub awaiting: bool,
    /// Whether the last read from the source returned no byte.
    pub source_exhausted: bool,
    pub status: Status,
}

impl ReaderView {
    /// The invariant of a reader.
    pub open spec fn wf(self) -> bool {
        &&& self.buffered.len() <= self.capacity <= usize::MAX
        &&& self.awaiting ==> self.status is Active && decode_step(self.state, self.buffered)
            is Unit
    }

    /// A reader of the given capacity that has taken in `first` and is about
    /// to decode the first unit of `dialect`.
    pub open spec fn fresh(capacity: nat, first: Seq<u8>, dialect: Dialect, strict: bool) -> ReaderView {
        ReaderView {
            buffered: first,
            capacity,
            state: DecoderState::initial(dialect, strict),
            awaiting: false,
            source_exhausted: false,
            status: Status::Active,
        }
    }

    /// What `next` returns, and the reader after it.
    pub open spec fn next_spec(self) -> (ReaderView, Result<(nat, BlockView), PcapError>) {
        match self.status {
            Status::Exhausted => (self, Err(PcapError::Eof)),
            Status::Fatal(error) => (self, Err(error)),
            Status::Active => if self.buffered.len() == 0 && self.source_exhausted {
                (
                    ReaderView { status: Status::Exhausted, awaiting: false, ..self },
                    Err(PcapError::Eof),
                )
            } else {
                match decode_step(self.state, self.buffered) {
                    Step::Unit { size, block, .. } => (
                        ReaderView { awaiting: true, ..self },
                        Ok((size, block)),
                    ),
                    Step::Invalid(error) => (
                        ReaderView { status: Status::Fatal(error), awaiting: false, ..self },
                        Err(error),
                    ),
                    Step::Incomplete(needed) => if self.source_exhausted {
                        (
                            ReaderView {
                                status: Status::Fatal(PcapError::UnexpectedEof),
                                awaiting: false,
                                ..self
                            },
                            Err(PcapError::UnexpectedEof),
                        )
                    } else if self.buffered.len() + needed.at_least_spec() > self.capacity {
                        (ReaderView { awaiting: false, ..self }, Err(PcapError::BufferTooSmall))
                    } else {
                        (
                            ReaderView { awaiting: false, ..self },
                            Err(PcapError::Incomplete(needed.hint_spec())),
                        )
                    },
                }
            },
        }
    }

    /// The reader after `consume(n)`: past the unit that was handed out, if
    /// `n` is its size; unchanged otherwise.
    pub open spec fn after_consume(self, n: nat) -> ReaderView {
        if self.awaiting {
            match decode_step(self.state, self.buffered) {
                Step::Unit { size, next, .. } => if n == size {
                    ReaderView {
                        buffered: self.buffered.skip(size as int),
                        state: next,
                        awaiting: false,
                        ..self
                    }
                } else {
                    self
                },
                _ => self,
            }
        } else {
            self
        }
    }

    /// The most bytes that the reader takes in one refill: the free space of
    /// the staging buffer while the reader is active, none afterwards.
    pub open spec fn wanted(self) -> nat {
        if self.status is Active {
            (self.capacity - self.buffered.len()) as nat
        } else {
            0
        }
    }

    /// What `refill` returns, and the reader after it, where `chunk` is what
    /// the read from the source gave (`None`: the read failed).
    pub open spec fn refill_spec(self, chunk: Option<Seq<u8>>) -> (ReaderView, Result<
        (),
        PcapError,
    >) {
        if !(self.status is Active) {
            (self, Ok(()))
        } else {
            match chunk {
                None => (
                    ReaderView {
                        status: Status::Fatal(PcapError::ReadError),
                        awaiting: false,
                        ..self
                    },
                    Err(PcapError::ReadError),
                ),
                Some(bytes) => if self.wanted() == 0 {
                    (self, Ok(()))
                } else if bytes.len() == 0 {
                    (ReaderView { source_exhausted: true, ..self }, Ok(()))
                } else {
                    (
                        ReaderView {
                            buffered: self.buffered + bytes,
                            source_exhausted: false,
                            ..self
                        },
                        Ok(()),
                    )
                },
            }
        }
    }

    /// The reader after `grow(new_capacity)`.
    pub open spec fn after_grow(self, new_capacity: nat) -> ReaderView {
        if self.capacity < new_capacity {
            ReaderView { capacity: new_capacity, ..self }
        } else {
            self
        }
    }
}

/// A streaming reader of a capture in either dialect.
#[derive(Debug)]
pub struct PcapReader {
    buffer: StagingBuffer,
    state: DecoderState,
    /// The size of the unit that `next` handed out last and the decoder
    /// state after it, until the unit is consumed.
    pending: Option<(usize, DecoderState)>,
    source_exhausted: bool,
    status: Status,
}

impl View for PcapReader {
    type V = ReaderView;

    closed spec fn view(&self) -> ReaderView {
        ReaderView {
            buffered: self.buffer@,
            capacity: self.buffer.capacity_spec(),
            state: self.state,
            awaiting: self.pending is Some,
            source_exhausted: self.source_exhausted,
            status: self.status,
        }
    }
}

impl PcapReader {
    /// The invariant of a reader: that of its buffer, and a pending unit is
    /// the one that decoding the buffered bytes gives.
    pub closed spec fn wf(&self) -> bool {
        &&& self.buffer.wf()
        &&& self.pending matches Some((size, next)) ==> self.status is Active && (decode_step(
            self.state,
            self.buffer@,
        ) matches Step::Unit { size: unit, next: after, .. } && unit == size && after == next)
    }

    /// The invariant carries over to the view.
    pub proof fn lemma_view_wf(&self)
        requires
            self.wf(),
        ensures
            self@.wf(),
    {
        self.buffer.lemma_bounds();
    }

    /// Builds a reader from the outcome of the first read from the source:
    /// `None` if the read failed, else the bytes it gave. A failed read is a
    /// `ReadError`, no byte at all is `Eof`, and otherwise the dialect is
    /// detected from the bytes, with the failures of detection passed on.
    /// `strict` is the policy on blocks of unknown kind.
    pub fn new(capacity: usize, first: Option<&[u8]>, strict: bool) -> (r: Result<
        PcapReader,
        PcapError,
    >)
        requires
            capacity <= isize::MAX,
            first matches Some(bytes) ==> bytes@.len() <= capacity,
        ensures
            first is None ==> r == Err::<PcapReader, PcapError>(PcapError::ReadError),
            first matches Some(bytes) ==> match r {
                Ok(reader) => bytes@.len() > 0 && (probe_spec(bytes@) matches Ok(dialect)
                    && reader@ == ReaderView::fresh(capacity as nat, bytes@, dialect, strict))
                    && reader.wf(),
                Err(error) => if bytes@.len() == 0 {
                    error == PcapError::Eof
                } else {
                    probe_spec(bytes@) == Err::<Dialect, PcapError>(error)
                },
            },
    {
        let bytes = match first {
            None => {
                return Err(PcapError::ReadError);
            },
            Some(bytes) => bytes,
        };
        if bytes.len() == 0 {
            return Err(PcapError::Eof);
        }
        let mut buffer = StagingBuffer::with_capacity(capacity);
        buffer.append(bytes);
        assert(buffer@ =~= bytes@);
        match probe(buffer.readable()) {
            Ok(dialect) => Ok(
                PcapReader {
                    buffer,
                    state: DecoderState::start(dialect, strict),
                    pending: None,
                    source_exhausted: false,
                    status: Status::Active,
                },
            ),
            Err(error) => Err(error),
        }
    }

    /// Decodes the next unit from the buffered bytes without advancing past
    /// it. `Ok` carries the size of the unit, to be passed to `consume`, and
    /// the unit. `Incomplete` asks for a refill. `Eof` says that the source
    /// has ended and nothing is left. Any other error is final, except
    /// `BufferTooSmall`, after which the caller may `grow` the reader.
    pub fn next(&mut self) -> (r: Result<(usize, PcapBlockOwned), PcapError>)
        requires
            old(self).wf(),
        ensures
            final(self).wf(),
            final(self)@ == old(self)@.next_spec().0,
            match r {
                Ok((size, block)) => old(self)@.next_spec().1 == Ok::<
                    (nat, BlockView),
                    PcapError,
                >((size as nat, block@)) && block@.respects(old(self)@.state.snaplen()),
                Err(error) => old(self)@.next_spec().1 == Err::<(nat, BlockView), PcapError>(
                    error,
                ),
            },
    {
        match self.status {
            Status::Exhausted => {
                return Err(PcapError::Eof);
            },
            Status::Fatal(error) => {
                return Err(error);
            },
            Status::Active => {},
        }
        proof {
            self.buffer.lemma_bounds();
            lemma_step_sound(self.state, self.buffer@);
        }
        let held = self.buffer.len();
        if held == 0 && self.source_exhausted {
            self.pending = None;
            self.status = Status::Exhausted;
            return Err(PcapError::Eof);
        }
        let free = self.buffer.capacity() - held;
        match decode(&self.state, self.buffer.readable()) {
            Decode::Unit { size, block, next } => {
                let owned = PcapBlockOwned::from_block(&block);
                self.pending = Some((size, next));
                Ok((size, owned))
            },
            Decode::Invalid(error) => {
                self.pending = None;
                self.status = Status::Fatal(error);
                Err(error)
            },
            Decode::Incomplete(needed) => {
                self.pending = None;
                if self.source_exhausted {
                    self.status = Status::Fatal(PcapError::UnexpectedEof);
                    Err(PcapError::UnexpectedEof)
                } else if needed.at_least() > free {
                    Err(PcapError::BufferTooSmall)
                } else {
                    Err(PcapError::Incomplete(needed.hint()))
                }
            },
        }
    }

    /// Advances past the unit that `next` handed out last. `n` must be the
    /// size that `next` returned with it; with any other value, or with no
    /// unit handed out, nothing happens.
    pub fn consume(&mut self, n: usize)
        requires
            old(self).wf(),
        ensures
            final(self).wf(),
            final(self)@ == old(self)@.after_consume(n as nat),
    {
        match self.pending {
            Some((size, next)) => {
                if n == size {
                    proof {
                        lemma_step_sound(self.state, self.buffer@);
                    }
                    self.buffer.consume(n);
                    self.state = next;
                    self.pending = None;
                }
            },
            None => {},
        }
    }

    /// The most bytes that the next `refill` takes. The caller reads up to
    /// this many bytes from the source; where it is 0, there is nothing to
    /// read for.
    pub fn wanted(&self) -> (n: usize)
        requires
            self.wf(),
        ensures
            n == self@.wanted(),
    {
        match self.status {
            Status::Active => self.buffer.remaining_capacity(),
            _ => 0,
        }
    }

    /// Takes in the outcome of a read from the source: `None` if the read
    /// failed, else the bytes it gave, which are no more than `wanted()`. A
    /// failed read is a `ReadError`, and final. No byte, where some were
    /// wanted, marks the source as exhausted. Bytes are appended to the
    /// buffered ones.
    pub fn refill(&mut self, chunk: Option<&[u8]>) -> (r: Result<(), PcapError>)
        requires
            old(self).wf(),
            chunk matches Some(bytes) ==> bytes@.len() <= old(self)@.wanted(),
        ensures
            final(self).wf(),
            final(self)@ == old(self)@.refill_spec(
                match chunk {
                    Some(bytes) => Some(bytes@),
                    None => None,
                },
            ).0,
            r == old(self)@.refill_spec(
                match chunk {
                    Some(bytes) => Some(bytes@),
                    None => None,
                },
            ).1,
    {
        match self.status {
            Status::Active => {},
            _ => {
                return Ok(());
            },
        }
        let bytes = match chunk {
            None => {
                self.pending = None;
                self.status = Status::Fatal(PcapError::ReadError);
                return Err(PcapError::ReadError);
            },
            Some(bytes) => bytes,
        };
        if self.buffer.remaining_capacity() == 0 {
            return Ok(());
        }
        if bytes.len() == 0 {
            self.source_exhausted = true;
            return Ok(());
        }
        let ghost before = self.buffer@;
        self.buffer.compact();
        let taken = self.buffer.append(bytes);
        proof {
            assert(bytes@.take(taken as int) =~= bytes@);
            assert(before.is_prefix_of(self.buffer@));
            lemma_step_extends(self.state, before, self.buffer@);
        }
        self.source_exhausted = false;
        Ok(())
    }

    /// Enlarges the staging buffer to `new_capacity` unless it is that large
    /// already, and says whether it did.
    pub fn grow(&mut self, new_capacity: usize) -> (grown: bool)
        requires
            old(self).wf(),
            new_capacity <= isize::MAX,
        ensures
            final(self).wf(),
            final(self)@ == old(self)@.after_grow(new_capacity as nat),
            grown == (old(self)@.capacity < new_capacity),
    {
        self.buffer.grow(new_capacity)
    }

    /// The bytes that have arrived and have not been consumed.
    pub fn data(&self) -> (bytes: &[u8])
        requires
            self.wf(),
        ensures
            bytes@ == self@.buffered,
    {
        self.buffer.readable()
    }

    /// Where the reader stands.
    pub fn status(&self) -> (status: Status)
        ensures
            status == self@.status,
    {
        self.status
    }

    /// Whether the last read from the source returned no byte.
    pub fn reader_exhausted(&self) -> (exhausted: bool)
        ensures
            exhausted == self@.source_exhausted,
    {
        self.source_exhausted
    }

    /// The state of the decoder: the dialect, and what the headers decoded
    /// so far have declared.
    pub fn decoder_state(&self) -> (state: DecoderState)
        ensures
            state == self@.state,
    {
        self.state
    }
}

} // verus!
