//! One decoding step: from the state of a dialect's decoder and the bytes at
//! hand to one unit, or to a request for more bytes, or to a rejection.

use crate::blocks::{BlockView, PcapBlock};
use crate::error::{Needed, PcapError};
use crate::pcap::{legacy_frame_step, legacy_header_step, parse_legacy_frame,
    parse_legacy_header, LegacyFormat};
use crate::packet::PacketHeader;
use crate::pcapng::{lemma_block_extends, lemma_section_type_symmetric, parse_block,
    section_block_step};
use vstd::prelude::*;

verus! {

/// The two capture dialects.
#[derive(Debug, Clone, Copy, PartialEq, Eq, Structural)]
pub enum Dialect {
    /// One global header, then packet records.
    Legacy,
    /// A stream of typed, length-framed blocks, grouped into sections.
    Sectioned,
}

/// What a decoder has to remember between two units.
#[derive(Debug, Clone, Copy, PartialEq, Eq, Structural)]
pub enum DecoderState {
    /// Legacy dialect, before the global header.
    LegacyHeader,
    /// Legacy dialect, after the global header: the layout of the records
    /// and the snapshot length that the header declared.
    LegacyRecords { format: LegacyFormat, snaplen: u32 },
    /// Sectioned dialect, before the first section header. `strict` is the
    /// policy on blocks of unknown kind: reject them, or hand them out.
    SectionStart { strict: bool },
    /// Sectioned dialect, inside a section: its byte order and the snapshot
    /// length of the interface declared last (0 before any).
    Section { big_endian: bool, snaplen: u32, strict: bool },
}

impl DecoderState {
    /// The state in which a decoder of the given dialect starts.
    pub open spec fn initial(dialect: Dialect, strict: bool) -> DecoderState {
        match dialect {
            Dialect::Legacy => DecoderState::LegacyHeader,
            Dialect::Sectioned => DecoderState::SectionStart { strict },
        }
    }

    /// The dialect that this state belongs to.
    pub open spec fn dialect(self) -> Dialect {
        match self {
            DecoderState::LegacyHeader | DecoderState::LegacyRecords { .. } => Dialect::Legacy,
            _ => Dialect::Sectioned,
        }
    }

    /// The snapshot length that bounds the records decoded in this state.
    pub open spec fn snaplen(self) -> u32 {
        match self {
            DecoderState::LegacyRecords { snaplen, .. } => snaplen,
            DecoderState::Section { snaplen, .. } => snaplen,
            _ => 0,
        }
    }

    /// The state in which a decoder of the given dialect starts.
    pub fn start(dialect: Dialect, strict: bool) -> (state: DecoderState)
        ensures
            state == DecoderState::initial(dialect, strict),
    {
        match dialect {
            Dialect::Legacy => DecoderState::LegacyHeader,
            Dialect::Sectioned => DecoderState::SectionStart { strict },
        }
    }
}

/// The outcome of decoding a header from the start of an input.
#[derive(Debug, Clone, Copy, PartialEq, Eq, Structural)]
pub enum Parsed<T> {
    /// The header occupies the first `size` bytes.
    Done { size: usize, value: T },
    /// The input ends before the header does.
    Incomplete(Needed),
    /// The input does not begin with such a header.
    Invalid(PcapError),
}

/// The outcome of one decoding step, over the bytes as a sequence.
pub enum Step {
    /// One unit was decoded from the first `size` bytes.
    Unit { size: nat, block: BlockView, next: DecoderState },
    /// The bytes end before the unit does.
    Incomplete(Needed),
    /// The bytes cannot begin a unit of this dialect.
    Invalid(PcapError),
}

/// The outcome of one decoding step.
#[derive(Debug, Clone, PartialEq, Eq)]
pub enum Decode<'a> {
    /// One unit was decoded from the first `size` bytes. `next` is the state
    /// in which to decode what follows them.
    Unit { size: usize, block: PcapBlock<'a>, next: DecoderState },
    /// The bytes end before the unit does.
    Incomplete(Needed),
    /// The bytes cannot begin a unit of this dialect.
    Invalid(PcapError),
}

impl<'a> View for Decode<'a> {
    type V = Step;

    open spec fn view(&self) -> Step {
        match *self {
            Decode::Unit { size, block, next } => Step::Unit { size: size as nat, block: block@, next },
            Decode::Incomplete(needed) => Step::Incomplete(needed),
            Decode::Invalid(error) => Step::Invalid(error),
        }
    }
}

/// What decoding one unit from `input` in `state` gives.
#[verifier::opaque]
pub open spec fn decode_step(state: DecoderState, input: Seq<u8>) -> Step {
    match state {
        DecoderState::LegacyHeader => legacy_header_step(input),
        DecoderState::LegacyRecords { format, snaplen } => legacy_frame_step(
            format,
            snaplen,
            input,
        ),
        _ => section_block_step(state, input),
    }
}

/// Decodes one unit from the start of `input`. Nothing is consumed: the
/// result says how many bytes the unit occupies.
pub fn decode<'a>(state: &DecoderState, input: &'a [u8]) -> (r: Decode<'a>)
    ensures
        r@ == decode_step(*state, input@),
{
    proof {
        reveal(decode_step);
    }
    match state {
        DecoderState::LegacyHeader => parse_legacy_header(input),
        DecoderState::LegacyRecords { format, snaplen } => parse_legacy_frame(
            format,
            *snaplen,
            input,
        ),
        _ => parse_block(state, input),
    }
}

/// Decoding looks at no more bytes than it needs. Let `a` be the start of
/// `b`. A unit decoded from `a`, or a rejection of `a`, is the outcome for
/// `b` too. Where `a` is incomplete, the decoder asks for at least one more
/// byte, and a unit decoded from `b` is at least as long as `a` and what was
/// asked for.
pub proof fn lemma_step_extends(state: DecoderState, a: Seq<u8>, b: Seq<u8>)
    requires
        a.is_prefix_of(b),
    ensures
        decode_step(state, a) is Unit ==> decode_step(state, b) == decode_step(state, a),
        decode_step(state, a) is Invalid ==> decode_step(state, b) == decode_step(state, a),
        decode_step(state, a) matches Step::Incomplete(needed) ==> needed matches Needed::Size(n)
            && n >= 1 && (decode_step(state, b) matches Step::Unit { size, .. } ==> size
            >= a.len() + n),
{
    reveal(decode_step);
    assert(forall|i: int| 0 <= i < a.len() ==> a[i] == b[i]);
    match state {
        DecoderState::LegacyHeader => {},
        DecoderState::LegacyRecords { format, snaplen } => {
            if decode_step(state, a) is Unit {
                let head = format.record_header_size() as int;
                let header = PacketHeader::decoding(a, 0, format.big_endian);
                assert(a.subrange(head, head + header.caplen) =~= b.subrange(
                    head,
                    head + header.caplen,
                ));
            }
        },
        _ => {
            lemma_block_extends(state, a, b);
        },
    }
}

/// What a decoded unit is like: it occupies at least one byte and no more
/// than there are; a data record respects the snapshot length in force; the
/// next state is of the same dialect and holds the snapshot length that
/// follows from the block. A rejection is a structural error.
pub proof fn lemma_step_sound(state: DecoderState, input: Seq<u8>)
    ensures
        decode_step(state, input) matches Step::Unit { size, block, next } ==> 0 < size
            <= input.len() && block.respects(state.snaplen()) && next.dialect()
            == state.dialect() && next.snaplen() == block.snaplen_after(state.snaplen()),
        decode_step(state, input) matches Step::Invalid(error) ==> error.is_structural(),
        input.len() == 0 ==> decode_step(state, input) is Incomplete,
{
    reveal(decode_step);
    lemma_section_type_symmetric(input);
}

} // verus!
