//! The sectioned dialect: a stream of blocks, each framed by its type code,
//! its total length, its body, and its total length once more.

use crate::blocks::{BlockView, PcapBlock};
use crate::decoder::{Decode, DecoderState, Parsed, Step};
use crate::endian::{compose_u32, read_u16, read_u32, u16_at, u32_at};
use crate::error::{Needed, PcapError};
use crate::packet::{Linktype, Packet, PacketHeader};
use vstd::prelude::*;
use vstd::slice::slice_subrange;

verus! {

/// Type code of a section header block. It reads the same in both byte
/// orders.
pub const BLOCK_SECTION_HEADER: u32 = 0x0A0D_0D0A;

/// Type code of an interface description block.
pub const BLOCK_INTERFACE_DESCRIPTION: u32 = 1;

/// Type code of a simple packet block.
pub const BLOCK_SIMPLE_PACKET: u32 = 3;

/// Type code of a name resolution block.
pub const BLOCK_NAME_RESOLUTION: u32 = 4;

/// Type code of an interface statistics block.
pub const BLOCK_INTERFACE_STATISTICS: u32 = 5;

/// Type code of an enhanced packet block.
pub const BLOCK_ENHANCED_PACKET: u32 = 6;

/// The marker in a section header whose byte order is that of the section.
pub const BYTE_ORDER_MAGIC: u32 = 0x1A2B_3C4D;

/// The framing of a block: type code, total length, and total length again.
pub const BLOCK_FRAMING_SIZE: usize = 12;

/// What a section header declares.
#[derive(Debug, Clone, Copy, PartialEq, Eq, Structural)]
pub struct SectionHeader {
    /// Whether the section stores multi-byte fields most significant byte
    /// first.
    pub big_endian: bool,
    pub major_version: u16,
    pub minor_version: u16,
}

/// Whether the type code is one that this reader knows.
pub open spec fn known_block_type(block_type: u32) -> bool {
    block_type == BLOCK_SECTION_HEADER || block_type == BLOCK_INTERFACE_DESCRIPTION
        || block_type == BLOCK_SIMPLE_PACKET || block_type == BLOCK_NAME_RESOLUTION
        || block_type == BLOCK_INTERFACE_STATISTICS || block_type == BLOCK_ENHANCED_PACKET
}

/// The least total length of a block of the given type: the framing, and
/// the fixed fields of the kinds that this reader decodes.
pub open spec fn min_block_len(block_type: u32) -> u32 {
    if block_type == BLOCK_SECTION_HEADER {
        28
    } else if block_type == BLOCK_INTERFACE_DESCRIPTION {
        20
    } else if block_type == BLOCK_ENHANCED_PACKET {
        32
    } else {
        12
    }
}

/// The byte order that the marker at offset 8 of a section header gives.
pub open spec fn section_byte_order(input: Seq<u8>) -> Option<bool>
    recommends
        input.len() >= 12,
{
    if u32_at(input, 8, false) == BYTE_ORDER_MAGIC {
        Some(false)
    } else if u32_at(input, 8, true) == BYTE_ORDER_MAGIC {
        Some(true)
    } else {
        None
    }
}

/// The framing of the block at the start of `input`: its total length, once
/// the whole block is there and the length that ends it equals the length
/// that begins it.
pub open spec fn block_frame(input: Seq<u8>, big_endian: bool, min_len: u32) -> Parsed<u32> {
    if input.len() < 12 {
        Parsed::Incomplete(Needed::Size((12 - input.len()) as usize))
    } else {
        let total = u32_at(input, 4, big_endian);
        if total < min_len || total < 12 || total % 4 != 0 {
            Parsed::Invalid(PcapError::InvalidBlockLength)
        } else if input.len() < total {
            Parsed::Incomplete(Needed::Size((total - input.len()) as usize))
        } else if u32_at(input, total - 4, big_endian) != total {
            Parsed::Invalid(PcapError::BlockLengthMismatch)
        } else {
            Parsed::Done { size: total as usize, value: total }
        }
    }
}

/// What decoding a section header block from `input` gives.
pub open spec fn section_header(input: Seq<u8>) -> Parsed<SectionHeader> {
    if input.len() < 4 {
        Parsed::Incomplete(Needed::Size((4 - input.len()) as usize))
    } else if u32_at(input, 0, false) != BLOCK_SECTION_HEADER {
        Parsed::Invalid(PcapError::HeaderNotRecognized)
    } else if input.len() < 12 {
        Parsed::Incomplete(Needed::Size((12 - input.len()) as usize))
    } else {
        match section_byte_order(input) {
            None => Parsed::Invalid(PcapError::HeaderNotRecognized),
            Some(big_endian) => match block_frame(input, big_endian, 28) {
                Parsed::Done { size, .. } => Parsed::Done {
                    size,
                    value: SectionHeader {
                        big_endian,
                        major_version: u16_at(input, 12, big_endian),
                        minor_version: u16_at(input, 14, big_endian),
                    },
                },
                Parsed::Incomplete(needed) => Parsed::Incomplete(needed),
                Parsed::Invalid(error) => Parsed::Invalid(error),
            },
        }
    }
}

/// The body of a block of `total` bytes: what lies between the leading type
/// code and length and the trailing length.
pub open spec fn block_body(input: Seq<u8>, total: int) -> Seq<u8> {
    input.subrange(8, total - 4)
}

/// The policy bit of a sectioned decoder state.
pub open spec fn strictness(state: DecoderState) -> bool {
    match state {
        DecoderState::SectionStart { strict } => strict,
        DecoderState::Section { strict, .. } => strict,
        _ => false,
    }
}

/// A block other than a section header, inside a section.
pub open spec fn inner_block_step(
    big_endian: bool,
    snaplen: u32,
    strict: bool,
    input: Seq<u8>,
) -> Step
    recommends
        input.len() >= 4,
{
    let block_type = u32_at(input, 0, big_endian);
    let same = DecoderState::Section { big_endian, snaplen, strict };
    if strict && !known_block_type(block_type) {
        Step::Invalid(PcapError::UnknownBlockType)
    } else {
        match block_frame(input, big_endian, min_block_len(block_type)) {
            Parsed::Incomplete(needed) => Step::Incomplete(needed),
            Parsed::Invalid(error) => Step::Invalid(error),
            Parsed::Done { size, value: total } => if block_type
                == BLOCK_INTERFACE_DESCRIPTION {
                let declared = u32_at(input, 12, big_endian);
                Step::Unit {
                    size: size as nat,
                    block: BlockView::DialectHeader {
                        linktype: Linktype(u16_at(input, 8, big_endian) as i32),
                        snaplen: declared,
                    },
                    next: DecoderState::Section { big_endian, snaplen: declared, strict },
                }
            } else if block_type == BLOCK_ENHANCED_PACKET {
                let header = PacketHeader::decoding(input, 12, big_endian);
                if !header.within(snaplen) || 32 + header.caplen > total {
                    Step::Invalid(PcapError::InvalidCapturedLength)
                } else {
                    Step::Unit {
                        size: size as nat,
                        block: BlockView::DataRecord {
                            header,
                            data: input.subrange(28, 28 + header.caplen),
                        },
                        next: same,
                    }
                }
            } else {
                Step::Unit {
                    size: size as nat,
                    block: BlockView::OpaqueBlock {
                        block_type,
                        payload: block_body(input, total as int),
                    },
                    next: same,
                }
            },
        }
    }
}

/// One block of a sectioned capture. A section header opens a section: it
/// sets the byte order and withdraws the snapshot length. The first block of
/// a capture must be one. An interface description declares the snapshot
/// length for the records after it. An enhanced packet is a data record and
/// must respect that length. Any other block is handed out as it is, or
/// rejected under the strict policy if its type is unknown.
pub open spec fn section_block_step(state: DecoderState, input: Seq<u8>) -> Step {
    if input.len() < 4 {
        Step::Incomplete(Needed::Size((4 - input.len()) as usize))
    } else if u32_at(input, 0, false) == BLOCK_SECTION_HEADER {
        match section_header(input) {
            Parsed::Done { size, value } => Step::Unit {
                size: size as nat,
                block: BlockView::OpaqueBlock {
                    block_type: BLOCK_SECTION_HEADER,
                    payload: block_body(input, size as int),
                },
                next: DecoderState::Section {
                    big_endian: value.big_endian,
                    snaplen: 0,
                    strict: strictness(state),
                },
            },
            Parsed::Incomplete(needed) => Step::Incomplete(needed),
            Parsed::Invalid(error) => Step::Invalid(error),
        }
    } else {
        match state {
            DecoderState::Section { big_endian, snaplen, strict } => inner_block_step(
                big_endian,
                snaplen,
                strict,
                input,
            ),
            _ => Step::Invalid(PcapError::HeaderNotRecognized),
        }
    }
}

/// The type code of a section header reads the same in both byte orders, so
/// a block is one in either reading or in neither.
pub proof fn lemma_section_type_symmetric(input: Seq<u8>)
    ensures
        u32_at(input, 0, true) == BLOCK_SECTION_HEADER <==> u32_at(input, 0, false)
            == BLOCK_SECTION_HEADER,
{
    reveal(compose_u32);
}

/// Decoding a block looks at no more bytes than it needs: see
/// `lemma_step_extends`, of which this is the part for the sectioned dialect.
pub proof fn lemma_block_extends(state: DecoderState, a: Seq<u8>, b: Seq<u8>)
    requires
        a.is_prefix_of(b),
    ensures
        section_block_step(state, a) is Unit ==> section_block_step(state, b)
            == section_block_step(state, a),
        section_block_step(state, a) is Invalid ==> section_block_step(state, b)
            == section_block_step(state, a),
        section_block_step(state, a) matches Step::Incomplete(needed) ==> needed matches Needed::Size(
            n,
        ) && n >= 1 && (section_block_step(state, b) matches Step::Unit { size, .. } ==> size
            >= a.len() + n),
{
    assert(forall|i: int| 0 <= i < a.len() ==> a[i] == b[i]);
    match section_block_step(state, a) {
        Step::Unit { size, block, .. } => {
            assert(block_body(a, size as int) =~= block_body(b, size as int));
            match block {
                BlockView::DataRecord { header, .. } => {
                    assert(a.subrange(28, 28 + header.caplen) =~= b.subrange(
                        28,
                        28 + header.caplen,
                    ));
                },
                _ => {},
            }
        },
        _ => {},
    }
}

/// Whether the type code is one that this reader knows.
pub fn is_known_block_type(block_type: u32) -> (known: bool)
    ensures
        known == known_block_type(block_type),
{
    block_type == BLOCK_SECTION_HEADER || block_type == BLOCK_INTERFACE_DESCRIPTION
        || block_type == BLOCK_SIMPLE_PACKET || block_type == BLOCK_NAME_RESOLUTION
        || block_type == BLOCK_INTERFACE_STATISTICS || block_type == BLOCK_ENHANCED_PACKET
}

/// Checks the framing of the block at the start of `input`.
fn parse_block_frame(input: &[u8], big_endian: bool, min_len: u32) -> (r: Parsed<u32>)
    ensures
        r == block_frame(input@, big_endian, min_len),
{
    if input.len() < BLOCK_FRAMING_SIZE {
        return Parsed::Incomplete(Needed::Size(BLOCK_FRAMING_SIZE - input.len()));
    }
    let total = read_u32(input, 4, big_endian);
    if total < min_len || total < 12 || total % 4 != 0 {
        return Parsed::Invalid(PcapError::InvalidBlockLength);
    }
    let size = total as usize;
    if input.len() < size {
        return Parsed::Incomplete(Needed::Size(size - input.len()));
    }
    if read_u32(input, size - 4, big_endian) != total {
        return Parsed::Invalid(PcapError::BlockLengthMismatch);
    }
    Parsed::Done { size, value: total }
}

/// Decodes a section header block from the start of `input`.
pub fn parse_sectionheaderblock(input: &[u8]) -> (r: Parsed<SectionHeader>)
    ensures
        r == section_header(input@),
{
    if input.len() < 4 {
        return Parsed::Incomplete(Needed::Size(4 - input.len()));
    }
    if read_u32(input, 0, false) != BLOCK_SECTION_HEADER {
        return Parsed::Invalid(PcapError::HeaderNotRecognized);
    }
    if input.len() < BLOCK_FRAMING_SIZE {
        return Parsed::Incomplete(Needed::Size(BLOCK_FRAMING_SIZE - input.len()));
    }
    let big_endian = if read_u32(input, 8, false) == BYTE_ORDER_MAGIC {
        false
    } else if read_u32(input, 8, true) == BYTE_ORDER_MAGIC {
        true
    } else {
        return Parsed::Invalid(PcapError::HeaderNotRecognized);
    };
    match parse_block_frame(input, big_endian, 28) {
        Parsed::Done { size, .. } => Parsed::Done {
            size,
            value: SectionHeader {
                big_endian,
                major_version: read_u16(input, 12, big_endian),
                minor_version: read_u16(input, 14, big_endian),
            },
        },
        Parsed::Incomplete(needed) => Parsed::Incomplete(needed),
        Parsed::Invalid(error) => Parsed::Invalid(error),
    }
}

/// The least total length of a block of the given type.
fn least_block_len(block_type: u32) -> (n: u32)
    ensures
        n == min_block_len(block_type),
{
    if block_type == BLOCK_SECTION_HEADER {
        28
    } else if block_type == BLOCK_INTERFACE_DESCRIPTION {
        20
    } else if block_type == BLOCK_ENHANCED_PACKET {
        32
    } else {
        12
    }
}

/// Decodes a block other than a section header.
fn parse_inner_block<'a>(big_endian: bool, snaplen: u32, strict: bool, input: &'a [u8]) -> (r:
    Decode<'a>)
    requires
        input.len() >= 4,
    ensures
        r@ == inner_block_step(big_endian, snaplen, strict, input@),
{
    let block_type = read_u32(input, 0, big_endian);
    if strict && !is_known_block_type(block_type) {
        return Decode::Invalid(PcapError::UnknownBlockType);
    }
    match parse_block_frame(input, big_endian, least_block_len(block_type)) {
        Parsed::Incomplete(needed) => Decode::Incomplete(needed),
        Parsed::Invalid(error) => Decode::Invalid(error),
        Parsed::Done { size, value: total } => {
            if block_type == BLOCK_INTERFACE_DESCRIPTION {
                let declared = read_u32(input, 12, big_endian);
                Decode::Unit {
                    size,
                    block: PcapBlock::DialectHeader {
                        linktype: Linktype(read_u16(input, 8, big_endian) as i32),
                        snaplen: declared,
                    },
                    next: DecoderState::Section { big_endian, snaplen: declared, strict },
                }
            } else if block_type == BLOCK_ENHANCED_PACKET {
                let header = PacketHeader::read(input, 12, big_endian);
                if header.caplen > header.len || header.caplen > snaplen || header.caplen
                    > total - 32 {
                    return Decode::Invalid(PcapError::InvalidCapturedLength);
                }
                Decode::Unit {
                    size,
                    block: PcapBlock::DataRecord(
                        Packet {
                            header,
                            data: slice_subrange(input, 28, 28 + header.caplen as usize),
                        },
                    ),
                    next: DecoderState::Section { big_endian, snaplen, strict },
                }
            } else {
                Decode::Unit {
                    size,
                    block: PcapBlock::OpaqueBlock {
                        block_type,
                        payload: slice_subrange(input, 8, size - 4),
                    },
                    next: DecoderState::Section { big_endian, snaplen, strict },
                }
            }
        },
    }
}

/// Decodes one block of a sectioned capture.
pub fn parse_block<'a>(state: &DecoderState, input: &'a [u8]) -> (r: Decode<'a>)
    ensures
        r@ == section_block_step(*state, input@),
{
    if input.len() < 4 {
        return Decode::Incomplete(Needed::Size(4 - input.len()));
    }
    if read_u32(input, 0, false) == BLOCK_SECTION_HEADER {
        let strict = match state {
            DecoderState::SectionStart { strict } => *strict,
            DecoderState::Section { strict, .. } => *strict,
            _ => false,
        };
        return match parse_sectionheaderblock(input) {
            Parsed::Done { size, value } => Decode::Unit {
                size,
                block: PcapBlock::OpaqueBlock {
                    block_type: BLOCK_SECTION_HEADER,
                    payload: slice_subrange(input, 8, size - 4),
                },
                next: DecoderState::Section { big_endian: value.big_endian, snaplen: 0, strict },
            },
            Parsed::Incomplete(needed) => Decode::Incomplete(needed),
            Parsed::Invalid(error) => Decode::Invalid(error),
        };
    }
    match state {
        DecoderState::Section { big_endian, snaplen, strict } => parse_inner_block(
            *big_endian,
            *snaplen,
            *strict,
            input,
        ),
        _ => Decode::Invalid(PcapError::HeaderNotRecognized),
    }
}

} // verus!
