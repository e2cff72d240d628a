//! The legacy dialect: one global header, then packet records.

use crate::blocks::{BlockView, PcapBlock};
use crate::decoder::{Decode, DecoderState, Parsed, Step};
use crate::endian::{as_signed, read_u16, read_u32, to_signed, u16_at, u32_at};
use crate::error::{Needed, PcapError};
use crate::packet::{Linktype, Packet, PacketHeader};
use vstd::prelude::*;
use vstd::slice::slice_subrange;

verus! {

/// Magic number of a capture with microsecond timestamps.
pub const MAGIC_MICROSECOND: u32 = 0xA1B2_C3D4;

/// Magic number of a capture with nanosecond timestamps.
pub const MAGIC_NANOSECOND: u32 = 0xA1B2_3C4D;

/// Magic number of a capture in the modified layout, whose record headers
/// carry eight more bytes.
pub const MAGIC_MODIFIED: u32 = 0xA1B2_CD34;

/// The size of the global header.
pub const GLOBAL_HEADER_SIZE: usize = 24;

/// The layout variant of a legacy capture, as its magic number gives it.
#[derive(Debug, Clone, Copy, PartialEq, Eq, Structural)]
pub struct LegacyFormat {
    /// Whether multi-byte fields are stored most significant byte first.
    pub big_endian: bool,
    /// Whether the fraction of a timestamp counts nanoseconds, not
    /// microseconds.
    pub nanosecond: bool,
    /// Whether record headers have the modified, longer layout.
    pub modified: bool,
}

impl LegacyFormat {
    /// The size of a record header in this layout.
    pub open spec fn record_header_size(self) -> nat {
        if self.modified {
            24
        } else {
            16
        }
    }

    /// The size of a record header in this layout.
    pub fn header_size(&self) -> (n: usize)
        ensures
            n == self.record_header_size(),
    {
        if self.modified {
            24
        } else {
            16
        }
    }
}

/// The layout that a magic number stands for, read in some byte order.
pub open spec fn format_of_magic(magic: u32, big_endian: bool) -> Option<LegacyFormat> {
    if magic == MAGIC_MICROSECOND {
        Some(LegacyFormat { big_endian, nanosecond: false, modified: false })
    } else if magic == MAGIC_NANOSECOND {
        Some(LegacyFormat { big_endian, nanosecond: true, modified: false })
    } else if magic == MAGIC_MODIFIED {
        Some(LegacyFormat { big_endian, nanosecond: false, modified: true })
    } else {
        None
    }
}

/// The layout that the first four bytes of `input` announce: they are a
/// known magic number in one of the two byte orders, or the input is no
/// legacy capture.
pub open spec fn legacy_format(input: Seq<u8>) -> Option<LegacyFormat>
    recommends
        input.len() >= 4,
{
    match format_of_magic(u32_at(input, 0, false), false) {
        Some(format) => Some(format),
        None => format_of_magic(u32_at(input, 0, true), true),
    }
}

/// The global header of a legacy capture.
#[derive(Debug, Clone, Copy, PartialEq, Eq, Structural)]
pub struct PcapHeader {
    pub format: LegacyFormat,
    pub version_major: u16,
    pub version_minor: u16,
    /// Offset of the timestamps from UTC, in seconds.
    pub thiszone: i32,
    /// Accuracy of the timestamps.
    pub sigfigs: u32,
    /// Snapshot length: the most bytes that a record may carry.
    pub snaplen: u32,
    /// Link type of the packets.
    pub network: Linktype,
}

impl PcapHeader {
    /// The header that the first 24 bytes of `input` encode in the given
    /// layout.
    pub open spec fn decoding(input: Seq<u8>, format: LegacyFormat) -> PcapHeader
        recommends
            input.len() >= 24,
    {
        PcapHeader {
            format,
            version_major: u16_at(input, 4, format.big_endian),
            version_minor: u16_at(input, 6, format.big_endian),
            thiszone: as_signed(u32_at(input, 8, format.big_endian)),
            sigfigs: u32_at(input, 12, format.big_endian),
            snaplen: u32_at(input, 16, format.big_endian),
            network: Linktype(as_signed(u32_at(input, 20, format.big_endian))),
        }
    }

    /// The block that stands for this header in the sequence of blocks.
    pub open spec fn block(self) -> BlockView {
        BlockView::DialectHeader { linktype: self.network, snaplen: self.snaplen }
    }

    /// The state in which the records after this header are decoded.
    pub open spec fn records(self) -> DecoderState {
        DecoderState::LegacyRecords { format: self.format, snaplen: self.snaplen }
    }
}

/// What decoding the global header from `input` gives: it needs four bytes
/// to recognize the magic number and 24 for the whole header.
pub open spec fn pcap_header(input: Seq<u8>) -> Parsed<PcapHeader> {
    if input.len() < 4 {
        Parsed::Incomplete(Needed::Size((4 - input.len()) as usize))
    } else {
        match legacy_format(input) {
            None => Parsed::Invalid(PcapError::HeaderNotRecognized),
            Some(format) => if input.len() < 24 {
                Parsed::Incomplete(Needed::Size((24 - input.len()) as usize))
            } else {
                Parsed::Done { size: 24, value: PcapHeader::decoding(input, format) }
            },
        }
    }
}

/// The first unit of a legacy capture: its global header.
pub open spec fn legacy_header_step(input: Seq<u8>) -> Step {
    match pcap_header(input) {
        Parsed::Done { size, value } => Step::Unit {
            size: size as nat,
            block: value.block(),
            next: value.records(),
        },
        Parsed::Incomplete(needed) => Step::Incomplete(needed),
        Parsed::Invalid(error) => Step::Invalid(error),
    }
}

/// Any later unit of a legacy capture: a record header, then as many bytes
/// as its captured length says. A record whose captured length exceeds its
/// original length or the snapshot length is rejected as soon as its header
/// can be read.
pub open spec fn legacy_frame_step(format: LegacyFormat, snaplen: u32, input: Seq<u8>) -> Step {
    let head = format.record_header_size();
    if input.len() < head {
        Step::Incomplete(Needed::Size((head - input.len()) as usize))
    } else {
        let header = PacketHeader::decoding(input, 0, format.big_endian);
        if !header.within(snaplen) {
            Step::Invalid(PcapError::InvalidCapturedLength)
        } else if input.len() < head + header.caplen {
            Step::Incomplete(Needed::Size((head + header.caplen - input.len()) as usize))
        } else {
            Step::Unit {
                size: head + header.caplen as nat,
                block: BlockView::DataRecord {
                    header,
                    data: input.subrange(head as int, head + header.caplen),
                },
                next: DecoderState::LegacyRecords { format, snaplen },
            }
        }
    }
}

/// Recognizes the magic number at the start of `input`.
fn detect_format(input: &[u8]) -> (r: Option<LegacyFormat>)
    requires
        input.len() >= 4,
    ensures
        r == legacy_format(input@),
{
    let le = read_u32(input, 0, false);
    if le == MAGIC_MICROSECOND {
        Some(LegacyFormat { big_endian: false, nanosecond: false, modified: false })
    } else if le == MAGIC_NANOSECOND {
        Some(LegacyFormat { big_endian: false, nanosecond: true, modified: false })
    } else if le == MAGIC_MODIFIED {
        Some(LegacyFormat { big_endian: false, nanosecond: false, modified: true })
    } else {
        let be = read_u32(input, 0, true);
        if be == MAGIC_MICROSECOND {
            Some(LegacyFormat { big_endian: true, nanosecond: false, modified: false })
        } else if be == MAGIC_NANOSECOND {
            Some(LegacyFormat { big_endian: true, nanosecond: true, modified: false })
        } else if be == MAGIC_MODIFIED {
            Some(LegacyFormat { big_endian: true, nanosecond: false, modified: true })
        } else {
            None
        }
    }
}

/// Decodes the global header of a legacy capture from the start of `input`.
pub fn parse_pcap_header(input: &[u8]) -> (r: Parsed<PcapHeader>)
    ensures
        r == pcap_header(input@),
{
    if input.len() < 4 {
        return Parsed::Incomplete(Needed::Size(4 - input.len()));
    }
    match detect_format(input) {
        None => Parsed::Invalid(PcapError::HeaderNotRecognized),
        Some(format) => {
            if input.len() < GLOBAL_HEADER_SIZE {
                return Parsed::Incomplete(Needed::Size(GLOBAL_HEADER_SIZE - input.len()));
            }
            let be = format.big_endian;
            Parsed::Done {
                size: GLOBAL_HEADER_SIZE,
                value: PcapHeader {
                    format,
                    version_major: read_u16(input, 4, be),
                    version_minor: read_u16(input, 6, be),
                    thiszone: to_signed(read_u32(input, 8, be)),
                    sigfigs: read_u32(input, 12, be),
                    snaplen: read_u32(input, 16, be),
                    network: Linktype(to_signed(read_u32(input, 20, be))),
                },
            }
        },
    }
}

/// Decodes the first unit of a legacy capture.
pub fn parse_legacy_header<'a>(input: &'a [u8]) -> (r: Decode<'a>)
    ensures
        r@ == legacy_header_step(input@),
{
    match parse_pcap_header(input) {
        Parsed::Done { size, value } => Decode::Unit {
            size,
            block: PcapBlock::DialectHeader { linktype: value.network, snaplen: value.snaplen },
            next: DecoderState::LegacyRecords { format: value.format, snaplen: value.snaplen },
        },
        Parsed::Incomplete(needed) => Decode::Incomplete(needed),
        Parsed::Invalid(error) => Decode::Invalid(error),
    }
}

/// Decodes one record of a legacy capture.
pub fn parse_legacy_frame<'a>(format: &LegacyFormat, snaplen: u32, input: &'a [u8]) -> (r:
    Decode<'a>)
    ensures
        r@ == legacy_frame_step(*format, snaplen, input@),
{
    let head = format.header_size();
    if input.len() < head {
        return Decode::Incomplete(Needed::Size(head - input.len()));
    }
    let header = PacketHeader::read(input, 0, format.big_endian);
    if header.caplen > header.len || header.caplen > snaplen {
        return Decode::Invalid(PcapError::InvalidCapturedLength);
    }
    let caplen = header.caplen as usize;
    let held = input.len() - head;
    if held < caplen {
        return Decode::Incomplete(Needed::Size(caplen - held));
    }
    Decode::Unit {
        size: head + caplen,
        block: PcapBlock::DataRecord(
            Packet { header, data: slice_subrange(input, head, head + caplen) },
        ),
        next: DecoderState::LegacyRecords { format: *format, snaplen },
    }
}

} // verus!
