//! The units that a capture is made of, as the decoders hand them out.

use crate::packet::{Linktype, Packet, PacketHeader};
use crate::pcapng::BLOCK_SECTION_HEADER;
use vstd::prelude::*;
use vstd::slice::slice_to_vec;

verus! {

/// What a block is, whichever way its bytes are held.
pub enum BlockView {
    /// The header of a capture (legacy dialect) or of an interface
    /// (sectioned dialect): the link type and the snapshot length that hold
    /// for the records that follow.
    DialectHeader { linktype: Linktype, snaplen: u32 },
    /// One captured packet.
    DataRecord { header: PacketHeader, data: Seq<u8> },
    /// Any other block of the sectioned dialect: its type code and its body.
    OpaqueBlock { block_type: u32, payload: Seq<u8> },
}

impl BlockView {
    /// What every data record satisfies under the snapshot length `snaplen`:
    /// it carries as many bytes as its captured length says, and that length
    /// exceeds neither the original length nor `snaplen`.
    pub open spec fn respects(self, snaplen: u32) -> bool {
        self matches BlockView::DataRecord { header, data } ==> header.caplen == data.len()
            && header.within(snaplen)
    }

    /// The snapshot length in force after this block, where it was `snaplen`
    /// before: a dialect header declares a new one, and a section header
    /// withdraws the one there was.
    pub open spec fn snaplen_after(self, snaplen: u32) -> u32 {
        match self {
            BlockView::DialectHeader { snaplen: declared, .. } => declared,
            BlockView::OpaqueBlock { block_type, .. } => if block_type == BLOCK_SECTION_HEADER {
                0
            } else {
                snaplen
            },
            _ => snaplen,
        }
    }
}

impl<'a> View for Packet<'a> {
    type V = BlockView;

    /// A packet is a data record.
    open spec fn view(&self) -> BlockView {
        BlockView::DataRecord { header: self.header, data: self.data@ }
    }
}

/// A block whose bytes lie in the input it was decoded from.
#[derive(Debug, Clone, PartialEq, Eq)]
pub enum PcapBlock<'a> {
    DialectHeader { linktype: Linktype, snaplen: u32 },
    DataRecord(Packet<'a>),
    OpaqueBlock { block_type: u32, payload: &'a [u8] },
}

impl<'a> View for PcapBlock<'a> {
    type V = BlockView;

    open spec fn view(&self) -> BlockView {
        match *self {
            PcapBlock::DialectHeader { linktype, snaplen } => BlockView::DialectHeader {
                linktype,
                snaplen,
            },
            PcapBlock::DataRecord(packet) => packet@,
            PcapBlock::OpaqueBlock { block_type, payload } => BlockView::OpaqueBlock {
                block_type,
                payload: payload@,
            },
        }
    }
}

/// A block that holds its bytes itself.
#[derive(Debug, Clone, PartialEq, Eq)]
pub enum PcapBlockOwned {
    DialectHeader { linktype: Linktype, snaplen: u32 },
    DataRecord { header: PacketHeader, data: Vec<u8> },
    OpaqueBlock { block_type: u32, payload: Vec<u8> },
}

impl View for PcapBlockOwned {
    type V = BlockView;

    open spec fn view(&self) -> BlockView {
        match *self {
            PcapBlockOwned::DialectHeader { linktype, snaplen } => BlockView::DialectHeader {
                linktype,
                snaplen,
            },
            PcapBlockOwned::DataRecord { header, data } => BlockView::DataRecord {
                header,
                data: data@,
            },
            PcapBlockOwned::OpaqueBlock { block_type, payload } => BlockView::OpaqueBlock {
                block_type,
                payload: payload@,
            },
        }
    }
}

impl PcapBlockOwned {
    /// A copy of `block` that no longer borrows from the input.
    pub fn from_block(block: &PcapBlock<'_>) -> (owned: PcapBlockOwned)
        ensures
            owned@ == block@,
    {
        match block {
            PcapBlock::DialectHeader { linktype, snaplen } => PcapBlockOwned::DialectHeader {
                linktype: *linktype,
                snaplen: *snaplen,
            },
            PcapBlock::DataRecord(packet) => PcapBlockOwned::DataRecord {
                header: packet.header,
                data: slice_to_vec(packet.data),
            },
            PcapBlock::OpaqueBlock { block_type, payload } => PcapBlockOwned::OpaqueBlock {
                block_type: *block_type,
                payload: slice_to_vec(payload),
            },
        }
    }

    /// The same block, borrowing its bytes.
    pub fn as_block(&self) -> (block: PcapBlock<'_>)
        ensures
            block@ == self@,
    {
        match self {
            PcapBlockOwned::DialectHeader { linktype, snaplen } => PcapBlock::DialectHeader {
                linktype: *linktype,
                snaplen: *snaplen,
            },
            PcapBlockOwned::DataRecord { header, data } => PcapBlock::DataRecord(
                Packet { header: *header, data: data.as_slice() },
            ),
            PcapBlockOwned::OpaqueBlock { block_type, payload } => PcapBlock::OpaqueBlock {
                block_type: *block_type,
                payload: payload.as_slice(),
            },
        }
    }

    /// The packet of a data record; `None` for any other block.
    pub fn as_packet(&self) -> (packet: Option<Packet<'_>>)
        ensures
            self@ is DataRecord <==> packet is Some,
            packet matches Some(p) ==> p@ == self@,
    {
        match self {
            PcapBlockOwned::DataRecord { header, data } => Some(
                Packet { header: *header, data: data.as_slice() },
            ),
            _ => None,
        }
    }
}

} // verus!
