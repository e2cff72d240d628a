//! Packet records: the fixed record header, the link type, and a record with
//! its bytes.

use crate::endian::{le_bytes, lemma_word_round_trip, read_u32, u32_at};
use cookie_factory::GenError;
use vstd::pervasive::unreached;
use vstd::prelude::*;

verus! {

/// `cookie_factory::GenError`, taken as it is: the error of a generator
/// that ran out of room.
#[verifier::external_type_specification]
#[verifier::external_body]
pub struct ExGenError(cookie_factory::GenError);

/// `cookie_factory::gen::set_le_u32`: writes the four bytes of `v`, least
/// significant first, into `buf` at offset `at`, and returns the offset after
/// them. It succeeds exactly when the four bytes fit; then no other byte of
/// `buf` changes. When it fails the length of `buf` is still the same.
#[verifier::external_body]
fn set_le_u32(buf: &mut Vec<u8>, at: usize, v: u32) -> (r: Result<usize, GenError>)
    ensures
        r is Ok <==> at + 4 <= old(buf)@.len(),
        final(buf)@.len() == old(buf)@.len(),
        r matches Ok(end) ==> end == at + 4 && final(buf)@ == old(buf)@.take(at as int)
            + le_bytes(v) + old(buf)@.skip(at + 4),
{
    cookie_factory::gen::set_le_u32((buf.as_mut_slice(), at), v).map(|r| r.1)
}

/// The code of a link-layer framing. What a code means is left to the
/// caller.
#[derive(Debug, PartialEq, Eq, Clone, Copy, Structural)]
pub struct Linktype(pub i32);

/// The fixed header of a packet record.
#[derive(Debug, Clone, Copy, PartialEq, Eq, Structural)]
pub struct PacketHeader {
    /// Timestamp, seconds.
    pub ts_sec: u32,
    /// Timestamp, fraction of a second.
    pub ts_usec: u32,
    /// Number of bytes of the packet that were captured.
    pub caplen: u32,
    /// Number of bytes of the packet on the wire.
    pub len: u32,
}

/// A packet record: its header and the captured bytes.
#[derive(Debug, Clone, PartialEq, Eq)]
pub struct Packet<'a> {
    pub header: PacketHeader,
    pub data: &'a [u8],
}

impl PacketHeader {
    /// The size of an encoded record header.
    pub const SIZE: usize = 16;

    /// The sixteen bytes that encode this header: the four fields in order,
    /// each least significant byte first.
    pub open spec fn encoding(self) -> Seq<u8> {
        le_bytes(self.ts_sec) + le_bytes(self.ts_usec) + le_bytes(self.caplen) + le_bytes(
            self.len,
        )
    }

    /// The header that the sixteen bytes at offset `at` of `s` encode in the
    /// given byte order.
    pub open spec fn decoding(s: Seq<u8>, at: int, big_endian: bool) -> PacketHeader
        recommends
            0 <= at,
            at + 16 <= s.len(),
    {
        PacketHeader {
            ts_sec: u32_at(s, at, big_endian),
            ts_usec: u32_at(s, at + 4, big_endian),
            caplen: u32_at(s, at + 8, big_endian),
            len: u32_at(s, at + 12, big_endian),
        }
    }

    /// Whether the captured length is within the original length and within
    /// the snapshot length `snaplen`.
    pub open spec fn within(self, snaplen: u32) -> bool {
        self.caplen <= self.len && self.caplen <= snaplen
    }

    /// Encodes the header as sixteen bytes.
    pub fn to_string(&self) -> (bytes: Vec<u8>)
        ensures
            bytes@ == self.encoding(),
    {
        let mut mem: Vec<u8> = vec![0u8; 16];
        let r = match set_le_u32(&mut mem, 0, self.ts_sec) {
            Ok(at) => match set_le_u32(&mut mem, at, self.ts_usec) {
                Ok(at) => match set_le_u32(&mut mem, at, self.caplen) {
                    Ok(at) => set_le_u32(&mut mem, at, self.len),
                    Err(e) => Err(e),
                },
                Err(e) => Err(e),
            },
            Err(e) => Err(e),
        };
        match r {
            Ok(_) => mem,
            Err(_) => unreached(),
        }
    }

    /// Reads the header that lies at offset `at` of `data`.
    pub fn read(data: &[u8], at: usize, big_endian: bool) -> (h: PacketHeader)
        requires
            at + 16 <= data.len(),
        ensures
            h == PacketHeader::decoding(data@, at as int, big_endian),
    {
        PacketHeader {
            ts_sec: read_u32(data, at, big_endian),
            ts_usec: read_u32(data, at + 4, big_endian),
            caplen: read_u32(data, at + 8, big_endian),
            len: read_u32(data, at + 12, big_endian),
        }
    }

    /// Decodes a header from the first sixteen bytes of `data`, each field
    /// least significant byte first. `None` when `data` is shorter.
    pub fn from_bytes(data: &[u8]) -> (r: Option<PacketHeader>)
        ensures
            r == if data@.len() >= 16 {
                Some(PacketHeader::decoding(data@, 0, false))
            } else {
                None
            },
    {
        if data.len() >= 16 {
            Some(PacketHeader::read(data, 0, false))
        } else {
            None
        }
    }

    /// Encoding a header and decoding the result gives the header back.
    pub proof fn lemma_round_trip(self)
        ensures
            self.encoding().len() == 16,
            PacketHeader::decoding(self.encoding(), 0, false) == self,
    {
        let a = le_bytes(self.ts_sec);
        let b = le_bytes(self.ts_usec);
        let c = le_bytes(self.caplen);
        let d = le_bytes(self.len);
        let e = self.encoding();
        let none = Seq::<u8>::empty();
        assert(e =~= none + a + (b + c + d));
        assert(e =~= a + b + (c + d));
        assert(e =~= (a + b) + c + d);
        assert(e =~= (a + b + c) + d + none);
        lemma_word_round_trip(none, self.ts_sec, b + c + d, false);
        lemma_word_round_trip(a, self.ts_usec, c + d, false);
        lemma_word_round_trip(a + b, self.caplen, d, false);
        lemma_word_round_trip(a + b + c, self.len, none, false);
    }
}

} // verus!
