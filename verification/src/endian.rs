//! Fixed-width integers as they lie in a byte sequence.

use vstd::prelude::*;

verus! {

/// The 32-bit value whose bytes are `b3 b2 b1 b0`, most significant first.
#[verifier::opaque]
pub open spec fn compose_u32(b3: u8, b2: u8, b1: u8, b0: u8) -> u32 {
    (b3 as int * 0x100_0000 + b2 as int * 0x1_0000 + b1 as int * 0x100 + b0 as int) as u32
}

/// The 16-bit value whose bytes are `b1 b0`, most significant first.
#[verifier::opaque]
pub open spec fn compose_u16(b1: u8, b0: u8) -> u16 {
    (b1 as int * 0x100 + b0 as int) as u16
}

/// The 32-bit word stored at offset `at` of `s` in the given byte order.
pub open spec fn u32_at(s: Seq<u8>, at: int, big_endian: bool) -> u32
    recommends
        0 <= at,
        at + 4 <= s.len(),
{
    if big_endian {
        compose_u32(s[at], s[at + 1], s[at + 2], s[at + 3])
    } else {
        compose_u32(s[at + 3], s[at + 2], s[at + 1], s[at])
    }
}

/// The 16-bit word stored at offset `at` of `s` in the given byte order.
pub open spec fn u16_at(s: Seq<u8>, at: int, big_endian: bool) -> u16
    recommends
        0 <= at,
        at + 2 <= s.len(),
{
    if big_endian {
        compose_u16(s[at], s[at + 1])
    } else {
        compose_u16(s[at + 1], s[at])
    }
}

/// The four bytes of `v`, least significant first.
pub open spec fn le_bytes(v: u32) -> Seq<u8> {
    seq![
        (v % 0x100) as u8,
        (v / 0x100 % 0x100) as u8,
        (v / 0x1_0000 % 0x100) as u8,
        (v / 0x100_0000) as u8,
    ]
}

/// The four bytes of `v`, most significant first.
pub open spec fn be_bytes(v: u32) -> Seq<u8> {
    seq![
        (v / 0x100_0000) as u8,
        (v / 0x1_0000 % 0x100) as u8,
        (v / 0x100 % 0x100) as u8,
        (v % 0x100) as u8,
    ]
}

/// The four bytes of `v` in the given byte order.
pub open spec fn word_bytes(v: u32, big_endian: bool) -> Seq<u8> {
    if big_endian {
        be_bytes(v)
    } else {
        le_bytes(v)
    }
}

/// The signed reading of a 32-bit word (two's complement).
pub open spec fn as_signed(v: u32) -> i32 {
    if v < 0x8000_0000 {
        v as i32
    } else {
        (v as int - 0x1_0000_0000) as i32
    }
}

/// Reading back the bytes of a word gives the word, in either byte order,
/// wherever the bytes lie in a sequence.
pub proof fn lemma_word_round_trip(pre: Seq<u8>, v: u32, post: Seq<u8>, big_endian: bool)
    ensures
        u32_at(pre + word_bytes(v, big_endian) + post, pre.len() as int, big_endian) == v,
{
    reveal(compose_u32);
    let s = pre + word_bytes(v, big_endian) + post;
    let at = pre.len() as int;
    let w = word_bytes(v, big_endian);
    assert(w.len() == 4);
    assert(s[at] == w[0]);
    assert(s[at + 1] == w[1]);
    assert(s[at + 2] == w[2]);
    assert(s[at + 3] == w[3]);
}

/// Reads the 32-bit word at offset `at` of `data`.
pub fn read_u32(data: &[u8], at: usize, big_endian: bool) -> (v: u32)
    requires
        at + 4 <= data.len(),
    ensures
        v == u32_at(data@, at as int, big_endian),
{
    proof {
        reveal(compose_u32);
    }
    let b0: u32 = data[at] as u32;
    let b1: u32 = data[at + 1] as u32;
    let b2: u32 = data[at + 2] as u32;
    let b3: u32 = data[at + 3] as u32;
    if big_endian {
        b0 * 0x100_0000 + b1 * 0x1_0000 + b2 * 0x100 + b3
    } else {
        b3 * 0x100_0000 + b2 * 0x1_0000 + b1 * 0x100 + b0
    }
}

/// Reads the 16-bit word at offset `at` of `data`.
pub fn read_u16(data: &[u8], at: usize, big_endian: bool) -> (v: u16)
    requires
        at + 2 <= data.len(),
    ensures
        v == u16_at(data@, at as int, big_endian),
{
    proof {
        reveal(compose_u16);
    }
    let b0: u16 = data[at] as u16;
    let b1: u16 = data[at + 1] as u16;
    if big_endian {
        b0 * 0x100 + b1
    } else {
        b1 * 0x100 + b0
    }
}

/// Reinterprets a 32-bit word as a signed integer.
pub fn to_signed(v: u32) -> (r: i32)
    ensures
        r == as_signed(v),
{
    if v < 0x8000_0000 {
        v as i32
    } else {
        (v as i64 - 0x1_0000_0000) as i32
    }
}

} // verus!
