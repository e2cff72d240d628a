//! Streaming reader for packet-capture files.
//!
//! Two on-disk dialects are understood: the legacy flat format (one global
//! header followed by packet records) and the sectioned format (a stream of
//! typed, length-framed blocks). A capture can be decoded from a fully loaded
//! byte sequence, or incrementally through a bounded staging buffer that is
//! refilled by the caller as bytes arrive.

pub mod endian;
pub mod buffer;
pub mod error;
pub mod packet;
pub mod blocks;
pub mod decoder;
pub mod pcap;
pub mod pcapng;
pub mod prober;
pub mod reader;
pub mod capture;
pub mod stream;
pub mod units;
