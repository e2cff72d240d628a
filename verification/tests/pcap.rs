use pcap_parser::blocks::{PcapBlock, PcapBlockOwned};
use pcap_parser::capture::{create_reader, Capture, PcapCapture};
use pcap_parser::decoder::{decode, Decode, DecoderState, Parsed};
use pcap_parser::error::{Needed, PcapError};
use pcap_parser::packet::{Linktype, PacketHeader};
use pcap_parser::pcap::{parse_pcap_header, LegacyFormat};
use pcap_parser::reader::{PcapReader, Status};

const MICRO_LE: [u8; 4] = [0xd4, 0xc3, 0xb2, 0xa1];
const MICRO_BE: [u8; 4] = [0xa1, 0xb2, 0xc3, 0xd4];
const NANO_LE: [u8; 4] = [0x4d, 0x3c, 0xb2, 0xa1];
const MODIFIED_LE: [u8; 4] = [0x34, 0xcd, 0xb2, 0xa1];

fn word(v: u32, big_endian: bool) -> [u8; 4] {
    if big_endian {
        v.to_be_bytes()
    } else {
        v.to_le_bytes()
    }
}

fn global_header(magic: [u8; 4], big_endian: bool, snaplen: u32, network: u32) -> Vec<u8> {
    let mut out = magic.to_vec();
    if big_endian {
        out.extend_from_slice(&[0, 2, 0, 4]);
    } else {
        out.extend_from_slice(&[2, 0, 4, 0]);
    }
    out.extend_from_slice(&word(0, big_endian));
    out.extend_from_slice(&word(0, big_endian));
    out.extend_from_slice(&word(snaplen, big_endian));
    out.extend_from_slice(&word(network, big_endian));
    out
}

fn record(index: u32, caplen: u32, len: u32, big_endian: bool, extra: usize) -> Vec<u8> {
    let mut out = Vec::new();
    out.extend_from_slice(&word(1000 + index, big_endian));
    out.extend_from_slice(&word(index, big_endian));
    out.extend_from_slice(&word(caplen, big_endian));
    out.extend_from_slice(&word(len, big_endian));
    out.extend(std::iter::repeat(0xee).take(extra));
    out.extend((0..caplen).map(|i| (i as u8).wrapping_add(index as u8)));
    out
}

/// One global header and twelve records of 90 captured bytes each.
fn ntp_capture() -> Vec<u8> {
    let mut out = global_header(MICRO_LE, false, 65535, 1);
    for i in 0..12 {
        out.extend_from_slice(&record(i, 90, 90, false, 0));
    }
    out
}

/// One global header in the modified layout and one record of 98 bytes.
fn modified_capture() -> Vec<u8> {
    let mut out = global_header(MODIFIED_LE, false, 65535, 1);
    out.extend_from_slice(&record(0, 98, 98, false, 8));
    out
}

/// Runs the canonical loop, with a source whose first read hands over the
/// global header at least and whose later reads hand over at most `chunk`
/// bytes, and returns the blocks and the outcome that stopped the loop.
fn run(capacity: usize, input: &[u8], chunk: usize) -> (Vec<PcapBlockOwned>, PcapError) {
    let first = input.len().min(capacity).min(chunk.max(24));
    let mut at = first;
    let mut reader = match create_reader(capacity, Some(&input[..first])) {
        Ok(reader) => reader,
        Err(error) => return (Vec::new(), error),
    };
    let mut blocks = Vec::new();
    let mut turns = 0;
    loop {
        turns += 1;
        assert!(turns < 1 << 20, "reader stuck in infinite loop");
        match reader.next() {
            Ok((size, block)) => {
                blocks.push(block);
                reader.consume(size);
            }
            Err(PcapError::Incomplete(_)) => {
                let n = reader.wanted().min(chunk).min(input.len() - at);
                reader.refill(Some(&input[at..at + n])).unwrap();
                at += n;
            }
            Err(error) => return (blocks, error),
        }
    }
}

#[test]
fn test_pcap_capture_from_file_and_iter_le() {
    let data = ntp_capture();
    let cap = PcapCapture::from_file(&data).expect("could not parse file into PcapNGCapture");
    for block in cap.iter() {
        match block {
            PcapBlock::DialectHeader { .. } => (),
            PcapBlock::DataRecord(b) => {
                assert_eq!(b.header.caplen, 90);
            }
            PcapBlock::OpaqueBlock { .. } => panic!("unexpected NG data"),
        }
    }
}

#[test]
fn test_pcap_reader() {
    let data = ntp_capture();
    let mut source = &data[..];
    let mut num_blocks = 0;
    let first = source.len().min(65536);
    let mut reader = create_reader(65536, Some(&source[..first])).expect("LegacyPcapReader");
    source = &source[first..];
    loop {
        match reader.next() {
            Ok((offset, block)) => {
                num_blocks += 1;
                match block {
                    PcapBlockOwned::DialectHeader { .. } => (),
                    PcapBlockOwned::DataRecord { header, .. } => {
                        assert_eq!(header.caplen, 90);
                    }
                    PcapBlockOwned::OpaqueBlock { .. } => panic!("unexpected NG data"),
                }
                reader.consume(offset);
            }
            Err(PcapError::Eof) => break,
            Err(PcapError::Incomplete(_)) => {
                let n = reader.wanted().min(source.len());
                reader.refill(Some(&source[..n])).unwrap();
                source = &source[n..];
            }
            Err(e) => panic!("error while reading: {:?}", e),
        }
    }
    assert_eq!(num_blocks, 13); /* 1 (header) + 12 (data blocks) */
}

#[test]
fn test_truncated_pcap() {
    let data = ntp_capture();
    // truncate pcap
    let buf = data[..981].to_vec();
    let mut source = &buf[..];
    let first = source.len().min(65536);
    let mut reader = create_reader(65536, Some(&source[..first])).expect("LegacyPcapReader");
    source = &source[first..];
    let mut incomplete_count: u32 = 0;
    loop {
        match reader.next() {
            Ok((offset, _block)) => {
                reader.consume(offset);
            }
            Err(PcapError::Eof) => unreachable!("should not parse without error"),
            Err(PcapError::Incomplete(_)) => {
                let n = reader.wanted().min(source.len());
                reader.refill(Some(&source[..n])).unwrap();
                source = &source[n..];
                incomplete_count += 1;
                if incomplete_count > 1 << 20 {
                    panic!("reader stuck in infinite loop");
                }
            }
            Err(PcapError::UnexpectedEof) => return,
            Err(e) => panic!("error while reading: {:?}", e),
        }
    }
}

#[test]
fn test_modified_format() {
    let data = modified_capture();
    let mut source = &data[..];
    let mut num_blocks = 0;
    let first = source.len().min(65536);
    let mut reader = create_reader(65536, Some(&source[..first])).expect("LegacyPcapReader");
    source = &source[first..];
    loop {
        match reader.next() {
            Ok((offset, block)) => {
                num_blocks += 1;
                match block {
                    PcapBlockOwned::DialectHeader { .. } => (),
                    PcapBlockOwned::DataRecord { header, .. } => {
                        assert_eq!(header.caplen, 98);
                    }
                    PcapBlockOwned::OpaqueBlock { .. } => panic!("unexpected NG data"),
                }
                reader.consume(offset);
            }
            Err(PcapError::Eof) => break,
            Err(PcapError::Incomplete(_)) => {
                let n = reader.wanted().min(source.len());
                reader.refill(Some(&source[..n])).unwrap();
                source = &source[n..];
            }
            Err(e) => panic!("error while reading: {:?}", e),
        }
    }
    assert_eq!(num_blocks, 2);
}

#[test]
fn twelve_records_give_thirteen_blocks_header_first() {
    let data = ntp_capture();
    let (blocks, end) = run(65536, &data, 65536);
    assert_eq!(end, PcapError::Eof);
    assert_eq!(blocks.len(), 13);
    assert_eq!(blocks[0], PcapBlockOwned::DialectHeader { linktype: Linktype(1), snaplen: 65535 });
    for (i, block) in blocks[1..].iter().enumerate() {
        match block {
            PcapBlockOwned::DataRecord { header, data } => {
                assert_eq!(
                    *header,
                    PacketHeader { ts_sec: 1000 + i as u32, ts_usec: i as u32, caplen: 90, len: 90 }
                );
                assert_eq!(data.len(), 90);
                assert_eq!(data[0], i as u8);
                assert_eq!(data[89], (89 + i) as u8);
            }
            other => panic!("not a data record: {:?}", other),
        }
    }
}

#[test]
fn streaming_and_in_memory_decoding_agree_for_every_chunking() {
    let data = ntp_capture();
    let cap = PcapCapture::from_file(&data).unwrap();
    let expected: Vec<PcapBlockOwned> = cap.iter().iter().map(PcapBlockOwned::from_block).collect();
    assert_eq!(expected.len(), 13);
    for &(capacity, chunk) in
        [(65536, 65536), (65536, 1), (65536, 7), (200, 200), (200, 3), (107, 107), (107, 1), (1300, 24)].iter()
    {
        let (blocks, end) = run(capacity, &data, chunk);
        assert_eq!(end, PcapError::Eof, "capacity {} chunk {}", capacity, chunk);
        assert_eq!(blocks, expected, "capacity {} chunk {}", capacity, chunk);
    }
}

#[test]
fn every_truncation_inside_a_unit_ends_unexpectedly() {
    let data = ntp_capture();
    for cut in 24..data.len() {
        let on_boundary = (cut - 24) % 106 == 0;
        let (blocks, end) = run(256, &data[..cut], 50);
        assert_eq!(blocks.len(), 1 + (cut - 24) / 106, "cut {}", cut);
        if on_boundary {
            assert_eq!(end, PcapError::Eof, "cut {}", cut);
        } else {
            assert_eq!(end, PcapError::UnexpectedEof, "cut {}", cut);
        }
    }
}

#[test]
fn truncation_inside_the_global_header_fails_construction() {
    let data = ntp_capture();
    for cut in 1..24 {
        let hint = if cut < 4 { 4 - cut } else { 24 - cut };
        assert_eq!(create_reader(64, Some(&data[..cut])).err(), Some(PcapError::Incomplete(hint)));
        assert_eq!(PcapCapture::from_file(&data[..cut]).err(), Some(PcapError::UnexpectedEof));
    }
}

#[test]
fn in_memory_cursor_reports_a_truncated_tail_once() {
    let data = ntp_capture();
    let cap = PcapCapture::from_file(&data[..981]).unwrap();
    assert_eq!(cap.iter().len(), 1 + 9);
    let mut cursor = cap.cursor();
    for _ in 0..10 {
        assert!(matches!(cursor.next(), Some(Ok(_))));
    }
    assert_eq!(cursor.next(), Some(Err(PcapError::UnexpectedEof)));
    assert_eq!(cursor.next(), None);
    assert_eq!(cursor.next(), None);
}

#[test]
fn in_memory_cursor_ends_with_none() {
    let data = modified_capture();
    let cap = PcapCapture::from_file(&data).unwrap();
    let mut cursor = cap.cursor();
    assert_eq!(
        cursor.next(),
        Some(Ok(PcapBlock::DialectHeader { linktype: Linktype(1), snaplen: 65535 }))
    );
    assert!(matches!(cursor.next(), Some(Ok(PcapBlock::DataRecord(_)))));
    assert_eq!(cursor.next(), None);
    assert_eq!(cursor.next(), None);
}

#[test]
fn capture_exposes_link_type_and_snapshot_length() {
    let mut data = global_header(MICRO_BE, true, 4096, 113);
    data.extend_from_slice(&record(0, 4, 60, true, 0));
    let cap = PcapCapture::from_file(&data).unwrap();
    assert_eq!(cap.get_datalink(), Linktype(113));
    assert_eq!(cap.get_snaplen(), 4096);
    let blocks = cap.iter();
    assert_eq!(blocks.len(), 2);
    match &blocks[1] {
        PcapBlock::DataRecord(packet) => {
            assert_eq!(packet.header, PacketHeader { ts_sec: 1000, ts_usec: 0, caplen: 4, len: 60 });
            assert_eq!(packet.data, &[0, 1, 2, 3]);
        }
        other => panic!("not a data record: {:?}", other),
    }
}

#[test]
fn global_header_variants_are_recognized() {
    let cases = [
        (MICRO_LE, false, LegacyFormat { big_endian: false, nanosecond: false, modified: false }),
        (MICRO_BE, true, LegacyFormat { big_endian: true, nanosecond: false, modified: false }),
        (NANO_LE, false, LegacyFormat { big_endian: false, nanosecond: true, modified: false }),
        ([0xa1, 0xb2, 0x3c, 0x4d], true, LegacyFormat { big_endian: true, nanosecond: true, modified: false }),
        (MODIFIED_LE, false, LegacyFormat { big_endian: false, nanosecond: false, modified: true }),
        ([0xa1, 0xb2, 0xcd, 0x34], true, LegacyFormat { big_endian: true, nanosecond: false, modified: true }),
    ];
    for (magic, big_endian, format) in cases.iter() {
        let bytes = global_header(*magic, *big_endian, 262144, 0xffff_ffff);
        match parse_pcap_header(&bytes) {
            Parsed::Done { size, value } => {
                assert_eq!(size, 24);
                assert_eq!(value.format, *format);
                assert_eq!(value.version_major, 2);
                assert_eq!(value.version_minor, 4);
                assert_eq!(value.thiszone, 0);
                assert_eq!(value.sigfigs, 0);
                assert_eq!(value.snaplen, 262144);
                assert_eq!(value.network, Linktype(-1));
            }
            other => panic!("not decoded: {:?}", other),
        }
    }
}

#[test]
fn global_header_asks_for_the_bytes_it_lacks() {
    let bytes = global_header(MICRO_LE, false, 65535, 1);
    assert_eq!(parse_pcap_header(&[]), Parsed::Incomplete(Needed::Size(4)));
    assert_eq!(parse_pcap_header(&bytes[..3]), Parsed::Incomplete(Needed::Size(1)));
    assert_eq!(parse_pcap_header(&bytes[..4]), Parsed::Incomplete(Needed::Size(20)));
    assert_eq!(parse_pcap_header(&bytes[..23]), Parsed::Incomplete(Needed::Size(1)));
    assert!(matches!(parse_pcap_header(&bytes[..24]), Parsed::Done { size: 24, .. }));
}

#[test]
fn unknown_magic_number_is_not_recognized() {
    let bytes = global_header([1, 2, 3, 4], false, 65535, 1);
    assert_eq!(parse_pcap_header(&bytes), Parsed::Invalid(PcapError::HeaderNotRecognized));
    assert_eq!(parse_pcap_header(&bytes[..4]), Parsed::Invalid(PcapError::HeaderNotRecognized));
    assert_eq!(create_reader(64, Some(&bytes)).err(), Some(PcapError::HeaderNotRecognized));
    assert_eq!(PcapCapture::from_file(&bytes).err(), Some(PcapError::HeaderNotRecognized));
}

#[test]
fn record_asks_for_header_then_for_payload() {
    let state = DecoderState::LegacyRecords {
        format: LegacyFormat { big_endian: false, nanosecond: false, modified: false },
        snaplen: 100,
    };
    let bytes = record(3, 10, 20, false, 0);
    assert_eq!(decode(&state, &bytes[..0]), Decode::Incomplete(Needed::Size(16)));
    assert_eq!(decode(&state, &bytes[..15]), Decode::Incomplete(Needed::Size(1)));
    assert_eq!(decode(&state, &bytes[..16]), Decode::Incomplete(Needed::Size(10)));
    assert_eq!(decode(&state, &bytes[..25]), Decode::Incomplete(Needed::Size(1)));
    match decode(&state, &bytes) {
        Decode::Unit { size, block: PcapBlock::DataRecord(packet), next } => {
            assert_eq!(size, 26);
            assert_eq!(packet.header, PacketHeader { ts_sec: 1003, ts_usec: 3, caplen: 10, len: 20 });
            assert_eq!(packet.data, &bytes[16..]);
            assert_eq!(next, state);
        }
        other => panic!("not a record: {:?}", other),
    }
}

#[test]
fn record_of_no_bytes_is_a_unit_of_sixteen() {
    let state = DecoderState::LegacyRecords {
        format: LegacyFormat { big_endian: true, nanosecond: false, modified: false },
        snaplen: 0,
    };
    let mut bytes = record(0, 0, 0, true, 0);
    bytes.extend_from_slice(&[9, 9]);
    assert!(matches!(decode(&state, &bytes), Decode::Unit { size: 16, .. }));
}

#[test]
fn record_that_exceeds_its_original_length_is_rejected() {
    let mut data = global_header(MICRO_LE, false, 65535, 1);
    data.extend_from_slice(&record(0, 8, 8, false, 0));
    data.extend_from_slice(&record(1, 9, 8, false, 0));
    let (blocks, end) = run(1024, &data, 1024);
    assert_eq!(blocks.len(), 2);
    assert_eq!(end, PcapError::InvalidCapturedLength);
    let cap = PcapCapture::from_file(&data).unwrap();
    let mut cursor = cap.cursor();
    assert!(matches!(cursor.next(), Some(Ok(_))));
    assert!(matches!(cursor.next(), Some(Ok(_))));
    assert_eq!(cursor.next(), Some(Err(PcapError::InvalidCapturedLength)));
    assert_eq!(cursor.next(), None);
}

#[test]
fn record_that_exceeds_the_snapshot_length_is_rejected() {
    let mut data = global_header(MICRO_LE, false, 64, 1);
    data.extend_from_slice(&record(0, 64, 100, false, 0));
    data.extend_from_slice(&record(1, 65, 100, false, 0));
    let (blocks, end) = run(1024, &data, 10);
    assert_eq!(blocks.len(), 2);
    assert_eq!(end, PcapError::InvalidCapturedLength);
}

#[test]
fn every_record_respects_the_declared_lengths() {
    let mut data = global_header(NANO_LE, false, 128, 1);
    for i in 0..20u32 {
        data.extend_from_slice(&record(i, (i * 7) % 129, 128 + i, false, 0));
    }
    let (blocks, end) = run(512, &data, 33);
    assert_eq!(end, PcapError::Eof);
    assert_eq!(blocks.len(), 21);
    for block in blocks[1..].iter() {
        match block {
            PcapBlockOwned::DataRecord { header, data } => {
                assert!(header.caplen <= header.len);
                assert!(header.caplen <= 128);
                assert_eq!(header.caplen as usize, data.len());
            }
            other => panic!("not a data record: {:?}", other),
        }
    }
}

#[test]
fn unit_larger_than_the_buffer_stops_the_reader_until_it_grows() {
    let mut data = global_header(MICRO_LE, false, 65535, 1);
    data.extend_from_slice(&record(0, 100, 100, false, 0));
    let mut reader: PcapReader = create_reader(64, Some(&data[..64])).unwrap();
    let (size, _) = reader.next().unwrap();
    assert_eq!(size, 24);
    reader.consume(size);
    assert_eq!(reader.next().err(), Some(PcapError::BufferTooSmall));
    assert_eq!(reader.status(), Status::Active);
    assert_eq!(reader.next().err(), Some(PcapError::BufferTooSmall));
    assert!(reader.grow(116));
    assert_eq!(reader.next().err(), Some(PcapError::Incomplete(76)));
    assert_eq!(reader.wanted(), 76);
    reader.refill(Some(&data[64..])).unwrap();
    let (size, block) = reader.next().unwrap();
    assert_eq!(size, 116);
    assert!(matches!(block, PcapBlockOwned::DataRecord { .. }));
    reader.consume(size);
    assert_eq!(reader.next().err(), Some(PcapError::Incomplete(16)));
    reader.refill(Some(&[])).unwrap();
    assert_eq!(reader.next().err(), Some(PcapError::Eof));
}

#[test]
fn unit_larger_than_the_buffer_stops_the_canonical_loop() {
    let mut data = global_header(MICRO_LE, false, 65535, 1);
    data.extend_from_slice(&record(0, 10, 10, false, 0));
    data.extend_from_slice(&record(1, 100, 100, false, 0));
    let (blocks, end) = run(64, &data, 64);
    assert_eq!(blocks.len(), 2);
    assert_eq!(end, PcapError::BufferTooSmall);
    let (blocks, end) = run(116, &data, 64);
    assert_eq!(blocks.len(), 3);
    assert_eq!(end, PcapError::Eof);
}
