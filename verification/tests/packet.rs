use pcap_parser::blocks::PcapBlockOwned;
use pcap_parser::packet::{Linktype, Packet, PacketHeader};

#[test]
fn header_encodes_fields_least_significant_byte_first() {
    let header = PacketHeader { ts_sec: 0x0102_0304, ts_usec: 0x0a0b_0c0d, caplen: 90, len: 1500 };
    let bytes = header.to_string();
    assert_eq!(
        bytes,
        vec![0x04, 0x03, 0x02, 0x01, 0x0d, 0x0c, 0x0b, 0x0a, 90, 0, 0, 0, 0xdc, 0x05, 0, 0]
    );
}

#[test]
fn header_of_zeros_encodes_to_sixteen_zero_bytes() {
    let header = PacketHeader { ts_sec: 0, ts_usec: 0, caplen: 0, len: 0 };
    assert_eq!(header.to_string(), vec![0u8; 16]);
}

#[test]
fn header_round_trips_through_its_encoding() {
    let headers = [
        PacketHeader { ts_sec: 0, ts_usec: 0, caplen: 0, len: 0 },
        PacketHeader { ts_sec: 1, ts_usec: 2, caplen: 3, len: 4 },
        PacketHeader { ts_sec: u32::MAX, ts_usec: u32::MAX, caplen: u32::MAX, len: u32::MAX },
        PacketHeader { ts_sec: 0x8000_0000, ts_usec: 999_999, caplen: 0x0001_0000, len: 0x00ff_ff00 },
    ];
    for header in headers.iter() {
        let bytes = header.to_string();
        assert_eq!(bytes.len(), PacketHeader::SIZE);
        assert_eq!(PacketHeader::from_bytes(&bytes), Some(*header));
    }
}

#[test]
fn header_is_not_decoded_from_fewer_than_sixteen_bytes() {
    assert_eq!(PacketHeader::from_bytes(&[]), None);
    assert_eq!(PacketHeader::from_bytes(&[0u8; 15]), None);
    assert!(PacketHeader::from_bytes(&[0u8; 16]).is_some());
}

#[test]
fn header_is_decoded_from_the_first_sixteen_bytes_only() {
    let mut bytes = PacketHeader { ts_sec: 7, ts_usec: 8, caplen: 9, len: 10 }.to_string();
    bytes.extend_from_slice(&[0xff; 5]);
    assert_eq!(
        PacketHeader::from_bytes(&bytes),
        Some(PacketHeader { ts_sec: 7, ts_usec: 8, caplen: 9, len: 10 })
    );
}

#[test]
fn header_read_honours_the_byte_order() {
    let bytes = [0, 0, 0, 1, 0, 0, 0, 2, 0, 0, 0, 3, 0, 0, 0, 4];
    assert_eq!(
        PacketHeader::read(&bytes, 0, true),
        PacketHeader { ts_sec: 1, ts_usec: 2, caplen: 3, len: 4 }
    );
    assert_eq!(
        PacketHeader::read(&bytes, 0, false),
        PacketHeader { ts_sec: 0x0100_0000, ts_usec: 0x0200_0000, caplen: 0x0300_0000, len: 0x0400_0000 }
    );
}

#[test]
fn linktype_is_a_plain_code() {
    assert_eq!(Linktype(1), Linktype(1));
    assert_ne!(Linktype(1), Linktype(-1));
    assert_eq!(Linktype(113).0, 113);
}

#[test]
fn owned_block_lends_its_packet() {
    let header = PacketHeader { ts_sec: 1, ts_usec: 2, caplen: 3, len: 3 };
    let block = PcapBlockOwned::DataRecord { header, data: vec![7, 8, 9] };
    assert_eq!(block.as_packet(), Some(Packet { header, data: &[7, 8, 9] }));
    assert_eq!(PcapBlockOwned::from_block(&block.as_block()), block);
    let other = PcapBlockOwned::OpaqueBlock { block_type: 5, payload: vec![1] };
    assert_eq!(other.as_packet(), None);
    assert_eq!(PcapBlockOwned::from_block(&other.as_block()), other);
    let head = PcapBlockOwned::DialectHeader { linktype: Linktype(1), snaplen: 64 };
    assert_eq!(head.as_packet(), None);
    assert_eq!(PcapBlockOwned::from_block(&head.as_block()), head);
}
