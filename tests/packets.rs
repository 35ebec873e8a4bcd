use ccsds_packets::{decode, encode, resolve, ByteOrder, ByteStream, ExtractorState, PacketExtractor, PrimaryHeader};

fn header(
    version: u8,
    packet_type: u8,
    secondary_header_flag: u8,
    apid: u16,
    sequence_flags: u8,
    sequence_count: u16,
    length_field: u16,
) -> PrimaryHeader {
    PrimaryHeader {
        version,
        packet_type,
        secondary_header_flag,
        apid,
        sequence_flags,
        sequence_count,
        length_field,
        endianness: ByteOrder::BigEndian,
    }
}

fn packet(h: &PrimaryHeader, fill: u8) -> Vec<u8> {
    let mut p = encode(h);
    for i in 0..(h.length_field as usize + 1) {
        p.push(fill.wrapping_add(i as u8));
    }
    p
}

fn two_packet_stream() -> (Vec<u8>, Vec<u8>, Vec<u8>) {
    let a = packet(&header(0, 0, 1, 100, 3, 7, 3), 0xA0);
    let b = packet(&header(0, 1, 0, 2047, 1, 16383, 0), 0x50);
    let mut s = a.clone();
    s.extend_from_slice(&b);
    (s, a, b)
}

#[test]
fn decode_known_pattern() {
    // control word 0x1896: 000 1 1 000 1001 0110
    let h = decode(&[0x18, 0x96, 0xC0, 0x00, 0x00, 0x05]);
    assert_eq!(h.version, 0);
    assert_eq!(h.packet_type, 1);
    assert_eq!(h.secondary_header_flag, 1);
    assert_eq!(h.apid, 150);
    assert_eq!(h.sequence_flags, 3);
    assert_eq!(h.sequence_count, 0);
    assert_eq!(h.length_field, 5);
    assert_eq!(h.endianness, ByteOrder::BigEndian);
}

#[test]
fn decode_apid_across_byte_boundary() {
    // control word 0x0C16: 000 0 1 100 0001 0110
    let h = decode(&[0x0C, 0x16, 0xC0, 0x00, 0x00, 0x05]);
    assert_eq!(h.version, 0);
    assert_eq!(h.packet_type, 0);
    assert_eq!(h.secondary_header_flag, 1);
    assert_eq!(h.apid, 1046);
    assert_eq!(h.sequence_flags, 3);
    assert_eq!(h.sequence_count, 0);
    assert_eq!(h.length_field, 5);
}

#[test]
fn decode_every_field_set() {
    let h = decode(&[0xFF, 0xFF, 0xFF, 0xFF, 0xFF, 0xFF]);
    assert_eq!(h, header(7, 1, 1, 2047, 3, 16383, 65535));
    let h = decode(&[0xB2, 0x34, 0x5A, 0xBC, 0x12, 0x34]);
    assert_eq!(h, header(5, 1, 0, 0x234, 1, 0x1ABC, 0x1234));
}

#[test]
fn decode_all_zero() {
    assert_eq!(decode(&[0; 6]), header(0, 0, 0, 0, 0, 0, 0));
}

#[test]
fn encode_known_bytes() {
    assert_eq!(encode(&header(0, 0, 1, 1046, 3, 0, 5)), vec![0x0C, 0x16, 0xC0, 0x00, 0x00, 0x05]);
    assert_eq!(encode(&header(5, 1, 0, 0x234, 1, 0x1ABC, 0x1234)), vec![0xB2, 0x34, 0x5A, 0xBC, 0x12, 0x34]);
}

#[test]
fn round_trip_over_field_ranges() {
    for version in 0..8u8 {
        for packet_type in 0..2u8 {
            for flag in 0..2u8 {
                for sequence_flags in 0..4u8 {
                    for &apid in &[0u16, 1, 1046, 1024, 2047] {
                        for &count in &[0u16, 1, 255, 256, 16383] {
                            for &len in &[0u16, 1, 255, 256, 65535] {
                                let h = header(version, packet_type, flag, apid, sequence_flags, count, len);
                                assert_eq!(decode(&encode(&h)), h);
                            }
                        }
                    }
                }
            }
        }
    }
}

#[test]
fn resolve_is_big_endian() {
    assert_eq!(resolve(), ByteOrder::BigEndian);
}

#[test]
fn packet_and_data_lengths() {
    let h = header(0, 0, 0, 1, 3, 0, 3);
    assert_eq!(h.packet_len(), 10);
    assert_eq!(h.data_len(), 4);
    let h = header(0, 0, 0, 1, 3, 0, 65535);
    assert_eq!(h.packet_len(), 65542);
    assert_eq!(h.data_len(), 65536);
}

#[test]
fn stream_ingest_peek_advance() {
    let mut s = ByteStream::new();
    assert_eq!(s.remaining(), 0);
    assert_eq!(s.peek(0, 0), Some(vec![]));
    assert_eq!(s.peek(0, 1), None);
    s.ingest(&[1, 2, 3]);
    s.ingest(&[]);
    s.ingest(&[4, 5]);
    assert_eq!(s.remaining(), 5);
    assert_eq!(s.peek(1, 3), Some(vec![2, 3, 4]));
    assert_eq!(s.peek(3, 3), None);
    assert_eq!(s.peek(usize::MAX, 2), None);
    assert!(!s.advance(6));
    assert_eq!(s.remaining(), 5);
    assert!(s.advance(2));
    assert_eq!(s.remaining(), 3);
    assert_eq!(s.peek(0, 3), Some(vec![3, 4, 5]));
    assert!(s.advance(3));
    assert_eq!(s.remaining(), 0);
    s.ingest(&[9]);
    assert_eq!(s.peek(0, 1), Some(vec![9]));
}

#[test]
fn stream_header_at_cursor() {
    let mut s = ByteStream::new();
    s.ingest(&[0xEE, 0x0C, 0x16, 0xC0, 0x00, 0x00, 0x05]);
    assert!(s.advance(1));
    assert_eq!(s.header_at_cursor(), header(0, 0, 1, 1046, 3, 0, 5));
}

#[test]
fn chunked_feed_matches_single_feed() {
    let (stream, a, b) = two_packet_stream();

    let mut whole = PacketExtractor::new();
    whole.receive(&stream);
    let mut whole_headers = Vec::new();
    let mut whole_packets = Vec::new();
    while let Some(h) = whole.current_header() {
        match whole.pull_packet() {
            Some(p) => {
                whole_headers.push(h);
                whole_packets.push(p);
            }
            None => break,
        }
    }

    let mut bytewise = PacketExtractor::new();
    let mut byte_headers = Vec::new();
    let mut byte_packets = Vec::new();
    for byte in &stream {
        bytewise.receive(&[*byte]);
        if let Some(h) = bytewise.current_header() {
            if let Some(p) = bytewise.pull_packet() {
                byte_headers.push(h);
                byte_packets.push(p);
            }
        }
    }

    assert_eq!(whole_packets, vec![a, b]);
    assert_eq!(byte_packets, whole_packets);
    assert_eq!(byte_headers, whole_headers);
    assert_eq!(whole.remaining(), 0);
    assert_eq!(bytewise.remaining(), 0);
}

#[test]
fn pull_consumes_exactly_one_packet() {
    let (stream, a, _) = two_packet_stream();
    let mut e = PacketExtractor::new();
    e.receive(&stream);
    let before = e.remaining();
    let h = e.current_header().unwrap();
    let p = e.pull_packet().unwrap();
    assert_eq!(before - e.remaining(), 6 + h.length_field as usize + 1);
    assert_eq!(before - e.remaining(), 10);
    assert_eq!(p, a);
}

#[test]
fn short_packet_waits_for_more_bytes() {
    let p = packet(&header(0, 0, 0, 42, 3, 9, 3), 1);
    let mut e = PacketExtractor::new();
    e.receive(&p[..8]);
    assert_eq!(e.remaining(), 8);
    assert_eq!(e.pull_packet(), None);
    assert_eq!(e.remaining(), 8);
    assert_eq!(e.state(), ExtractorState::HeaderReady);
    e.receive(&p[8..]);
    assert_eq!(e.pull_packet(), Some(p));
    assert_eq!(e.remaining(), 0);
    assert_eq!(e.pull_packet(), None);
}

#[test]
fn short_header_waits_for_more_bytes() {
    let p = packet(&header(0, 1, 1, 7, 0, 1, 0), 0x33);
    let mut e = PacketExtractor::new();
    e.receive(&p[..5]);
    assert_eq!(e.current_header(), None);
    assert_eq!(e.pull_packet(), None);
    assert_eq!(e.remaining(), 5);
    assert_eq!(e.state(), ExtractorState::Exhausted);
    e.receive(&p[5..]);
    assert_eq!(e.state(), ExtractorState::HeaderReady);
    assert_eq!(e.pull_packet(), Some(p));
}

#[test]
fn peek_twice_is_identical() {
    let (stream, _, _) = two_packet_stream();
    let mut e = PacketExtractor::new();
    e.receive(&stream);
    let before = e.remaining();
    let first = e.current_header();
    let second = e.current_header();
    assert!(first.is_some());
    assert_eq!(first, second);
    assert_eq!(e.remaining(), before);
    assert_eq!(first.unwrap(), header(0, 0, 1, 100, 3, 7, 3));
}

#[test]
fn two_back_to_back_packets() {
    let mut stream = encode(&header(0, 0, 0, 5, 3, 0, 3));
    stream.extend_from_slice(&[1, 2, 3, 4]);
    stream.extend_from_slice(&encode(&header(0, 0, 0, 6, 3, 1, 0)));
    stream.push(9);
    assert_eq!(stream.len(), 17);
    let mut e = PacketExtractor::new();
    e.receive(&stream);
    let p1 = e.pull_packet().unwrap();
    let p2 = e.pull_packet().unwrap();
    assert_eq!(p1.len(), 10);
    assert_eq!(p2.len(), 7);
    assert_eq!(p1, stream[..10].to_vec());
    assert_eq!(p2, stream[10..].to_vec());
    assert_eq!(e.pull_packet(), None);
    assert_eq!(e.state(), ExtractorState::Exhausted);
}

#[test]
fn states_follow_the_stream() {
    let (stream, _, _) = two_packet_stream();
    let mut e = PacketExtractor::new();
    assert_eq!(e.state(), ExtractorState::Exhausted);
    e.receive(&stream);
    assert_eq!(e.state(), ExtractorState::HeaderReady);
    assert!(e.pull_packet().is_some());
    assert_eq!(e.state(), ExtractorState::Empty);
    assert!(e.current_header().is_some());
    assert_eq!(e.state(), ExtractorState::HeaderReady);
    assert!(e.pull_packet().is_some());
    assert_eq!(e.state(), ExtractorState::Exhausted);
}

#[test]
fn pull_all_takes_complete_packets_only() {
    let (stream, a, b) = two_packet_stream();
    let mut e = PacketExtractor::new();
    e.receive(&stream);
    e.receive(&[0x00, 0x01, 0x02]);
    assert_eq!(e.pull_all(), vec![a, b]);
    assert_eq!(e.remaining(), 3);
    assert_eq!(e.pull_all(), Vec::<Vec<u8>>::new());
    assert_eq!(e.remaining(), 3);
}

#[test]
fn largest_packet() {
    let p = packet(&header(0, 0, 0, 1, 3, 0, 65535), 0);
    assert_eq!(p.len(), 65542);
    let mut e = PacketExtractor::new();
    e.receive(&p[..65541]);
    assert_eq!(e.pull_packet(), None);
    e.receive(&p[65541..]);
    assert_eq!(e.pull_packet(), Some(p));
}

#[test]
fn secondary_header_flag_leaves_data_opaque() {
    let with = packet(&header(0, 0, 1, 3, 3, 0, 0), 0x77);
    let mut e = PacketExtractor::new();
    e.receive(&with);
    assert_eq!(e.pull_packet(), Some(with));
}
