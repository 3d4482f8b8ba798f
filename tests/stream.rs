use ld19::{Header, LidarCodec, Outcome, Packet};
use tokio_util::bytes::BytesMut;

const FRAME_12: [u8; 47] = [
    0x54, 0x2c, 0x10, 0x0e, 0xe8, 0x03, 0xc8, 0x00, 0xb4, 0xed, 0x00, 0xb5, 0x12, 0x01, 0xb6, 0x37,
    0x01, 0xb7, 0x5c, 0x01, 0xb8, 0x81, 0x01, 0xb9, 0xa6, 0x01, 0xba, 0xcb, 0x01, 0xbb, 0xf0, 0x01,
    0xbc, 0x15, 0x02, 0xbd, 0x3a, 0x02, 0xbe, 0x5f, 0x02, 0xbf, 0x34, 0x08, 0x39, 0x30, 0x96,
];

const FRAME_2: [u8; 17] = [
    0x54, 0x22, 0xb8, 0x0b, 0xb8, 0x88, 0xe8, 0x03, 0xc8, 0xdc, 0x05, 0xc9, 0xe8, 0x03, 0xff, 0xff,
    0x30,
];

fn packet_of(frame: &[u8]) -> Packet {
    Packet::from_described_bytes(Header::try_parse(frame).unwrap(), frame)
}

/// Decodes until the codec reports that it needs more bytes.
fn drain(codec: &mut LidarCodec, buf: &mut BytesMut, out: &mut Vec<Packet>) {
    loop {
        match codec.decode_step(buf) {
            Outcome::NeedMore(_) => return,
            Outcome::Produced(p) => out.push(p),
            Outcome::Resync | Outcome::Rejected => {}
        }
    }
}

/// Feeds the stream in chunks of `size` bytes, decoding after each chunk.
fn feed_in_chunks(stream: &[u8], size: usize) -> (Vec<Packet>, usize) {
    let mut codec = LidarCodec;
    let mut buf = BytesMut::new();
    let mut out = Vec::new();
    for chunk in stream.chunks(size) {
        buf.extend_from_slice(chunk);
        drain(&mut codec, &mut buf, &mut out);
    }
    (out, buf.len())
}

#[test]
fn short_buffer_is_left_alone() {
    let mut codec = LidarCodec;
    let mut buf = BytesMut::from(&[0x54u8][..]);
    for _ in 0..3 {
        let r = codec.decode(&mut buf).unwrap();
        assert!(r.is_none());
        assert_eq!(&buf[..], &[0x54u8][..]);
    }
    let mut empty = BytesMut::new();
    for _ in 0..3 {
        assert!(matches!(codec.decode_step(&mut empty), Outcome::NeedMore(2)));
        assert!(empty.is_empty());
    }
    assert!(matches!(codec.decode_step(&mut buf), Outcome::NeedMore(1)));
}

#[test]
fn partial_frame_needs_the_rest() {
    let mut codec = LidarCodec;
    let mut buf = BytesMut::from(&FRAME_12[..30]);
    assert!(matches!(codec.decode_step(&mut buf), Outcome::NeedMore(17)));
    assert_eq!(buf.len(), 30);
    assert!(codec.decode(&mut buf).unwrap().is_none());
    assert_eq!(&buf[..], &FRAME_12[..30]);
}

#[test]
fn whole_frame_is_produced_and_removed() {
    let mut codec = LidarCodec;
    let mut buf = BytesMut::from(&FRAME_12[..]);
    buf.extend_from_slice(&[0xaa, 0xbb]);
    let p = codec.decode(&mut buf).unwrap().unwrap();
    assert_eq!(p, packet_of(&FRAME_12));
    assert_eq!(p.start_angle, 1000);
    assert_eq!(&buf[..], &[0xaa, 0xbb]);
}

#[test]
fn decode_step_produced_outcome() {
    let mut codec = LidarCodec;
    let mut buf = BytesMut::from(&FRAME_2[..]);
    match codec.decode_step(&mut buf) {
        Outcome::Produced(p) => assert_eq!(p, packet_of(&FRAME_2)),
        other => panic!("unexpected {:?}", other),
    }
    assert!(buf.is_empty());
}

#[test]
fn one_corrupt_byte_is_dropped_then_frame_recovered() {
    let mut codec = LidarCodec;
    let mut buf = BytesMut::from(&[0x00u8][..]);
    buf.extend_from_slice(&FRAME_12);
    assert!(matches!(codec.decode_step(&mut buf), Outcome::Resync));
    assert_eq!(&buf[..], &FRAME_12[..]);
    let p = codec.decode(&mut buf).unwrap().unwrap();
    assert_eq!(p, packet_of(&FRAME_12));
    assert!(buf.is_empty());
}

#[test]
fn noise_before_frame_is_skipped_byte_by_byte() {
    let mut buf = BytesMut::from(&[0x01u8, 0x02, 0x03][..]);
    buf.extend_from_slice(&FRAME_2);
    let mut codec = LidarCodec;
    let mut out = Vec::new();
    drain(&mut codec, &mut buf, &mut out);
    assert_eq!(out, vec![packet_of(&FRAME_2)]);
    assert!(buf.is_empty());
}

#[test]
fn checksum_mismatch_drops_the_whole_frame() {
    let mut codec = LidarCodec;
    let mut bad = FRAME_12;
    bad[10] ^= 0x04;
    let mut buf = BytesMut::from(&bad[..]);
    buf.extend_from_slice(&FRAME_2);
    assert!(matches!(codec.decode_step(&mut buf), Outcome::Rejected));
    assert_eq!(&buf[..], &FRAME_2[..]);
    let mut buf = BytesMut::from(&bad[..]);
    assert!(codec.decode(&mut buf).unwrap().is_none());
    assert!(buf.is_empty());
}

#[test]
fn any_single_bit_flip_of_known_frame_is_rejected() {
    for i in 0..FRAME_12.len() {
        for k in 0..8 {
            let mut f = FRAME_12;
            f[i] ^= 1 << k;
            let (out, _) = feed_in_chunks(&f, f.len());
            assert!(out.is_empty(), "byte {} bit {}", i, k);
        }
    }
}

#[test]
fn chunking_does_not_change_the_packets() {
    let mut stream = Vec::new();
    stream.extend_from_slice(&FRAME_12);
    stream.extend_from_slice(&FRAME_2);
    stream.extend_from_slice(&FRAME_12);
    let expected = vec![packet_of(&FRAME_12), packet_of(&FRAME_2), packet_of(&FRAME_12)];
    for size in [stream.len(), 1, 2, 3, 5, 16, 47, 50] {
        let (out, left) = feed_in_chunks(&stream, size);
        assert_eq!(out, expected, "chunk size {}", size);
        assert_eq!(left, 0);
    }
}

#[test]
fn decoded_packet_encodes_back_to_its_frame() {
    let mut codec = LidarCodec;
    let mut buf = BytesMut::from(&FRAME_12[..]);
    let p = codec.decode(&mut buf).unwrap().unwrap();
    let bytes = p.as_bytes();
    assert_eq!(&bytes[..], &FRAME_12[..]);
    let mut again = BytesMut::from(&bytes[..]);
    let q = codec.decode(&mut again).unwrap().unwrap();
    assert_eq!(q, p);
}
