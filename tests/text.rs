use ld19::{Header, Packet, ParseError, Payload};

const FRAME_2: [u8; 17] = [
    0x54, 0x22, 0xb8, 0x0b, 0xb8, 0x88, 0xe8, 0x03, 0xc8, 0xdc, 0x05, 0xc9, 0xe8, 0x03, 0xff, 0xff,
    0x30,
];

#[test]
fn parse_error_messages() {
    assert_eq!(ParseError::InvalidHeader.to_string(), "invalid header");
    assert_eq!(ParseError::InvalidPredata.to_string(), "invalid predata");
    assert_eq!(ParseError::InvalidPayloadLength.to_string(), "invalid payload length");
    assert_eq!(ParseError::InvalidPayload.to_string(), "invalid payload");
    assert_eq!(ParseError::InvalidPostdata.to_string(), "invalid postdata");
    assert_eq!(ParseError::DescribedLengthMismatch.to_string(), "described length mismatch");
    let io = std::io::Error::new(std::io::ErrorKind::Other, "link down");
    assert_eq!(ParseError::Io(io).to_string(), "link down");
}

#[test]
fn header_text() {
    let h = Header { header: 0x54, ver_len: 0x2c };
    assert_eq!(h.to_string(), "Header { indicator: 84, version: 1, length (payload count): 12 }");
    let h = Header { header: 0x54, ver_len: 0x00 };
    assert_eq!(h.to_string(), "Header { indicator: 84, version: 0, length (payload count): 0 }");
}

#[test]
fn payload_text() {
    let p = Payload { distance: 65535, intensity: 0 };
    assert_eq!(p.to_string(), "Payload { distance: 65535, intensity: 0 }");
    let p = Payload { distance: 10, intensity: 109 };
    assert_eq!(p.to_string(), "Payload { distance: 10, intensity: 109 }");
}

#[test]
fn packet_text() {
    let header = Header::try_parse(&FRAME_2).unwrap();
    let p = Packet::from_described_bytes(header, &FRAME_2);
    assert_eq!(
        p.to_string(),
        "Packet timestamped (ms): 65535 { version: 1, degrees per second: 3000, \
         starting angle: 35000, ending angle: 1000, data points: [\
         Payload { distance: 1000, intensity: 200 }, Payload { distance: 1500, intensity: 201 }\
         ], crc: 48 }"
    );
}

#[test]
fn packet_text_without_samples() {
    let p = Packet {
        header: Header { header: 0x54, ver_len: 0x40 },
        speed: 0,
        start_angle: 7,
        data: vec![],
        end_angle: 8,
        timestamp: 9,
        crc: 1,
    };
    assert_eq!(
        p.to_string(),
        "Packet timestamped (ms): 9 { version: 2, degrees per second: 0, starting angle: 7, \
         ending angle: 8, data points: [], crc: 1 }"
    );
}
