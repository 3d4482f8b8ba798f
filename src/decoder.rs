//! The frame layout: header, samples and packet, with their decoding from
//! and encoding to wire bytes. Multi-byte fields are little-endian.
//!
//! | offset  | bytes | field                                     |
//! |---------|-------|-------------------------------------------|
//! | 0       | 1     | indicator                                 |
//! | 1       | 1     | version (bits 7-5) / sample count (4-0)   |
//! | 2       | 2     | rotation speed                            |
//! | 4       | 2     | start angle (centidegrees)                |
//! | 6       | 3 N   | samples: distance (2 bytes), intensity    |
//! | 6 + 3N  | 2     | end angle (centidegrees)                  |
//! | 8 + 3N  | 2     | timestamp (ms)                            |
//! | 10 + 3N | 1     | checksum                                  |
use vstd::prelude::*;

verus! {

/// Bytes of the frame header.
pub const HEADER_BYTES: usize = 2;

/// First byte of every frame.
pub const INDICATOR: u8 = 0x54;

/// The version/count byte of the common frame with twelve samples.
pub const VER_LEN_DEFAULT: u8 = 0x2c;

/// Bytes of one sample on the wire.
pub const PAYLOAD_BYTES: usize = 3;

/// Bytes of a frame besides its header and samples: speed, both angles,
/// timestamp and checksum.
pub const TRAILER_BYTES: usize = 9;

/// Offset of the rotation speed in a frame.
pub const IDX_SPEED: usize = 2;

/// Offset of the start angle in a frame.
pub const IDX_START_ANGLE: usize = 4;

/// Offset of the first sample in a frame.
pub const IDX_PAYLOAD: usize = 6;

/// Offset of the timestamp after the end of the samples.
pub const OFST_TIMESTAMP: usize = 2;

/// Offset of the checksum after the end of the samples.
pub const OFST_CRC: usize = 4;

/// The little-endian value of the two bytes `lo`, `hi`.
pub open spec fn le16(lo: u8, hi: u8) -> u16 {
    (lo as int + 256 * (hi as int)) as u16
}

/// The two little-endian bytes of `v`.
pub open spec fn le16_bytes(v: u16) -> Seq<u8> {
    seq![(v % 256) as u8, (v / 256) as u8]
}

/// The number of samples that a version/count byte announces: its low five bits.
pub open spec fn sample_count(ver_len: u8) -> nat {
    (ver_len % 32) as nat
}

/// The length of the frame that a version/count byte announces.
pub open spec fn frame_len(ver_len: u8) -> nat {
    2 + 3 * sample_count(ver_len) + 9
}

/// The sample whose three bytes start at offset `i` of `b`.
pub open spec fn payload_at(b: Seq<u8>, i: int) -> Payload {
    Payload { distance: le16(b[i], b[i + 1]), intensity: b[i + 2] }
}

/// The `n` samples of the frame `b`, in wire order.
pub open spec fn payloads_at(b: Seq<u8>, n: nat) -> Seq<Payload> {
    Seq::new(n, |k: int| payload_at(b, 6 + 3 * k))
}

/// The wire bytes of one sample.
pub open spec fn payload_wire(p: Payload) -> Seq<u8> {
    le16_bytes(p.distance).push(p.intensity)
}

/// The wire bytes of a sequence of samples, one after the other.
pub open spec fn payloads_wire(s: Seq<Payload>) -> Seq<u8>
    decreases s.len(),
{
    if s.len() == 0 {
        Seq::empty()
    } else {
        payloads_wire(s.drop_last()) + payload_wire(s.last())
    }
}

/// Reads the little-endian `u16` at offset `at` of `bytes`.
fn read_u16_le(bytes: &[u8], at: usize) -> (v: u16)
    requires
        at + 1 < bytes@.len(),
    ensures
        v == le16(bytes@[at as int], bytes@[at + 1]),
{
    let lo = bytes[at] as u16;
    let hi = bytes[at + 1] as u16;
    lo + hi * 256
}

/// Appends the two little-endian bytes of `v` to `out`.
fn push_u16_le(out: &mut Vec<u8>, v: u16)
    ensures
        final(out)@ == old(out)@ + le16_bytes(v),
{
    out.push((v % 256) as u8);
    out.push((v / 256) as u8);
    assert(final(out)@ =~= old(out)@ + le16_bytes(v));
}

/// The ways in which bytes fail to form a frame, and failures of the byte
/// source.
#[derive(Debug)]
pub enum ParseError {
    InvalidHeader,
    InvalidPredata,
    InvalidPayloadLength,
    InvalidPayload,
    InvalidPostdata,
    DescribedLengthMismatch,
    Io(std::io::Error),
}

/// std's I/O error, carried through `ParseError::Io` and never looked into.
#[verifier::external_type_specification]
#[verifier::external_body]
pub struct ExIoError(std::io::Error);

impl From<std::io::Error> for ParseError {
    fn from(e: std::io::Error) -> (r: ParseError)
        ensures
            r == ParseError::Io(e),
    {
        ParseError::Io(e)
    }
}

impl vstd::std_specs::convert::FromSpecImpl<std::io::Error> for ParseError {
    open spec fn obeys_from_spec() -> bool {
        true
    }

    open spec fn from_spec(e: std::io::Error) -> ParseError {
        ParseError::Io(e)
    }
}

/// The two header bytes of a frame: the indicator and the version/count byte.
#[derive(Debug, Clone, Copy, PartialEq, Eq, Structural)]
pub struct Header {
    pub header: u8,
    pub ver_len: u8,
}

impl Header {
    /// Parses a header that starts with the indicator byte; any version/count
    /// byte is taken.
    pub fn try_parse(bytes: &[u8]) -> (r: Result<Header, ParseError>)
        requires
            bytes@.len() >= 2,
        ensures
            bytes@[0] == INDICATOR <==> r is Ok,
            r is Ok ==> r->Ok_0 == (Header { header: INDICATOR, ver_len: bytes@[1] }),
            r is Err ==> r->Err_0 is InvalidHeader,
    {
        if bytes[0] != INDICATOR {
            return Err(ParseError::InvalidHeader);
        }
        Ok(Header { header: INDICATOR, ver_len: bytes[1] })
    }

    /// Parses a header that starts with the indicator byte followed by the
    /// version/count byte of the twelve-sample frame.
    pub fn try_parse_strict(bytes: &[u8]) -> (r: Result<Header, ParseError>)
        ensures
            (bytes@.len() >= 2 && bytes@[0] == INDICATOR && bytes@[1] == VER_LEN_DEFAULT)
                <==> r is Ok,
            r is Ok ==> r->Ok_0 == (Header { header: INDICATOR, ver_len: VER_LEN_DEFAULT }),
            r is Err ==> r->Err_0 is InvalidHeader,
    {
        if bytes.len() < HEADER_BYTES {
            return Err(ParseError::InvalidHeader);
        }
        if bytes[0] != INDICATOR {
            return Err(ParseError::InvalidHeader);
        }
        if bytes[1] != VER_LEN_DEFAULT {
            return Err(ParseError::InvalidHeader);
        }
        Ok(Header { header: INDICATOR, ver_len: bytes[1] })
    }

    /// The version: the high three bits of the version/count byte.
    pub fn version(&self) -> (v: usize)
        ensures
            v == self.ver_len / 32,
    {
        let b = self.ver_len;
        assert(b >> 5u8 == b / 32) by (bit_vector);
        (b >> 5u8) as usize
    }

    /// The number of samples: the low five bits of the version/count byte.
    pub fn payload_count(&self) -> (n: usize)
        ensures
            n == sample_count(self.ver_len),
    {
        let b = self.ver_len;
        assert(b & 0x1f == b % 32) by (bit_vector);
        (b & 0x1f) as usize
    }

    /// The number of bytes that the samples take.
    pub fn payload_bytes(&self) -> (n: usize)
        ensures
            n == 3 * sample_count(self.ver_len),
    {
        self.payload_count() * PAYLOAD_BYTES
    }

    /// The length of the whole frame that this header announces.
    pub fn described_bytes(&self) -> (n: usize)
        ensures
            n == frame_len(self.ver_len),
    {
        HEADER_BYTES + self.payload_bytes() + TRAILER_BYTES
    }
}

/// One sample: a distance in millimetres and its intensity (confidence).
#[derive(Debug, Clone, Copy, PartialEq, Eq, Structural)]
pub struct Payload {
    pub distance: u16,
    pub intensity: u8,
}

impl Payload {
    /// Decodes a sample from the first three bytes of `bytes`, which must
    /// hold at least that many.
    pub fn try_from_bytes(bytes: &[u8]) -> (r: Result<Payload, ParseError>)
        ensures
            bytes@.len() >= 3 <==> r is Ok,
            r is Ok ==> r->Ok_0 == payload_at(bytes@, 0),
            r is Err ==> r->Err_0 is InvalidPayloadLength,
    {
        if bytes.len() < PAYLOAD_BYTES {
            return Err(ParseError::InvalidPayloadLength);
        }
        Ok(Payload::from_bytes(bytes))
    }

    /// Decodes a sample from the first three bytes of `bytes`.
    pub fn from_bytes(bytes: &[u8]) -> (p: Payload)
        requires
            bytes@.len() >= 3,
        ensures
            p == payload_at(bytes@, 0),
    {
        let distance = read_u16_le(bytes, 0);
        let intensity = bytes[2];
        Payload { distance, intensity }
    }
}

/// A decoded frame.
#[derive(Debug, Clone, PartialEq, Eq)]
pub struct Packet {
    pub header: Header,
    pub speed: u16,
    pub start_angle: u16,
    pub data: Vec<Payload>,
    pub end_angle: u16,
    pub timestamp: u16,
    pub crc: u8,
}

impl Packet {
    /// The header starts with the indicator and announces as many samples
    /// as the packet holds.
    pub open spec fn wf(&self) -> bool {
        &&& self.header.header == INDICATOR
        &&& self.data@.len() == sample_count(self.header.ver_len)
    }

    /// This packet is what the frame bytes `b` decode to under `header`:
    /// each field is read at its offset, the samples in wire order.
    pub open spec fn decodes(&self, header: Header, b: Seq<u8>) -> bool {
        let n = sample_count(header.ver_len);
        let end: int = 6 + 3 * n as int;
        &&& self.header == header
        &&& self.speed == le16(b[2], b[3])
        &&& self.start_angle == le16(b[4], b[5])
        &&& self.data@ == payloads_at(b, n)
        &&& self.end_angle == le16(b[end], b[end + 1])
        &&& self.timestamp == le16(b[end + 2], b[end + 3])
        &&& self.crc == b[end + 4]
    }

    /// The wire bytes of this packet.
    pub open spec fn wire(&self) -> Seq<u8> {
        seq![self.header.header, self.header.ver_len] + le16_bytes(self.speed) + le16_bytes(
            self.start_angle,
        ) + payloads_wire(self.data@) + le16_bytes(self.end_angle) + le16_bytes(self.timestamp)
            + seq![self.crc]
    }

    /// Decodes the frame in `bytes` under `header`, which must hold the whole
    /// announced frame.
    pub fn try_from_described_bytes(header: Header, bytes: &[u8]) -> (r: Result<
        Packet,
        ParseError,
    >)
        ensures
            bytes@.len() >= frame_len(header.ver_len) <==> r is Ok,
            r is Ok ==> r->Ok_0.decodes(header, bytes@),
            r is Err ==> r->Err_0 is DescribedLengthMismatch,
    {
        if bytes.len() < header.described_bytes() {
            return Err(ParseError::DescribedLengthMismatch);
        }
        Ok(Packet::from_described_bytes(header, bytes))
    }

    /// Decodes the frame in `bytes` under `header`. No field is checked.
    pub fn from_described_bytes(header: Header, bytes: &[u8]) -> (p: Packet)
        requires
            bytes@.len() >= frame_len(header.ver_len),
        ensures
            p.decodes(header, bytes@),
    {
        let speed = read_u16_le(bytes, IDX_SPEED);
        let start_angle = read_u16_le(bytes, IDX_START_ANGLE);
        let count = header.payload_count();
        let mut data: Vec<Payload> = Vec::new();
        let mut i: usize = 0;
        while i < count
            invariant
                count == sample_count(header.ver_len),
                bytes@.len() >= frame_len(header.ver_len),
                i <= count,
                data@ == payloads_at(bytes@, i as nat),
            decreases count - i,
        {
            let at = IDX_PAYLOAD + i * PAYLOAD_BYTES;
            let sample = Payload::from_bytes(&bytes[at..at + PAYLOAD_BYTES]);
            data.push(sample);
            assert(data@ =~= payloads_at(bytes@, (i + 1) as nat));
            i = i + 1;
        }
        let idx_payload_end: usize = IDX_PAYLOAD + data.len() * PAYLOAD_BYTES;
        let end_angle = read_u16_le(bytes, idx_payload_end);
        let timestamp = read_u16_le(bytes, idx_payload_end + OFST_TIMESTAMP);
        let crc = bytes[idx_payload_end + OFST_CRC];
        Packet { header, speed, start_angle, data, end_angle, timestamp, crc }
    }

    /// The checksum byte of the frame in `bytes` under `header`, which must
    /// hold the whole announced frame.
    pub fn try_get_crc_from_described_bytes(header: &Header, bytes: &[u8]) -> (r: Result<
        u8,
        ParseError,
    >)
        ensures
            bytes@.len() >= frame_len(header.ver_len) <==> r is Ok,
            r is Ok ==> r->Ok_0 == bytes@[frame_len(header.ver_len) - 1],
            r is Err ==> r->Err_0 is DescribedLengthMismatch,
    {
        if bytes.len() < header.described_bytes() {
            return Err(ParseError::DescribedLengthMismatch);
        }
        Ok(Packet::get_crc_from_described_bytes(header, bytes))
    }

    /// The checksum byte of the frame in `bytes` under `header`: the last
    /// byte of the announced frame.
    pub fn get_crc_from_described_bytes(header: &Header, bytes: &[u8]) -> (crc: u8)
        requires
            bytes@.len() >= frame_len(header.ver_len),
        ensures
            crc == bytes@[frame_len(header.ver_len) - 1],
    {
        let idx_payload_end: usize = IDX_PAYLOAD + header.payload_bytes();
        bytes[idx_payload_end + OFST_CRC]
    }

    /// Encodes the packet into its wire bytes.
    pub fn as_bytes(&self) -> (bytes: Vec<u8>)
        ensures
            bytes@ == self.wire(),
    {
        let mut bytes: Vec<u8> = Vec::new();
        bytes.push(self.header.header);
        bytes.push(self.header.ver_len);
        push_u16_le(&mut bytes, self.speed);
        push_u16_le(&mut bytes, self.start_angle);
        let ghost prefix = bytes@;
        assert(prefix =~= seq![self.header.header, self.header.ver_len] + le16_bytes(self.speed)
            + le16_bytes(self.start_angle));
        let mut i: usize = 0;
        while i < self.data.len()
            invariant
                i <= self.data@.len(),
                bytes@ == prefix + payloads_wire(self.data@.take(i as int)),
            decreases self.data@.len() - i,
        {
            let sample = self.data[i];
            assert(self.data@.take(i + 1).drop_last() =~= self.data@.take(i as int));
            push_u16_le(&mut bytes, sample.distance);
            bytes.push(sample.intensity);
            assert(bytes@ =~= prefix + payloads_wire(self.data@.take(i + 1)));
            i = i + 1;
        }
        assert(self.data@.take(self.data@.len() as int) =~= self.data@);
        push_u16_le(&mut bytes, self.end_angle);
        push_u16_le(&mut bytes, self.timestamp);
        bytes.push(self.crc);
        assert(bytes@ =~= self.wire());
        bytes
    }

    /// The length in bytes of the packet's frame.
    pub fn length_in_bytes(&self) -> (n: usize)
        requires
            2 + 3 * self.data@.len() + 9 <= usize::MAX,
        ensures
            n == 2 + 3 * self.data@.len() + 9,
    {
        HEADER_BYTES + self.data.len() * PAYLOAD_BYTES + TRAILER_BYTES
    }
}

/// The bytes of sample `k` in the wire bytes of a sequence of samples.
proof fn lemma_payloads_wire(s: Seq<Payload>)
    ensures
        payloads_wire(s).len() == 3 * s.len(),
        forall|k: int|
            #![trigger s[k]]
            0 <= k < s.len() ==> {
                &&& payloads_wire(s)[3 * k] == (s[k].distance % 256) as u8
                &&& payloads_wire(s)[3 * k + 1] == (s[k].distance / 256) as u8
                &&& payloads_wire(s)[3 * k + 2] == s[k].intensity
            },
    decreases s.len(),
{
    if s.len() > 0 {
        let init = s.drop_last();
        lemma_payloads_wire(init);
        assert forall|k: int| #![trigger s[k]] 0 <= k < s.len() implies {
            &&& payloads_wire(s)[3 * k] == (s[k].distance % 256) as u8
            &&& payloads_wire(s)[3 * k + 1] == (s[k].distance / 256) as u8
            &&& payloads_wire(s)[3 * k + 2] == s[k].intensity
        } by {
            if k < init.len() {
                assert(init[k] == s[k]);
            }
        }
    }
}

/// Round trip from a packet: decoding the wire bytes of a well-formed packet
/// under its own header gives back every field of it.
pub proof fn lemma_round_trip(p: Packet, q: Packet)
    requires
        p.wf(),
        q.decodes(p.header, p.wire()),
    ensures
        p.wire().len() == frame_len(p.header.ver_len),
        q.header == p.header,
        q.speed == p.speed,
        q.start_angle == p.start_angle,
        q.data@ == p.data@,
        q.end_angle == p.end_angle,
        q.timestamp == p.timestamp,
        q.crc == p.crc,
{
    let w = p.wire();
    let n = p.data@.len();
    let pw = payloads_wire(p.data@);
    lemma_payloads_wire(p.data@);
    let pre = seq![p.header.header, p.header.ver_len] + le16_bytes(p.speed) + le16_bytes(
        p.start_angle,
    );
    let post = le16_bytes(p.end_angle) + le16_bytes(p.timestamp) + seq![p.crc];
    assert(w =~= pre + pw + post);
    assert forall|k: int| 0 <= k < n implies #[trigger] payload_at(w, 6 + 3 * k) == p.data@[k] by {
        assert(w[6 + 3 * k] == pw[3 * k]);
        assert(w[6 + 3 * k + 1] == pw[3 * k + 1]);
        assert(w[6 + 3 * k + 2] == pw[3 * k + 2]);
    }
    assert(q.data@ =~= p.data@);
}

/// Round trip from a frame: the wire bytes of the packet that a whole frame
/// decodes to are that frame.
pub proof fn lemma_encode_decoded(q: Packet, f: Seq<u8>)
    requires
        f.len() == frame_len(q.header.ver_len),
        f[0] == q.header.header,
        f[1] == q.header.ver_len,
        q.decodes(q.header, f),
    ensures
        q.wire() == f,
{
    let w = q.wire();
    let n = q.data@.len();
    let pw = payloads_wire(q.data@);
    lemma_payloads_wire(q.data@);
    let pre = seq![q.header.header, q.header.ver_len] + le16_bytes(q.speed) + le16_bytes(
        q.start_angle,
    );
    let post = le16_bytes(q.end_angle) + le16_bytes(q.timestamp) + seq![q.crc];
    assert(w =~= pre + pw + post);
    assert forall|j: int| 0 <= j < 3 * n implies #[trigger] pw[j] == f[6 + j] by {
        let k = j / 3;
        assert(q.data@[k] == payload_at(f, 6 + 3 * k));
        if j % 3 == 0 {
            assert(j == 3 * k);
        } else if j % 3 == 1 {
            assert(j == 3 * k + 1);
        } else {
            assert(j == 3 * k + 2);
        }
    }
    assert(w =~= f);
}

} // verus!
