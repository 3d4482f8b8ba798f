//! The streaming decoder: one call looks at the front of the caller's buffer
//! and either asks for more bytes, drops one byte to resynchronise, drops a
//! whole frame whose checksum fails, or takes a whole frame and decodes it.
use tokio_util::bytes::BytesMut;
use vstd::prelude::*;

use crate::buffer::{buffer_advance, buffer_reserve, buffer_split_to, buffered, buffered_slice};
use crate::crc::{calc_crc, crc_of, lemma_crc_detects_one_change};
use crate::decoder::{frame_len, Header, Packet, ParseError, HEADER_BYTES, INDICATOR};

verus! {

/// The buffer starts with a whole frame: the indicator, then at least as
/// many bytes as the version/count byte announces.
pub open spec fn has_frame(b: Seq<u8>) -> bool {
    &&& b.len() >= 2
    &&& b[0] == INDICATOR
    &&& b.len() >= frame_len(b[1])
}

/// The frame at the front of a buffer for which `has_frame` holds.
pub open spec fn front_frame(b: Seq<u8>) -> Seq<u8> {
    b.take(frame_len(b[1]) as int)
}

/// The last byte of a frame is the checksum of all the bytes before it.
pub open spec fn crc_matches(f: Seq<u8>) -> bool {
    f.len() >= 1 && crc_of(f.drop_last()) == f.last()
}

/// A frame that the decoder accepts on its own: indicator, announced length
/// and checksum all agree.
pub open spec fn frame_ok(f: Seq<u8>) -> bool {
    has_frame(f) && f.len() == frame_len(f[1]) && crc_matches(f)
}

/// How many bytes one decoding step removes from the front of `b`: none
/// while bytes are missing, one that cannot start a frame, or a whole frame.
pub open spec fn consumed(b: Seq<u8>) -> nat {
    if b.len() < 2 {
        0
    } else if b[0] != INDICATOR {
        1
    } else if b.len() < frame_len(b[1]) {
        0
    } else {
        frame_len(b[1])
    }
}

/// How many more bytes the next productive step needs.
pub open spec fn needed(b: Seq<u8>) -> nat {
    if b.len() < 2 {
        (2 - b.len()) as nat
    } else if b[0] == INDICATOR && b.len() < frame_len(b[1]) {
        (frame_len(b[1]) - b.len()) as nat
    } else {
        0
    }
}

/// The result of one decoding step.
#[derive(Debug)]
pub enum Outcome {
    /// Nothing was removed: this many more bytes are needed.
    NeedMore(usize),
    /// The first byte could not start a frame and was dropped.
    Resync,
    /// A whole frame was removed whose checksum did not match.
    Rejected,
    /// A whole frame was removed and decoded.
    Produced(Packet),
}

/// The frame decoder. It keeps no state: everything lives in the caller's
/// buffer.
pub struct LidarCodec;

impl LidarCodec {
    /// One decoding step on the front of `src`, with a distinct outcome for
    /// each case.
    pub fn decode_step(&mut self, src: &mut BytesMut) -> (r: Outcome)
        ensures
            buffered(*final(src)) == buffered(*old(src)).skip(consumed(buffered(*old(src))) as int),
            r is NeedMore <==> consumed(buffered(*old(src))) == 0,
            r is NeedMore ==> r->NeedMore_0 == needed(buffered(*old(src))),
            r is Resync <==> (buffered(*old(src)).len() >= 2 && buffered(*old(src))[0]
                != INDICATOR),
            r is Rejected <==> (has_frame(buffered(*old(src))) && !crc_matches(
                front_frame(buffered(*old(src))),
            )),
            r is Produced <==> (has_frame(buffered(*old(src))) && crc_matches(
                front_frame(buffered(*old(src))),
            )),
            r is Produced ==> r->Produced_0.decodes(
                Header { header: INDICATOR, ver_len: buffered(*old(src))[1] },
                front_frame(buffered(*old(src))),
            ),
    {
        let ghost b = buffered(*src);
        let current_len = buffered_slice(src).len();
        if current_len < HEADER_BYTES {
            buffer_reserve(src, HEADER_BYTES - current_len);
            return Outcome::NeedMore(HEADER_BYTES - current_len);
        }
        let parsed = Header::try_parse(buffered_slice(src));
        match parsed {
            Ok(header) => {
                let described = header.described_bytes();
                if current_len < described {
                    buffer_reserve(src, described - current_len);
                    return Outcome::NeedMore(described - current_len);
                }
                let packet_data = buffer_split_to(src, described);
                let frame = buffered_slice(&packet_data);
                assert(frame@ == front_frame(b));
                // the checksum covers every byte of the frame but its last
                let expected = Packet::get_crc_from_described_bytes(&header, frame);
                let actual = calc_crc(frame, described - 1);
                assert(frame@.take(described - 1) =~= frame@.drop_last());
                if expected != actual {
                    return Outcome::Rejected;
                }
                Outcome::Produced(Packet::from_described_bytes(header, frame))
            },
            Err(_) => {
                buffer_advance(src, 1);
                Outcome::Resync
            },
        }
    }

    /// One decoding step, as a byte-stream decoder reports it: a packet where
    /// a whole frame with a matching checksum was taken, otherwise nothing.
    /// Dropped bytes and rejected frames are not errors.
    pub fn decode(&mut self, src: &mut BytesMut) -> (r: Result<Option<Packet>, ParseError>)
        ensures
            r is Ok,
            buffered(*final(src)) == buffered(*old(src)).skip(consumed(buffered(*old(src))) as int),
            buffered(*old(src)).len() < 2 ==> buffered(*final(src)) == buffered(*old(src)),
            r->Ok_0 is Some <==> (has_frame(buffered(*old(src))) && crc_matches(
                front_frame(buffered(*old(src))),
            )),
            r->Ok_0 is Some ==> r->Ok_0->Some_0.decodes(
                Header { header: INDICATOR, ver_len: buffered(*old(src))[1] },
                front_frame(buffered(*old(src))),
            ),
    {
        let ghost b = buffered(*src);
        let r = match self.decode_step(src) {
            Outcome::Produced(packet) => Some(packet),
            _ => None,
        };
        assert(b.len() < 2 ==> b.skip(0) =~= b);
        Ok(r)
    }
}

/// What decoding steps make of a buffer, stepping until one asks for more
/// bytes: the accepted frames in order, and the bytes left in the buffer.
/// Each accepted frame decodes to the packet that the step produced.
pub open spec fn drain(b: Seq<u8>) -> (Seq<Seq<u8>>, Seq<u8>)
    decreases b.len(),
{
    if consumed(b) == 0 {
        (Seq::empty(), b)
    } else {
        let rest = drain(b.skip(consumed(b) as int));
        if has_frame(b) && crc_matches(front_frame(b)) {
            (seq![front_frame(b)] + rest.0, rest.1)
        } else {
            rest
        }
    }
}

/// The chunks of a stream, one after the other.
pub open spec fn joined(chunks: Seq<Seq<u8>>) -> Seq<u8>
    decreases chunks.len(),
{
    if chunks.len() == 0 {
        Seq::empty()
    } else {
        joined(chunks.drop_last()) + chunks.last()
    }
}

/// A stream fed chunk by chunk into an empty buffer, with decoding steps
/// after each chunk until one asks for more bytes: the accepted frames in
/// order, and the bytes left in the buffer.
pub open spec fn feed(chunks: Seq<Seq<u8>>) -> (Seq<Seq<u8>>, Seq<u8>)
    decreases chunks.len(),
{
    if chunks.len() == 0 {
        (Seq::empty(), Seq::empty())
    } else {
        let before = feed(chunks.drop_last());
        let after = drain(before.1 + chunks.last());
        (before.0 + after.0, after.1)
    }
}

/// A step that removes bytes depends only on the bytes that it removes.
proof fn lemma_step_on_prefix(x: Seq<u8>, y: Seq<u8>)
    requires
        consumed(x) > 0,
    ensures
        consumed(x) <= x.len(),
        consumed(x + y) == consumed(x),
        has_frame(x + y) == has_frame(x),
        has_frame(x) ==> front_frame(x + y) == front_frame(x),
        (x + y).skip(consumed(x) as int) == x.skip(consumed(x) as int) + y,
{
    let xy = x + y;
    assert(xy[0] == x[0] && xy[1] == x[1]);
    if has_frame(x) {
        assert(front_frame(xy) =~= front_frame(x));
    }
    assert(xy.skip(consumed(x) as int) =~= x.skip(consumed(x) as int) + y);
}

/// Decoding `x` and then, after more bytes `y` arrive, decoding what was
/// left followed by `y`, accepts the same frames and leaves the same bytes
/// as decoding `x + y` at once.
pub proof fn lemma_drain_append(x: Seq<u8>, y: Seq<u8>)
    ensures
        drain(x + y) == (drain(x).0 + drain(drain(x).1 + y).0, drain(drain(x).1 + y).1),
    decreases x.len(),
{
    if consumed(x) == 0 {
        assert(drain(x).0 + drain(x + y).0 =~= drain(x + y).0);
    } else {
        let n = consumed(x) as int;
        lemma_step_on_prefix(x, y);
        let xs = x.skip(n);
        lemma_drain_append(xs, y);
        let later = drain(drain(xs).1 + y);
        if has_frame(x) && crc_matches(front_frame(x)) {
            assert(seq![front_frame(x)] + (drain(xs).0 + later.0) =~= (seq![front_frame(x)]
                + drain(xs).0) + later.0);
        }
    }
}

/// Fragmentation independence: however a stream is cut into chunks, feeding
/// them accepts the same frames, in the same order, and leaves the same
/// bytes as decoding the whole stream at once.
pub proof fn lemma_feed_is_drain(chunks: Seq<Seq<u8>>)
    ensures
        feed(chunks) == drain(joined(chunks)),
    decreases chunks.len(),
{
    if chunks.len() > 0 {
        lemma_feed_is_drain(chunks.drop_last());
        lemma_drain_append(joined(chunks.drop_last()), chunks.last());
    }
}

/// Fragmentation independence between two cuts of one stream: both accept
/// the same frames in the same order and leave the same bytes.
pub proof fn lemma_chunking_invariant(a: Seq<Seq<u8>>, b: Seq<Seq<u8>>)
    requires
        joined(a) == joined(b),
    ensures
        feed(a) == feed(b),
{
    lemma_feed_is_drain(a);
    lemma_feed_is_drain(b);
}

/// A valid frame at the front of a buffer is accepted whole, whatever follows.
proof fn lemma_drain_frame(f: Seq<u8>, rest: Seq<u8>)
    requires
        frame_ok(f),
    ensures
        drain(f + rest) == (seq![f] + drain(rest).0, drain(rest).1),
{
    lemma_drain_append(f, rest);
    assert(f.skip(f.len() as int) =~= Seq::<u8>::empty());
    assert(front_frame(f) =~= f);
    assert(drain(Seq::<u8>::empty()).0 =~= Seq::<Seq<u8>>::empty());
    assert(Seq::<u8>::empty() + rest =~= rest);
}

/// A stream of valid frames, decoded at once, yields exactly those frames.
proof fn lemma_drain_frames(frames: Seq<Seq<u8>>)
    requires
        forall|i: int| 0 <= i < frames.len() ==> frame_ok(#[trigger] frames[i]),
    ensures
        drain(joined(frames)) == (frames, Seq::<u8>::empty()),
    decreases frames.len(),
{
    if frames.len() == 0 {
        assert(drain(Seq::<u8>::empty()).0 =~= Seq::<Seq<u8>>::empty());
    } else {
        let init = frames.drop_last();
        let last = frames.last();
        assert(frame_ok(frames[frames.len() - 1]));
        lemma_drain_frames(init);
        lemma_drain_append(joined(init), last);
        lemma_drain_frame(last, Seq::empty());
        assert(last + Seq::<u8>::empty() =~= last);
        assert(Seq::<u8>::empty() + last =~= last);
        assert(drain(Seq::<u8>::empty()).0 =~= Seq::<Seq<u8>>::empty());
        assert(init + seq![last] =~= frames);
    }
}

/// A stream of valid frames, cut into chunks in any way, yields exactly
/// those frames in order and leaves nothing in the buffer.
pub proof fn lemma_fragmentation_independence(frames: Seq<Seq<u8>>, chunks: Seq<Seq<u8>>)
    requires
        forall|i: int| 0 <= i < frames.len() ==> frame_ok(#[trigger] frames[i]),
        joined(chunks) == joined(frames),
    ensures
        feed(chunks) == (frames, Seq::<u8>::empty()),
{
    lemma_feed_is_drain(chunks);
    lemma_drain_frames(frames);
}

/// Resynchronisation: one byte that cannot start a frame, put before a valid
/// frame, is dropped alone, and the frame is then accepted.
pub proof fn lemma_resync(x: u8, f: Seq<u8>, rest: Seq<u8>)
    requires
        x != INDICATOR,
        frame_ok(f),
    ensures
        consumed(seq![x] + f + rest) == 1,
        (seq![x] + f + rest).skip(1) == f + rest,
        drain(seq![x] + f + rest) == (seq![f] + drain(rest).0, drain(rest).1),
{
    let b = seq![x] + f + rest;
    assert(b[0] == x);
    assert(b.skip(1) =~= f + rest);
    lemma_drain_frame(f, rest);
}

/// A changed byte anywhere in a valid frame (a flipped bit among them) makes
/// the frame invalid: the checksum, or the announced length, no longer agrees.
pub proof fn lemma_one_changed_byte_rejected(f: Seq<u8>, i: int, v: u8)
    requires
        frame_ok(f),
        0 <= i < f.len(),
        v != f[i],
    ensures
        !frame_ok(f.update(i, v)),
{
    let g = f.update(i, v);
    if i < f.len() - 1 {
        lemma_crc_detects_one_change(f.drop_last(), g.drop_last(), i);
        assert(g.last() == f.last());
    } else {
        assert(g.drop_last() =~= f.drop_last());
    }
}

} // verus!
