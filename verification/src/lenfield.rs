//! A simple concrete codec: each frame is carried as one length byte
//! followed by that many payload bytes. It exists to exercise the transport
//! and to state the codec laws — round-trip and order preservation — in a
//! provable form.

use vstd::prelude::*;
use bytes::BytesMut;
use vstd::slice::{slice_index_get, slice_to_vec};
use crate::bytebuf::{buf_bytes, buf_len, buf_slice, buf_split_to};
use crate::codec::{Codec, Decoded};

verus! {

/// The largest payload one frame can carry: its length must fit the single
/// length byte.
pub const MAX_FRAME: usize = 255;

/// The error of `LenCodec`: encoding only fails on an oversized payload;
/// decoding never fails, since every byte sequence is a prefix of some
/// well-formed wire.
#[derive(Clone, Copy, Debug, PartialEq, Eq, Structural)]
pub enum LenCodecError {
    FrameTooLong,
}

/// The length-prefixed codec. It is stateless: both decode steps are the
/// same function of the buffer contents.
#[derive(Clone, Copy, PartialEq, Eq, Structural, Debug)]
pub struct LenCodec;

/// The wire form of one frame: a length byte, then the payload.
pub open spec fn len_enc(frame: Seq<u8>) -> Seq<u8> {
    seq![frame.len() as u8] + frame
}

/// Whether one frame fits the length prefix.
pub open spec fn frame_fits(frame: Seq<u8>) -> bool {
    frame.len() <= MAX_FRAME
}

/// What one decode step does: if the buffer holds the length byte and the
/// full payload it announces, the payload is the frame and the header and
/// payload are consumed; otherwise more bytes are needed.
pub open spec fn first_frame(bytes: Seq<u8>) -> Decoded<Seq<u8>, LenCodecError> {
    if bytes.len() >= 1 && bytes.len() >= 1 + (bytes[0] as int) {
        Decoded::Frame(bytes.subrange(1, 1 + (bytes[0] as int)), 1 + (bytes[0] as int))
    } else {
        Decoded::Incomplete
    }
}

impl Codec for LenCodec {
    type Item = Vec<u8>;

    type Error = LenCodecError;

    open spec fn enc(&self, item: Seq<u8>) -> Seq<u8> {
        len_enc(item)
    }

    open spec fn enc_ok(&self, item: Seq<u8>) -> bool {
        frame_fits(item)
    }

    open spec fn enc_err(&self, item: Seq<u8>) -> LenCodecError {
        LenCodecError::FrameTooLong
    }

    open spec fn dec(&self, bytes: Seq<u8>) -> Decoded<Seq<u8>, LenCodecError> {
        first_frame(bytes)
    }

    open spec fn dec_eof(&self, bytes: Seq<u8>) -> Decoded<Seq<u8>, LenCodecError> {
        first_frame(bytes)
    }

    fn encode(&mut self, item: Vec<u8>, buf: &mut BytesMut) -> (r: Result<(), LenCodecError>) {
        if item.len() > MAX_FRAME {
            return Err(LenCodecError::FrameTooLong);
        }
        let mut header: Vec<u8> = Vec::new();
        header.push(item.len() as u8);
        crate::bytebuf::buf_extend(buf, header.as_slice());
        crate::bytebuf::buf_extend(buf, item.as_slice());
        proof {
            assert(buf_bytes(*buf) =~= buf_bytes(*old(buf)) + len_enc(item@));
        }
        Ok(())
    }

    fn decode(&mut self, buf: &mut BytesMut) -> (r: Result<Option<Vec<u8>>, LenCodecError>) {
        let total = buf_len(buf);
        if total == 0 {
            return Ok(None);
        }
        let head = buf_slice(buf);
        let announced: u8 = *slice_index_get(head, 0);
        let need: usize = 1 + (announced as usize);
        if total < need {
            return Ok(None);
        }
        let ghost b0 = buf_bytes(*buf);
        let _header = buf_split_to(buf, 1);
        let body = buf_split_to(buf, announced as usize);
        let frame = slice_to_vec(buf_slice(&body));
        proof {
            assert(frame@ =~= b0.subrange(1, 1 + (b0[0] as int)));
            assert(buf_bytes(*buf) =~= b0.skip(1 + (b0[0] as int)));
        }
        Ok(Some(frame))
    }

    fn decode_eof(&mut self, buf: &mut BytesMut) -> (r: Result<Option<Vec<u8>>, LenCodecError>) {
        self.decode(buf)
    }
}

/// The wire form of a whole sequence of frames, in order.
pub open spec fn wire_of(frames: Seq<Seq<u8>>) -> Seq<u8>
    decreases frames.len(),
{
    if frames.len() == 0 {
        Seq::empty()
    } else {
        len_enc(frames[0]) + wire_of(frames.skip(1))
    }
}

/// The frames a byte sequence decodes to, when it parses completely:
/// `None` means the bytes end in the middle of a frame.
pub open spec fn frames_of(bytes: Seq<u8>) -> Option<Seq<Seq<u8>>>
    decreases bytes.len(),
{
    if bytes.len() == 0 {
        Some(Seq::empty())
    } else if bytes.len() >= 1 + (bytes[0] as int) {
        match frames_of(bytes.skip(1 + (bytes[0] as int))) {
            Some(rest) => Some(seq![bytes.subrange(1, 1 + (bytes[0] as int))] + rest),
            None => None,
        }
    } else {
        None
    }
}

/// Order preservation: submitting one more frame appends its encoding at
/// the tail of the wire, so the wire carries the frames' bytes in exactly
/// the submission order.
pub proof fn lemma_wire_append(frames: Seq<Seq<u8>>, frame: Seq<u8>)
    ensures
        wire_of(frames.push(frame)) == wire_of(frames) + len_enc(frame),
    decreases frames.len(),
{
    if frames.len() == 0 {
        assert(frames.push(frame).skip(1) =~= Seq::<Seq<u8>>::empty());
        assert(frames.push(frame)[0] == frame);
        assert(wire_of(frames.push(frame)) == len_enc(frame) + wire_of(
            frames.push(frame).skip(1),
        ));
        assert(len_enc(frame) + Seq::<u8>::empty() =~= len_enc(frame));
        assert(wire_of(frames) + len_enc(frame) =~= len_enc(frame));
    } else {
        assert(frames.push(frame).skip(1) =~= frames.skip(1).push(frame));
        lemma_wire_append(frames.skip(1), frame);
        assert(wire_of(frames.push(frame)) =~= wire_of(frames) + len_enc(frame));
    }
}

/// Partial-read robustness: the decode step is prefix-stable. Once the
/// buffered bytes yield a frame, delivering further bytes — in whatever
/// chunks the channel happens to produce — changes neither the frame nor
/// the bytes it consumes, so what is decoded depends only on the byte
/// sequence itself, never on how reads were split.
pub proof fn lemma_first_frame_prefix_stable(bytes: Seq<u8>, more: Seq<u8>)
    requires
        !(first_frame(bytes) matches Decoded::Incomplete),
    ensures
        first_frame(bytes + more) == first_frame(bytes),
{
    let both = bytes + more;
    assert(bytes.len() >= 1 && bytes.len() >= 1 + (bytes[0] as int));
    assert(both[0] == bytes[0]);
    assert(both.subrange(1, 1 + (both[0] as int)) =~= bytes.subrange(1, 1 + (bytes[0] as int)));
}

/// The transport-level round trip, carried pull by pull: on a wire that
/// parses completely, one decode step yields exactly the first parsed frame,
/// and what remains is a wire that parses to exactly the remaining frames.
/// Together with the transport's pull contract — each emitted frame is what
/// one decode step gives on the delivered bytes, consumed from the head —
/// repeated pulls walk the parsed sequence in order to its clean end.
pub proof fn lemma_frames_step(bytes: Seq<u8>)
    requires
        bytes.len() > 0,
        !(frames_of(bytes) is None),
    ensures
        match (frames_of(bytes), first_frame(bytes)) {
            (Some(fs), Decoded::Frame(f, used)) => fs.len() > 0 && f == fs[0] && frames_of(
                bytes.skip(used),
            ) == Some(fs.skip(1)),
            _ => false,
        },
{
    let fs = frames_of(bytes).unwrap();
    let f = bytes.subrange(1, 1 + (bytes[0] as int));
    let rest = frames_of(bytes.skip(1 + (bytes[0] as int))).unwrap();
    assert(fs == seq![f] + rest);
    assert(fs[0] == f);
    assert(fs.skip(1) =~= rest);
}

/// Round-trip: the wire built by encoding any sequence of frames that fit
/// the length prefix decodes back to exactly that sequence, in order.
pub proof fn lemma_round_trip(frames: Seq<Seq<u8>>)
    requires
        forall|i: int| 0 <= i < frames.len() ==> (#[trigger] frames[i]).len() <= MAX_FRAME,
    ensures
        frames_of(wire_of(frames)) == Some(frames),
    decreases frames.len(),
{
    if frames.len() == 0 {
        assert(frames =~= Seq::<Seq<u8>>::empty());
    } else {
        let f0 = frames[0];
        let rest = frames.skip(1);
        let w = wire_of(frames);
        assert(w == len_enc(f0) + wire_of(rest));
        assert(w.len() == 1 + f0.len() + wire_of(rest).len());
        assert(w[0] == f0.len() as u8);
        assert(f0.len() <= MAX_FRAME);
        assert(w[0] as int == f0.len());
        assert(w.subrange(1, 1 + (w[0] as int)) =~= f0);
        assert(w.skip(1 + (w[0] as int)) =~= wire_of(rest));
        lemma_round_trip(rest);
        assert(seq![f0] + rest =~= frames);
    }
}

} // verus!
