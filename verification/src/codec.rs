//! The frame codec and the stream model.
//!
//! Every message on a stream is one frame: a LEB128 varint length prefix
//! followed by exactly that many bytes of schema-encoded payload. Partial
//! frames never cross this API: a frame is read whole or the read fails.
//!
//! A [`Stream`] models one endpoint of a reliable, ordered duplex byte
//! channel whose remote side has finished sending: the unread incoming
//! bytes are all that will ever arrive, so a read that runs past them
//! observes the remote's close and fails with `Truncated`.

use vstd::prelude::*;
use vstd::slice::{slice_subrange, slice_to_vec};

use crate::schema::{ResponseSchema, Schema};
use crate::varint::{
    decode_varint, encode_varint, lemma_varint_decoding_bounds, lemma_varint_round_trip,
    varint_decoding, varint_encoding, VarintError,
};

verus! {

/// The largest payload length a frame may declare. A peer that declares a
/// larger length is refused before any allocation, so a hostile length
/// claim cannot exhaust memory.
pub const MAX_FRAME_SIZE: u64 = 1048576;

/// Malformed or adversarial input on the wire. A stream that produced one
/// of these is abandoned, never reused.
#[derive(Clone, Copy, PartialEq, Eq, Structural, Debug)]
pub enum DecodeError {
    /// The stream closed before the declared byte count arrived.
    Truncated,
    /// The payload bytes are not a valid encoding of the schema type.
    InvalidPayload,
    /// The declared payload length exceeds `MAX_FRAME_SIZE`.
    FrameTooLarge,
}

/// A local transport fault while writing a frame. The byte-buffer model
/// cannot fail to write, so only the unverified I/O edge produces this.
#[derive(Clone, Copy, PartialEq, Eq, Structural, Debug)]
pub enum EncodeError {
    /// The underlying transport write failed.
    Io,
}

/// One endpoint of a duplex byte channel: the bytes the remote sent before
/// closing (of which the first `pos` are already consumed), and the bytes
/// this endpoint has written so far.
#[derive(Debug)]
pub struct Stream {
    incoming: Vec<u8>,
    pos: usize,
    outgoing: Vec<u8>,
}

impl Stream {
    /// The read position never runs past the incoming bytes.
    pub closed spec fn wf(self) -> bool {
        self.pos <= self.incoming@.len()
    }

    /// The incoming bytes not yet consumed.
    pub closed spec fn remaining(self) -> Seq<u8> {
        self.incoming@.skip(self.pos as int)
    }

    /// Everything this endpoint has written, in write order.
    pub closed spec fn sent(self) -> Seq<u8> {
        self.outgoing@
    }

    /// A fresh stream holding the remote's bytes, nothing written yet.
    pub fn new(incoming: Vec<u8>) -> (r: Stream)
        ensures
            r.wf(),
            r.remaining() == incoming@,
            r.sent() == Seq::<u8>::empty(),
    {
        let r = Stream { incoming, pos: 0, outgoing: Vec::new() };
        proof {
            assert(r.remaining() =~= r.incoming@);
        }
        r
    }

    /// The bytes written so far.
    pub fn sent_bytes(&self) -> (r: &Vec<u8>)
        ensures
            r@ == self.sent(),
    {
        &self.outgoing
    }

    /// Consumes the stream and hands its written bytes over, as when the
    /// transport carries them to the peer.
    pub fn into_sent(self) -> (r: Vec<u8>)
        ensures
            r@ == self.sent(),
    {
        self.outgoing
    }

    /// How many incoming bytes are still unread.
    pub fn remaining_len(&self) -> (r: usize)
        requires
            self.wf(),
        ensures
            r == self.remaining().len(),
    {
        self.incoming.len() - self.pos
    }
}

/// The frame a payload goes out as: its length as a varint, then the
/// payload itself.
pub open spec fn frame_encoding(payload: Seq<u8>) -> Seq<u8> {
    varint_encoding(payload.len() as u64) + payload
}

/// Reads one frame from the front of `s`: the decoded value and the bytes
/// consumed, or the exact error a reader must report.
pub open spec fn frame_parse<T: Schema>(s: Seq<u8>) -> Result<(T, int), DecodeError> {
    match varint_decoding(s) {
        None => Err(DecodeError::Truncated),
        Some((n, k)) => if n > MAX_FRAME_SIZE {
            Err(DecodeError::FrameTooLarge)
        } else if s.len() - k < n {
            Err(DecodeError::Truncated)
        } else {
            match T::spec_decode(s.subrange(k, k + n)) {
                None => Err(DecodeError::InvalidPayload),
                Some(v) => Ok((v, k + n)),
            }
        },
    }
}

/// A parsed frame consumes at least one byte and at most all of `s`.
pub proof fn lemma_frame_parse_consumed<T: Schema>(s: Seq<u8>)
    ensures
        frame_parse::<T>(s) matches Ok((v, c)) ==> 1 <= c <= s.len(),
{
    lemma_varint_decoding_bounds(s);
}

/// Parsing undoes framing: a frame carrying a well-formed value, however
/// many bytes follow it on the stream, parses back to that value and
/// consumes exactly the frame.
pub proof fn lemma_frame_round_trip<T: Schema>(v: T, rest: Seq<u8>)
    requires
        v.wf(),
        v.spec_encode().len() <= MAX_FRAME_SIZE,
    ensures
        frame_parse::<T>(frame_encoding(v.spec_encode()) + rest) == Ok::<(T, int), DecodeError>(
            (v, frame_encoding(v.spec_encode()).len() as int),
        ),
{
    let p = v.spec_encode();
    let pfx = varint_encoding(p.len() as u64);
    let s = frame_encoding(p) + rest;
    assert(s =~= pfx + (p + rest));
    lemma_varint_round_trip(p.len() as u64, p + rest);
    assert(s.subrange(pfx.len() as int, pfx.len() + p.len() as int) =~= p);
    v.lemma_round_trip();
}

/// The bytes one value goes out as: the frame that `write_frame` appends.
pub fn encode_frame<T: Schema>(value: &T) -> (r: Vec<u8>)
    requires
        value.wf(),
    ensures
        r@ == frame_encoding(value.spec_encode()),
{
    let payload = value.encode();
    let mut r: Vec<u8> = Vec::new();
    encode_varint(payload.len() as u64, &mut r);
    let mut p = payload;
    r.append(&mut p);
    proof {
        assert(r@ =~= frame_encoding(value.spec_encode()));
    }
    r
}

/// Serializes `value`, writes its byte count as a varint and then the
/// payload, advancing the write side by exactly one frame; the read side is
/// untouched. Fails with [`EncodeError`] only on a transport write fault,
/// and a write into the byte-buffer model cannot fault, so here the result
/// is always `Ok`; the unverified transport edge maps its faults to
/// [`EncodeError::Io`].
pub fn write_frame<T: Schema>(value: &T, stream: &mut Stream) -> (r: Result<(), EncodeError>)
    requires
        value.wf(),
        old(stream).wf(),
    ensures
        r is Ok,
        final(stream).wf(),
        final(stream).remaining() == old(stream).remaining(),
        final(stream).sent() == old(stream).sent() + frame_encoding(value.spec_encode()),
{
    let mut frame = encode_frame(value);
    stream.outgoing.append(&mut frame);
    Ok(())
}

/// Reads one frame: a varint length, exactly that many payload bytes, and
/// the schema decode of the payload. Fails with `Truncated` if the stream
/// closes first, `FrameTooLarge` if the declared length exceeds
/// `MAX_FRAME_SIZE`, and `InvalidPayload` if the payload does not decode;
/// on failure the stream is left as it was, to be abandoned by the caller.
pub fn read_frame<T: Schema>(stream: &mut Stream) -> (r: Result<T, DecodeError>)
    requires
        old(stream).wf(),
    ensures
        final(stream).wf(),
        final(stream).sent() == old(stream).sent(),
        match r {
            Ok(v) => frame_parse::<T>(old(stream).remaining()) matches Ok((w, c)) && w == v
                && v.wf() && final(stream).remaining() == old(stream).remaining().skip(c),
            Err(e) => frame_parse::<T>(old(stream).remaining()) == Err::<(T, int), DecodeError>(e)
                && *final(stream) == *old(stream),
        },
{
    let ghost s = stream.remaining();
    match decode_varint(&stream.incoming, stream.pos) {
        Err(VarintError::Incomplete) => Err(DecodeError::Truncated),
        Err(VarintError::Overflow) => Err(DecodeError::FrameTooLarge),
        Ok((n, end)) => {
            if n > MAX_FRAME_SIZE {
                Err(DecodeError::FrameTooLarge)
            } else if n > (stream.incoming.len() - end) as u64 {
                Err(DecodeError::Truncated)
            } else {
                let len = n as usize;
                let payload_slice = slice_subrange(stream.incoming.as_slice(), end, end + len);
                let payload: Vec<u8> = slice_to_vec(payload_slice);
                proof {
                    let k = end - stream.pos;
                    assert(payload@ =~= s.subrange(k as int, k + n));
                }
                match T::decode(&payload) {
                    Err(_) => Err(DecodeError::InvalidPayload),
                    Ok(v) => {
                        stream.pos = end + len;
                        proof {
                            assert(stream.remaining() =~= s.skip(
                                (end - old(stream).pos) + n as int,
                            ));
                        }
                        Ok(v)
                    },
                }
            }
        },
    }
}

/// Reads successive frames until the first `Fin`: the frames read, in
/// order, the sentinel last, or the error of the frame that failed. The
/// bytes consumed end exactly at the sentinel's frame; whatever follows it
/// is never read.
pub open spec fn responses_parse<R: ResponseSchema>(s: Seq<u8>) -> Result<
    (Seq<R>, int),
    DecodeError,
>
    decreases s.len(),
        via responses_parse_decreases::<R>
{
    match frame_parse::<R>(s) {
        Err(e) => Err(e),
        Ok((v, c)) => if v.is_fin() {
            Ok((seq![v], c))
        } else {
            match responses_parse::<R>(s.skip(c)) {
                Err(e) => Err(e),
                Ok((rest, m)) => Ok((seq![v] + rest, c + m)),
            }
        },
    }
}

#[via_fn]
proof fn responses_parse_decreases<R: ResponseSchema>(s: Seq<u8>) {
    lemma_frame_parse_consumed::<R>(s);
}

/// The bytes a whole response sequence goes out as: one frame per response,
/// in order.
pub open spec fn frames_encoding<R: ResponseSchema>(frames: Seq<R>) -> Seq<u8>
    decreases frames.len(),
{
    if frames.len() == 0 {
        Seq::empty()
    } else {
        frame_encoding(frames[0].spec_encode()) + frames_encoding(frames.skip(1))
    }
}

/// Framing one more response extends the encoding of a sequence at its end.
pub proof fn lemma_frames_encoding_push<R: ResponseSchema>(frames: Seq<R>, x: R)
    ensures
        frames_encoding(frames.push(x)) == frames_encoding(frames) + frame_encoding(
            x.spec_encode(),
        ),
    decreases frames.len(),
{
    if frames.len() == 0 {
        assert(frames.push(x).skip(1) =~= Seq::<R>::empty());
        assert(frames.push(x)[0] == x);
        assert(frames_encoding(frames) == Seq::<u8>::empty());
        assert(frames_encoding(frames.push(x).skip(1)) == Seq::<u8>::empty());
        assert(frames_encoding(frames.push(x)) == frame_encoding(x.spec_encode())
            + frames_encoding(frames.push(x).skip(1)));
        assert(frames_encoding(frames.push(x)) =~= frames_encoding(frames) + frame_encoding(
            x.spec_encode(),
        ));
    } else {
        lemma_frames_encoding_push(frames.skip(1), x);
        assert(frames.push(x).skip(1) =~= frames.skip(1).push(x));
        assert(frames.push(x)[0] == frames[0]);
        assert(frame_encoding(frames[0].spec_encode()) + (frames_encoding(frames.skip(1))
            + frame_encoding(x.spec_encode())) =~= (frame_encoding(frames[0].spec_encode())
            + frames_encoding(frames.skip(1))) + frame_encoding(x.spec_encode()));
    }
}

/// Writes each response as one frame, in order: what a responder sends —
/// zero or more payload frames and the sentinel among them as the caller
/// chose — before handing the stream back. In the byte-buffer model a
/// write cannot fault, so the result is always `Ok`.
pub fn write_responses<R: ResponseSchema>(responses: &Vec<R>, stream: &mut Stream) -> (r: Result<
    (),
    EncodeError,
>)
    requires
        old(stream).wf(),
        forall|i: int| 0 <= i < responses@.len() ==> (#[trigger] responses@[i]).wf(),
    ensures
        r is Ok,
        final(stream).wf(),
        final(stream).remaining() == old(stream).remaining(),
        final(stream).sent() == old(stream).sent() + frames_encoding(responses@),
{
    let ghost orig = *stream;
    proof {
        assert(responses@.take(0) =~= Seq::<R>::empty());
        assert(orig.sent() + frames_encoding(responses@.take(0)) =~= orig.sent());
    }
    let mut i: usize = 0;
    while i < responses.len()
        invariant
            orig == *old(stream),
            stream.wf(),
            forall|j: int| 0 <= j < responses@.len() ==> (#[trigger] responses@[j]).wf(),
            0 <= i <= responses@.len(),
            stream.remaining() == orig.remaining(),
            stream.sent() == orig.sent() + frames_encoding(responses@.take(i as int)),
        decreases responses@.len() - i,
    {
        match write_frame(&responses[i], stream) {
            Ok(_) => {},
            Err(_) => {},
        }
        proof {
            lemma_frames_encoding_push::<R>(responses@.take(i as int), responses@[i as int]);
            assert(responses@.take(i + 1) =~= responses@.take(i as int).push(
                responses@[i as int],
            ));
            assert(orig.sent() + (frames_encoding(responses@.take(i as int)) + frame_encoding(
                responses@[i as int].spec_encode(),
            )) =~= (orig.sent() + frames_encoding(responses@.take(i as int))) + frame_encoding(
                responses@[i as int].spec_encode(),
            ));
        }
        i = i + 1;
    }
    proof {
        assert(responses@.take(responses@.len() as int) =~= responses@);
    }
    Ok(())
}

/// The unbounded-response law: a responder may write any positive number of
/// well-formed response frames whose last, and only last, is the sentinel;
/// the reading loop consumes them all, in order, stops exactly at the
/// sentinel's frame, and never touches the bytes after it.
pub proof fn lemma_responses_round_trip<R: ResponseSchema>(frames: Seq<R>, rest: Seq<u8>)
    requires
        frames.len() >= 1,
        forall|i: int| 0 <= i < frames.len() ==> (#[trigger] frames[i]).wf(),
        forall|i: int|
            0 <= i < frames.len() ==> (#[trigger] frames[i]).spec_encode().len()
                <= MAX_FRAME_SIZE,
        forall|i: int| 0 <= i < frames.len() - 1 ==> !(#[trigger] frames[i]).is_fin(),
        frames[frames.len() - 1].is_fin(),
    ensures
        responses_parse::<R>(frames_encoding(frames) + rest) == Ok::<(Seq<R>, int), DecodeError>(
            (frames, frames_encoding(frames).len() as int),
        ),
    decreases frames.len(),
{
    let f0 = frames[0];
    let tail = frames.skip(1);
    let s = frames_encoding(frames) + rest;
    assert(s =~= frame_encoding(f0.spec_encode()) + (frames_encoding(tail) + rest));
    lemma_frame_round_trip::<R>(f0, frames_encoding(tail) + rest);
    let c0 = frame_encoding(f0.spec_encode()).len() as int;
    if frames.len() == 1 {
        assert(seq![f0] =~= frames);
    } else {
        assert(!f0.is_fin());
        assert(tail[tail.len() - 1] == frames[frames.len() - 1]);
        lemma_responses_round_trip::<R>(tail, rest);
        assert(s.skip(c0) =~= frames_encoding(tail) + rest);
        assert(seq![f0] + tail =~= frames);
    }
}

/// The response-reading loop of the initiator: reads frames in order until
/// the first `Fin` frame, which it returns as the last element, and never
/// issues a read past it. Fails exactly where the first failing frame
/// does, leaving the stream to be abandoned.
pub fn read_responses<R: ResponseSchema>(stream: &mut Stream) -> (r: Result<Vec<R>, DecodeError>)
    requires
        old(stream).wf(),
    ensures
        final(stream).wf(),
        final(stream).sent() == old(stream).sent(),
        match r {
            Ok(rs) => responses_parse::<R>(old(stream).remaining()) matches Ok((frames, c))
                && rs@ == frames
                && final(stream).remaining() == old(stream).remaining().skip(c),
            Err(e) => responses_parse::<R>(old(stream).remaining()) == Err::<
                (Seq<R>, int),
                DecodeError,
            >(e),
        },
{
    let ghost orig = *stream;
    let ghost mut consumed: int = 0;
    let mut out: Vec<R> = Vec::new();
    loop
        invariant
            orig == *old(stream),
            stream.wf(),
            stream.sent() == orig.sent(),
            0 <= consumed <= orig.remaining().len(),
            stream.remaining() == orig.remaining().skip(consumed),
            match responses_parse::<R>(stream.remaining()) {
                Ok((frames, c)) => responses_parse::<R>(orig.remaining()) == Ok::<
                    (Seq<R>, int),
                    DecodeError,
                >((out@ + frames, consumed + c)),
                Err(e) => responses_parse::<R>(orig.remaining()) == Err::<
                    (Seq<R>, int),
                    DecodeError,
                >(e),
            },
        decreases stream.remaining().len(),
    {
        let ghost before = *stream;
        match read_frame::<R>(stream) {
            Err(e) => {
                return Err(e);
            },
            Ok(v) => {
                proof {
                    lemma_frame_parse_consumed::<R>(before.remaining());
                }
                let ghost parsed = frame_parse::<R>(before.remaining())->Ok_0;
                let ghost c = parsed.1;
                let ghost out_before = out@;
                let fin = v.check_fin();
                out.push(v);
                proof {
                    assert(out@ =~= out_before + seq![v]);
                    assert(orig.remaining().skip(consumed).skip(c) =~= orig.remaining().skip(
                        consumed + c,
                    ));
                }
                if fin {
                    return Ok(out);
                }
                proof {
                    if responses_parse::<R>(stream.remaining()) is Ok {
                        let frames = responses_parse::<R>(stream.remaining())->Ok_0.0;
                        assert((out_before + (seq![v] + frames)) =~= (out@ + frames));
                    }
                    consumed = consumed + c;
                }
            },
        }
    }
}

} // verus!
