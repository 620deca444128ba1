//! The framed transport: a unified frame-producing and frame-consuming
//! interface over an underlying byte channel, using a codec to translate
//! between frames and bytes.
//!
//! The read path (`poll_next`) buffers bytes from the channel and pulls
//! complete frames out of them; the write path (`start_send`, `poll_ready`)
//! encodes frames into a write buffer and drains that buffer to the channel,
//! rejecting new frames with a backpressure signal once the buffer reaches a
//! fixed high-water mark.

use vstd::prelude::*;
use bytes::BytesMut;
use crate::bytebuf::{buf_bytes, buf_new, buf_len, buf_is_empty, buf_reserve, buf_slice,
    buf_split_to};
use crate::channel::{ByteChannel, ChannelError, Progress};
use crate::codec::{Codec, Decoded};

verus! {

/// Initial capacity of the read and write buffers, in bytes.
pub const INITIAL_CAPACITY: usize = 8 * 1024;

/// The high-water mark: once the write buffer holds at least this many
/// bytes, `start_send` first tries to drain it, and rejects the submission
/// with a backpressure signal if it is still at or above the mark.
pub const BACKPRESSURE_BOUNDARY: usize = 8 * 1024;

/// An error surfaced by the transport.
#[derive(Debug)]
pub enum FramedError<E> {
    /// The underlying channel reported an error; it is passed on verbatim.
    Channel(ChannelError),
    /// A write call accepted zero bytes while bytes remained to send: the
    /// channel is presumed closed or broken, and the drain is aborted.
    WriteZero,
    /// The channel closed with leftover bytes that do not assemble into a
    /// final frame: a truncated message.
    TrailingBytes,
    /// The codec rejected the bytes being decoded or the item being encoded.
    Codec(E),
}

/// The transport's answer to one submitted item.
#[derive(Debug)]
pub enum SendOutcome<T> {
    /// The item was encoded and appended to the write buffer.
    Accepted,
    /// Backpressure: the write buffer was at or above the high-water mark
    /// even after one drain attempt. The item is handed back and must be
    /// retried before any later item, once a drain has made room.
    Rejected(T),
}

/// A framed transport: owns a byte channel, a codec, a read buffer and a
/// write buffer.
#[derive(Debug)]
pub struct Framed<S, C> {
    io: S,
    codec: C,
    read_buf: BytesMut,
    write_buf: BytesMut,
    eof: bool,
    is_readable: bool,
    done: bool,
}

impl<S, C> Framed<S, C> {
    /// The owned channel.
    pub closed spec fn spec_io(&self) -> S {
        self.io
    }

    /// The owned codec.
    pub closed spec fn spec_codec(&self) -> C {
        self.codec
    }

    /// The bytes received from the channel and not yet consumed into frames.
    pub closed spec fn rbytes(&self) -> Seq<u8> {
        buf_bytes(self.read_buf)
    }

    /// The encoded bytes not yet written to the channel.
    pub closed spec fn wbytes(&self) -> Seq<u8> {
        buf_bytes(self.write_buf)
    }

    /// Whether the channel has reported end-of-stream; once true, never reset.
    pub closed spec fn eof(&self) -> bool {
        self.eof
    }

    /// Whether the read buffer should be offered to the decoder again before
    /// more bytes are requested from the channel.
    pub closed spec fn readable(&self) -> bool {
        self.is_readable
    }

    /// Whether the read sequence has ended, by a clean end or by an error
    /// item. The terminal state is sticky: once set it never clears, and
    /// every further pull reports end-of-sequence.
    pub closed spec fn done(&self) -> bool {
        self.done
    }

    /// Combines one channel and one codec into a transport with empty
    /// buffers.
    pub fn new(io: S, codec: C) -> (r: Self)
        ensures
            r.spec_io() == io,
            r.spec_codec() == codec,
            r.rbytes() == Seq::<u8>::empty(),
            r.wbytes() == Seq::<u8>::empty(),
            !r.eof(),
            !r.readable(),
            !r.done(),
    {
        Framed {
            io,
            codec,
            read_buf: buf_new(INITIAL_CAPACITY),
            write_buf: buf_new(INITIAL_CAPACITY),
            eof: false,
            is_readable: false,
            done: false,
        }
    }

    /// A reference to the underlying channel.
    pub fn get_ref(&self) -> (r: &S)
        ensures
            *r == self.spec_io(),
    {
        &self.io
    }

    /// A mutable reference to the underlying channel: the reference
    /// designates the owned channel handle, and the call itself changes
    /// nothing else of the transport.
    ///
    /// Care should be taken not to tamper with the incoming byte stream, as
    /// that may corrupt the stream of frames.
    pub fn get_mut(&mut self) -> (r: &mut S)
        ensures
            *r == old(self).spec_io(),
            final(self).spec_io() == *final(r),
            final(self).spec_codec() == old(self).spec_codec(),
            final(self).rbytes() == old(self).rbytes(),
            final(self).wbytes() == old(self).wbytes(),
            final(self).eof() == old(self).eof(),
            final(self).readable() == old(self).readable(),
            final(self).done() == old(self).done(),
    {
        &mut self.io
    }

    /// A reference to the underlying codec.
    pub fn get_codec(&self) -> (r: &C)
        ensures
            *r == self.spec_codec(),
    {
        &self.codec
    }

    /// A mutable reference to the underlying codec: the reference designates
    /// the owned codec instance, and the call itself changes nothing else of
    /// the transport. Codec state, such as a partially matched delimiter,
    /// lives here.
    pub fn get_codec_mut(&mut self) -> (r: &mut C)
        ensures
            *r == old(self).spec_codec(),
            final(self).spec_codec() == *final(r),
            final(self).spec_io() == old(self).spec_io(),
            final(self).rbytes() == old(self).rbytes(),
            final(self).wbytes() == old(self).wbytes(),
            final(self).eof() == old(self).eof(),
            final(self).readable() == old(self).readable(),
            final(self).done() == old(self).done(),
    {
        &mut self.codec
    }

    /// Dissolves the transport, returning the underlying channel. Buffered
    /// but unflushed write bytes are lost: callers needing durability must
    /// drain and flush first.
    pub fn into_inner(self) -> (r: S)
        ensures
            r == self.spec_io(),
    {
        let Framed { io, .. } = self;
        io
    }
}

impl<S, C> Framed<S, C> {
    /// Well-formedness: end-of-stream is only ever recorded together with
    /// the readable flag, so the remaining buffer is offered to the decoder
    /// before the sequence can end. `new` establishes this and every method
    /// preserves it; the transition rules of the readable flag are
    /// load-bearing for termination of the read loop.
    pub open spec fn wf(&self) -> bool {
        self.eof() ==> self.readable()
    }
}

impl<S: ByteChannel, C> Framed<S, C> {
    /// All the bytes still ahead of the decoder: the buffered ones first,
    /// then whatever the channel will still deliver.
    pub open spec fn in_total(&self) -> Seq<u8> {
        self.rbytes() + self.spec_io().inbox()
    }
}

impl<S: ByteChannel, C: Codec> Framed<S, C> {
    /// One pull on the read path: yields the next decoded frame, a decode or
    /// channel error, a clean end-of-sequence (`Ready(None)`), or `Pending`
    /// when the channel cannot deliver more bytes right now.
    ///
    /// The write side is never touched. Bytes only ever move from the head
    /// of the channel's incoming stream into the read buffer and from the
    /// head of the read buffer into the decoder, so the unconsumed bytes
    /// after the call are a suffix of the unconsumed bytes before it, and a
    /// pull that yields no item consumes nothing at all. The sequence is
    /// terminal: any error item, the clean end, and the one frame the
    /// end-of-stream decode may yield all set the sticky done state, after
    /// which every pull reports end-of-sequence and changes nothing — so the
    /// end-of-stream decode is invoked exactly once.
    pub fn poll_next(&mut self) -> (r: Progress<Option<Result<C::Item, FramedError<C::Error>>>>)
        requires
            old(self).wf(),
        ensures
            final(self).wf(),
            final(self).wbytes() == old(self).wbytes(),
            final(self).spec_io().outbox() == old(self).spec_io().outbox(),
            old(self).eof() ==> final(self).eof(),
            old(self).done() ==> final(self).done(),
            // The terminal state is sticky: at the end of the sequence every
            // pull reports end-of-sequence and nothing moves.
            old(self).done() ==> (r matches Progress::Ready(None)) && *final(self) == *old(self),
            // Every error item ends the sequence, and so does the clean end;
            // a frame never comes out of an ended sequence.
            (r matches Progress::Ready(Some(rr)) && rr matches Err(_)) ==> final(self).done(),
            r matches Progress::Ready(None) ==> final(self).done(),
            (r matches Progress::Ready(Some(rr)) && rr matches Ok(_)) ==> !old(self).done() && (
            final(self).done() <==> final(self).eof()),
            // A pull that yields no item consumes no byte.
            r matches Progress::Pending ==> final(self).in_total() == old(self).in_total(),
            (r matches Progress::Ready(Some(rr)) && rr matches Err(e)
                && e matches FramedError::Channel(_)) ==> final(self).in_total() == old(
                self,
            ).in_total(),
            // Bytes are consumed only from the head, in order.
            exists|k: int|
                0 <= k <= old(self).in_total().len()
                    && final(self).in_total() == old(self).in_total().skip(k),
            // The clean end is first reached only at end-of-stream with
            // nothing left over.
            (!old(self).done() && r matches Progress::Ready(None)) ==> final(self).eof()
                && final(self).rbytes().len() == 0,
            // A trailing-bytes error comes only at end-of-stream with
            // leftover bytes.
            (r matches Progress::Ready(Some(rr)) && rr matches Err(e)
                && e matches FramedError::TrailingBytes) ==> final(self).eof()
                && final(self).rbytes().len() != 0,
            // At end-of-stream with the buffer pending decode, the outcome is
            // exactly what the end-of-stream decode step says: a final frame,
            // a clean end on an empty buffer, a trailing-bytes error on a
            // non-empty one, or the codec's own error.
            !old(self).done() && old(self).readable() && old(self).eof() ==> ({
                &&& final(self).spec_io() == old(self).spec_io()
                &&& final(self).eof()
                &&& final(self).readable()
                &&& match old(self).spec_codec().dec_eof(old(self).rbytes()) {
                    Decoded::Frame(v, used) => {
                        &&& (r matches Progress::Ready(Some(rr)) && rr matches Ok(f) && f@ == v)
                        &&& final(self).rbytes() == old(self).rbytes().skip(used)
                        &&& final(self).done()
                    },
                    Decoded::Incomplete => {
                        &&& final(self).rbytes() == old(self).rbytes()
                        &&& if old(self).rbytes().len() == 0 {
                            r matches Progress::Ready(None)
                        } else {
                            r matches Progress::Ready(Some(rr)) && rr matches Err(e)
                                && e matches FramedError::TrailingBytes
                        }
                    },
                    Decoded::Malformed(e) => {
                        &&& (r matches Progress::Ready(Some(rr)) && rr matches Err(e2)
                            && e2 == FramedError::<C::Error>::Codec(e))
                        &&& final(self).rbytes() == old(self).rbytes()
                    },
                }
            }),
            // Before end-of-stream, a buffer holding a complete frame or
            // malformed bytes is settled by the decoder alone, without
            // touching the channel.
            !old(self).done() && old(self).readable() && !old(self).eof() ==> match old(
                self,
            ).spec_codec().dec(old(self).rbytes()) {
                Decoded::Frame(v, used) => {
                    &&& (r matches Progress::Ready(Some(rr)) && rr matches Ok(f) && f@ == v)
                    &&& final(self).rbytes() == old(self).rbytes().skip(used)
                    &&& final(self).spec_io() == old(self).spec_io()
                    &&& final(self).eof() == old(self).eof()
                    &&& final(self).readable()
                },
                Decoded::Malformed(e) => {
                    &&& (r matches Progress::Ready(Some(rr)) && rr matches Err(e2)
                        && e2 == FramedError::<C::Error>::Codec(e))
                    &&& final(self).spec_io() == old(self).spec_io()
                    &&& final(self).rbytes() == old(self).rbytes()
                    &&& final(self).eof() == old(self).eof()
                    &&& final(self).readable()
                },
                Decoded::Incomplete => true,
            },
            // Any frame emitted before end-of-stream was recorded is exactly
            // what the decoder gives on the buffered bytes plus a delivered
            // prefix of the channel's incoming bytes, with the buffer
            // advanced by exactly what that decode step consumed: no frame
            // is fabricated, dropped or reordered on the way out.
            match r {
                Progress::Ready(Some(Ok(f))) => (!old(self).done() && !old(self).eof())
                    ==> exists|p: int|
                    {
                        &&& 0 <= p <= old(self).spec_io().inbox().len()
                        &&& final(self).spec_io().inbox() == old(self).spec_io().inbox().skip(p)
                        &&& (final(self).eof() ==> p == old(self).spec_io().inbox().len())
                        &&& match (if final(self).eof() {
                            old(self).spec_codec().dec_eof(
                                old(self).rbytes() + old(self).spec_io().inbox().take(p),
                            )
                        } else {
                            old(self).spec_codec().dec(
                                old(self).rbytes() + old(self).spec_io().inbox().take(p),
                            )
                        }) {
                            Decoded::Frame(v, used) => f@ == v && final(self).rbytes() == (old(
                                self,
                            ).rbytes() + old(self).spec_io().inbox().take(p)).skip(used),
                            _ => false,
                        }
                    },
                _ => true,
            },
            // Once the channel has nothing more to deliver and the buffer
            // cannot yield another frame, the pull reaches end-of-stream and
            // settles it exactly as the end-of-stream decode says — unless
            // the channel itself reports an error or no progress first.
            (!old(self).done() && !old(self).eof() && old(self).spec_io().inbox().len() == 0 && (
            !old(self).readable() || old(self).spec_codec().dec(old(self).rbytes())
                matches Decoded::Incomplete)) ==> ({
                ||| r matches Progress::Pending
                ||| (r matches Progress::Ready(Some(rr)) && rr matches Err(e)
                    && e matches FramedError::Channel(_))
                ||| ({
                    &&& final(self).eof()
                    &&& final(self).readable()
                    &&& match old(self).spec_codec().dec_eof(old(self).rbytes()) {
                        Decoded::Frame(v, used) => {
                            &&& (r matches Progress::Ready(Some(rr)) && rr matches Ok(f) && f@
                                == v)
                            &&& final(self).rbytes() == old(self).rbytes().skip(used)
                            &&& final(self).done()
                        },
                        Decoded::Incomplete => {
                            &&& final(self).rbytes() == old(self).rbytes()
                            &&& if old(self).rbytes().len() == 0 {
                                r matches Progress::Ready(None)
                            } else {
                                r matches Progress::Ready(Some(rr)) && rr matches Err(e)
                                    && e matches FramedError::TrailingBytes
                            }
                        },
                        Decoded::Malformed(e) => {
                            &&& (r matches Progress::Ready(Some(rr)) && rr matches Err(e2)
                                && e2 == FramedError::<C::Error>::Codec(e))
                            &&& final(self).rbytes() == old(self).rbytes()
                        },
                    }
                })
            }),
    {
        if self.done {
            proof {
                assert(self.in_total() =~= old(self).in_total().skip(0));
            }
            return Progress::Ready(None);
        }
        let ghost mut delivered: int = 0;
        proof {
            assert(old(self).rbytes() + old(self).spec_io().inbox().take(0) =~= old(
                self,
            ).rbytes());
            assert(old(self).spec_io().inbox().skip(0) =~= old(self).spec_io().inbox());
        }
        loop
            invariant
                self.wf(),
                !self.done(),
                !old(self).done(),
                self.wbytes() == old(self).wbytes(),
                self.spec_io().outbox() == old(self).spec_io().outbox(),
                self.spec_codec() == old(self).spec_codec(),
                old(self).eof() ==> self.eof(),
                0 <= delivered <= old(self).spec_io().inbox().len(),
                self.rbytes() == old(self).rbytes() + old(self).spec_io().inbox().take(delivered),
                self.spec_io().inbox() == old(self).spec_io().inbox().skip(delivered),
                self.eof() && !old(self).eof() ==> delivered == old(self).spec_io().inbox().len(),
                old(self).readable() && old(self).eof() ==> *self == *old(self),
                old(self).readable() && !old(self).eof() && !(old(self).spec_codec().dec(
                    old(self).rbytes(),
                ) matches Decoded::Incomplete) ==> *self == *old(self),
                (!old(self).eof() && old(self).spec_io().inbox().len() == 0 && (!old(
                    self,
                ).readable() || old(self).spec_codec().dec(old(self).rbytes())
                    matches Decoded::Incomplete)) ==> (*self == *old(self) || (self.eof()
                    && self.readable())),
            decreases 2 * self.spec_io().inbox().len() + (if self.eof() {
                0int
            } else {
                1int
            }),
        {
            if self.is_readable {
                if self.eof {
                    proof {
                        assert(self.in_total() =~= old(self).in_total());
                        assert(old(self).in_total().skip(0) =~= old(self).in_total());
                        if delivered == 0 {
                            assert(self.rbytes() =~= old(self).rbytes());
                        }
                    }
                    let ghost pre = *self;
                    match self.codec.decode_eof(&mut self.read_buf) {
                        Ok(Some(frame)) => {
                            self.done = true;
                            proof {
                                if let Decoded::Frame(v, used) = pre.spec_codec().dec_eof(
                                    pre.rbytes(),
                                ) {
                                    let fed = old(self).rbytes() + old(
                                        self,
                                    ).spec_io().inbox().take(delivered);
                                    assert(pre.rbytes() == fed);
                                    assert(self.rbytes() == fed.skip(used));
                                    assert(self.in_total() =~= old(self).in_total().skip(used));
                                }
                            }
                            return Progress::Ready(Some(Ok(frame)));
                        },
                        Ok(None) => {
                            self.done = true;
                            if buf_is_empty(&self.read_buf) {
                                return Progress::Ready(None);
                            }
                            return Progress::Ready(Some(Err(FramedError::TrailingBytes)));
                        },
                        Err(e) => {
                            self.done = true;
                            return Progress::Ready(Some(Err(FramedError::Codec(e))));
                        },
                    }
                }

                let ghost pre = *self;
                match self.codec.decode(&mut self.read_buf) {
                    Ok(Some(frame)) => {
                        proof {
                            if let Decoded::Frame(v, used) = pre.spec_codec().dec(pre.rbytes()) {
                                let fed = old(self).rbytes() + old(
                                    self,
                                ).spec_io().inbox().take(delivered);
                                assert(pre.rbytes() == fed);
                                assert(self.rbytes() == fed.skip(used));
                                assert(self.in_total() =~= old(self).in_total().skip(used));
                            }
                        }
                        return Progress::Ready(Some(Ok(frame)));
                    },
                    Ok(None) => {
                        self.is_readable = false;
                    },
                    Err(e) => {
                        proof {
                            assert(self.in_total() =~= old(self).in_total());
                            assert(old(self).in_total().skip(0) =~= old(self).in_total());
                        }
                        self.done = true;
                        return Progress::Ready(Some(Err(FramedError::Codec(e))));
                    },
                }
            }

            // Request more bytes. Room for at least one byte is guaranteed,
            // so a zero-byte result is an unambiguous end-of-stream signal,
            // never a buffer-full artifact.
            buf_reserve(&mut self.read_buf, 1);
            let ghost pre = *self;
            match self.io.read(&mut self.read_buf) {
                Progress::Pending => {
                    proof {
                        assert(self.in_total() =~= old(self).in_total());
                        assert(old(self).in_total().skip(0) =~= old(self).in_total());
                    }
                    return Progress::Pending;
                },
                Progress::Ready(Err(e)) => {
                    proof {
                        assert(self.in_total() =~= old(self).in_total());
                        assert(old(self).in_total().skip(0) =~= old(self).in_total());
                    }
                    self.done = true;
                    return Progress::Ready(Some(Err(FramedError::Channel(e))));
                },
                Progress::Ready(Ok(n)) => {
                    proof {
                        let inb = old(self).spec_io().inbox();
                        assert(inb.take(delivered) + inb.skip(delivered).take(n as int)
                            =~= inb.take(delivered + n));
                        assert(self.rbytes() =~= old(self).rbytes() + inb.take(delivered + n));
                        assert(self.spec_io().inbox() =~= inb.skip(delivered + n));
                        if pre.spec_io().inbox().len() == 0 {
                            assert(self.rbytes() =~= pre.rbytes());
                            assert(self.spec_io().inbox() =~= pre.spec_io().inbox());
                        }
                        delivered = delivered + n as int;
                    }
                    if n == 0 {
                        self.eof = true;
                    }
                    self.is_readable = true;
                },
            }
        }
    }

    /// Drain-and-flush: writes the buffered bytes to the channel, removing
    /// from the head of the write buffer exactly what the channel accepted,
    /// then flushes the channel. A write call that accepts zero bytes while
    /// bytes remain aborts the drain with `WriteZero` at once — it is never
    /// treated as success or retried. `Pending` means the channel could not
    /// absorb more right now; calling again resumes from the exact buffer
    /// state left behind. Idempotent once it completes with an empty buffer.
    pub fn poll_ready(&mut self) -> (r: Progress<Result<(), FramedError<C::Error>>>)
        ensures
            final(self).done() == old(self).done(),
            final(self).spec_io().inbox() == old(self).spec_io().inbox(),
            final(self).spec_codec() == old(self).spec_codec(),
            final(self).rbytes() == old(self).rbytes(),
            final(self).eof() == old(self).eof(),
            final(self).readable() == old(self).readable(),
            // Bytes move only from the head of the write buffer to the tail
            // of the channel's accepted bytes, in order, with no loss and no
            // duplication.
            exists|k: int|
                0 <= k <= old(self).wbytes().len() && final(self).spec_io().outbox() == old(
                    self,
                ).spec_io().outbox() + old(self).wbytes().take(k) && final(self).wbytes() == old(
                    self,
                ).wbytes().skip(k),
            // Success means everything buffered went out and the channel was
            // flushed.
            (r matches Progress::Ready(rr) && rr matches Ok(_)) ==> final(self).wbytes().len()
                == 0 && final(self).spec_io().outbox() == old(self).spec_io().outbox() + old(
                self,
            ).wbytes() && final(self).spec_io().is_flushed(),
            // The zero-progress error leaves the unsent bytes in place.
            (r matches Progress::Ready(rr) && rr matches Err(e)
                && e matches FramedError::WriteZero) ==> final(self).wbytes().len() > 0,
            // A drain never raises a codec or trailing-bytes error.
            match r {
                Progress::Ready(Err(e)) => e matches FramedError::Channel(_)
                    || e matches FramedError::WriteZero,
                _ => true,
            },
    {
        let ghost w0 = self.wbytes();
        let ghost mut sent: int = 0;
        proof {
            assert(w0.take(0) =~= Seq::<u8>::empty());
            assert(self.spec_io().outbox() + w0.take(0) =~= self.spec_io().outbox());
            assert(w0.skip(0) =~= w0);
        }
        while !buf_is_empty(&self.write_buf)
            invariant
                0 <= sent <= w0.len(),
                self.spec_io().outbox() == old(self).spec_io().outbox() + w0.take(sent),
                self.wbytes() == w0.skip(sent),
                w0 == old(self).wbytes(),
                self.spec_io().inbox() == old(self).spec_io().inbox(),
                self.codec == old(self).codec,
                self.read_buf == old(self).read_buf,
                self.eof == old(self).eof,
                self.is_readable == old(self).is_readable,
                self.done == old(self).done,
            decreases self.wbytes().len(),
        {
            let ghost pre = *self;
            let n = match self.io.write(buf_slice(&self.write_buf)) {
                Progress::Pending => {
                    return Progress::Pending;
                },
                Progress::Ready(Err(e)) => {
                    return Progress::Ready(Err(FramedError::Channel(e)));
                },
                Progress::Ready(Ok(n)) => n,
            };
            if n == 0 {
                return Progress::Ready(Err(FramedError::WriteZero));
            }
            proof {
                assert(w0.take(sent) + w0.skip(sent).take(n as int) =~= w0.take(sent + n));
                assert(w0.skip(sent).skip(n as int) =~= w0.skip(sent + n));
            }
            let _ = buf_split_to(&mut self.write_buf, n);
            proof {
                sent = sent + n;
            }
        }
        proof {
            assert(w0.take(sent) =~= w0);
        }
        match self.io.flush() {
            Progress::Pending => Progress::Pending,
            Progress::Ready(Err(e)) => Progress::Ready(Err(FramedError::Channel(e))),
            Progress::Ready(Ok(())) => Progress::Ready(Ok(())),
        }
    }

    /// Drain-and-flush under its sink-style name; identical to `poll_ready`.
    pub fn poll_flush(&mut self) -> (r: Progress<Result<(), FramedError<C::Error>>>)
        ensures
            final(self).done() == old(self).done(),
            final(self).spec_io().inbox() == old(self).spec_io().inbox(),
            final(self).spec_codec() == old(self).spec_codec(),
            final(self).rbytes() == old(self).rbytes(),
            final(self).eof() == old(self).eof(),
            final(self).readable() == old(self).readable(),
            exists|k: int|
                0 <= k <= old(self).wbytes().len() && final(self).spec_io().outbox() == old(
                    self,
                ).spec_io().outbox() + old(self).wbytes().take(k) && final(self).wbytes() == old(
                    self,
                ).wbytes().skip(k),
            (r matches Progress::Ready(rr) && rr matches Ok(_)) ==> final(self).wbytes().len()
                == 0 && final(self).spec_io().outbox() == old(self).spec_io().outbox() + old(
                self,
            ).wbytes() && final(self).spec_io().is_flushed(),
            (r matches Progress::Ready(rr) && rr matches Err(e)
                && e matches FramedError::WriteZero) ==> final(self).wbytes().len() > 0,
            match r {
                Progress::Ready(Err(e)) => e matches FramedError::Channel(_)
                    || e matches FramedError::WriteZero,
                _ => true,
            },
    {
        self.poll_ready()
    }

    /// Accepts one item: encodes it to the tail of the write buffer, in
    /// submission order. If the buffer is already at or above the high-water
    /// mark, one drain attempt is made first; if the buffer is still at or
    /// above the mark afterwards, the item is handed back as `Rejected` and
    /// must be retried later. An item the codec cannot encode is consumed
    /// and reported as a `Codec` error; a drain failure is reported as the
    /// drain reports it.
    pub fn start_send(&mut self, item: C::Item) -> (r: Result<
        SendOutcome<C::Item>,
        FramedError<C::Error>,
    >)
        ensures
            final(self).done() == old(self).done(),
            final(self).spec_io().inbox() == old(self).spec_io().inbox(),
            final(self).rbytes() == old(self).rbytes(),
            final(self).eof() == old(self).eof(),
            final(self).readable() == old(self).readable(),
            // Below the mark the channel is not touched and the encoder
            // settles the outcome.
            old(self).wbytes().len() < BACKPRESSURE_BOUNDARY ==> ({
                &&& final(self).spec_io() == old(self).spec_io()
                &&& if old(self).spec_codec().enc_ok(item@) {
                    (r matches Ok(o) && o matches SendOutcome::Accepted) && final(self).wbytes()
                        == old(self).wbytes() + old(self).spec_codec().enc(item@)
                } else {
                    (r matches Err(e) && e matches FramedError::Codec(_)) && final(self).wbytes()
                        == old(self).wbytes()
                }
            }),
            // Acceptance always appends exactly the encoding of the item at
            // the tail, after whatever prefix a drain attempt moved out.
            (r matches Ok(o) && o matches SendOutcome::Accepted) ==> old(self).spec_codec().enc_ok(
                item@,
            ) && exists|k: int|
                0 <= k <= old(self).wbytes().len() && old(self).wbytes().skip(k).len()
                    < BACKPRESSURE_BOUNDARY && final(self).spec_io().outbox() == old(
                    self,
                ).spec_io().outbox() + old(self).wbytes().take(k) && final(self).wbytes() == old(
                    self,
                ).wbytes().skip(k) + old(self).spec_codec().enc(item@),
            // Rejection hands the item back unchanged: backpressure, not an
            // error. It happens only when the buffer was, and still is, at
            // or above the mark.
            match r {
                Ok(SendOutcome::Rejected(it)) => it == item && old(self).wbytes().len()
                    >= BACKPRESSURE_BOUNDARY && final(self).wbytes().len()
                    >= BACKPRESSURE_BOUNDARY && exists|k: int|
                    0 <= k <= old(self).wbytes().len() && final(self).spec_io().outbox() == old(
                        self,
                    ).spec_io().outbox() + old(self).wbytes().take(k) && final(self).wbytes()
                        == old(self).wbytes().skip(k),
                _ => true,
            },
            // A codec error is exactly the encoder's own error on an item it
            // does not accept, passed on verbatim.
            match r {
                Err(FramedError::Codec(ce)) => !old(self).spec_codec().enc_ok(item@) && ce == old(
                    self,
                ).spec_codec().enc_err(item@),
                _ => true,
            },
            // Channel errors can only come out of the drain attempt.
            match r {
                Err(e) => e matches FramedError::Codec(_) || old(self).wbytes().len()
                    >= BACKPRESSURE_BOUNDARY,
                _ => true,
            },
    {
        if buf_len(&self.write_buf) >= BACKPRESSURE_BOUNDARY {
            match self.poll_ready() {
                Progress::Ready(Err(e)) => {
                    return Err(e);
                },
                Progress::Ready(Ok(())) => {},
                Progress::Pending => {},
            }
            if buf_len(&self.write_buf) >= BACKPRESSURE_BOUNDARY {
                return Ok(SendOutcome::Rejected(item));
            }
        }
        let ghost mid = *self;
        match self.codec.encode(item, &mut self.write_buf) {
            Ok(()) => {
                proof {
                    let w_old = old(self).wbytes();
                    let enc = old(self).spec_codec().enc(item@);
                    if old(self).wbytes().len() >= BACKPRESSURE_BOUNDARY {
                        let k = choose|k: int|
                            0 <= k <= w_old.len() && mid.spec_io().outbox() == old(
                                self,
                            ).spec_io().outbox() + w_old.take(k) && mid.wbytes() == w_old.skip(k);
                        assert(0 <= k <= w_old.len() && self.spec_io().outbox() == old(
                            self,
                        ).spec_io().outbox() + w_old.take(k) && self.wbytes() == w_old.skip(k)
                            + enc);
                    } else {
                        assert(w_old.skip(0) =~= w_old);
                        assert(old(self).spec_io().outbox() + w_old.take(0) =~= old(
                            self,
                        ).spec_io().outbox());
                        assert(0 <= 0 <= w_old.len() && self.spec_io().outbox() == old(
                            self,
                        ).spec_io().outbox() + w_old.take(0) && self.wbytes() == w_old.skip(0)
                            + enc);
                    }
                }
                Ok(SendOutcome::Accepted)
            },
            Err(e) => Err(FramedError::Codec(e)),
        }
    }

    /// Requests an orderly close of the underlying channel. Buffered write
    /// bytes are not flushed first: callers that must not lose them call
    /// `poll_ready` until it completes before shutting down.
    pub fn poll_shutdown(&mut self) -> (r: Progress<Result<(), FramedError<C::Error>>>)
        ensures
            final(self).done() == old(self).done(),
            final(self).spec_io().inbox() == old(self).spec_io().inbox(),
            final(self).spec_io().outbox() == old(self).spec_io().outbox(),
            final(self).spec_codec() == old(self).spec_codec(),
            final(self).rbytes() == old(self).rbytes(),
            final(self).wbytes() == old(self).wbytes(),
            final(self).eof() == old(self).eof(),
            final(self).readable() == old(self).readable(),
            (r matches Progress::Ready(rr) && rr matches Ok(_))
                ==> final(self).spec_io().is_shut(),
            match r {
                Progress::Ready(Err(e)) => e matches FramedError::Channel(_),
                _ => true,
            },
    {
        match self.io.shutdown() {
            Progress::Pending => Progress::Pending,
            Progress::Ready(Err(e)) => Progress::Ready(Err(FramedError::Channel(e))),
            Progress::Ready(Ok(())) => Progress::Ready(Ok(())),
        }
    }
}

} // verus!
