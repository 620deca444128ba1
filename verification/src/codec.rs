//! The codec capability the transport consumes: a paired encode/decode
//! strategy between frames and bytes.
//!
//! A codec's behaviour is pinned by three spec functions: `enc` gives the
//! bytes an item encodes to, and `dec` / `dec_eof` give what one incremental
//! or end-of-stream decode step does with given buffer contents. Stateful
//! codecs are allowed: a decode that produces a frame may change the codec's
//! state, but a decode that reports "incomplete" must leave both the buffer
//! and the codec untouched.

use vstd::prelude::*;
use bytes::BytesMut;
use crate::bytebuf::buf_bytes;

verus! {

/// What one decode step does with given buffer contents, at the spec level:
/// a complete frame is available (its view, and how many bytes it consumes
/// from the head of the buffer), or more bytes are needed, or the bytes are
/// malformed.
pub enum Decoded<V, E> {
    Frame(V, int),
    Incomplete,
    Malformed(E),
}

/// A frame encoder/decoder.
pub trait Codec: Sized {
    type Item: View;

    type Error;

    /// The encoded bytes of one item, for items this codec accepts.
    spec fn enc(&self, item: <Self::Item as View>::V) -> Seq<u8>;

    /// Which items this codec can encode at all.
    spec fn enc_ok(&self, item: <Self::Item as View>::V) -> bool;

    /// The error encoding an unacceptable item reports.
    spec fn enc_err(&self, item: <Self::Item as View>::V) -> Self::Error;

    /// What one incremental decode step does on the given buffer contents.
    spec fn dec(&self, bytes: Seq<u8>) -> Decoded<<Self::Item as View>::V, Self::Error>;

    /// What the end-of-stream decode step does on the given buffer contents.
    spec fn dec_eof(&self, bytes: Seq<u8>) -> Decoded<<Self::Item as View>::V, Self::Error>;

    /// Appends the encoding of `item` to the tail of `buf`; fails exactly on
    /// the items the codec does not accept, leaving `buf` untouched.
    fn encode(&mut self, item: Self::Item, buf: &mut BytesMut) -> (r: Result<(), Self::Error>)
        ensures
            old(self).enc_ok(item@) ==> r is Ok
                && buf_bytes(*final(buf)) == buf_bytes(*old(buf)) + old(self).enc(item@),
            !old(self).enc_ok(item@) ==> (r matches Err(e) && e == old(self).enc_err(item@))
                && buf_bytes(*final(buf)) == buf_bytes(*old(buf)),
    ;

    /// One incremental decode step: either removes one complete frame from
    /// the head of `buf` and returns it, or reports that more bytes are
    /// needed (leaving the buffer and the codec untouched), or fails.
    fn decode(&mut self, buf: &mut BytesMut) -> (r: Result<Option<Self::Item>, Self::Error>)
        ensures
            match old(self).dec(buf_bytes(*old(buf))) {
                Decoded::Frame(v, used) => {
                    &&& (r matches Ok(Some(f)) && f@ == v)
                    &&& 0 <= used <= buf_bytes(*old(buf)).len()
                    &&& buf_bytes(*final(buf)) == buf_bytes(*old(buf)).skip(used)
                },
                Decoded::Incomplete => {
                    &&& r matches Ok(None)
                    &&& buf_bytes(*final(buf)) == buf_bytes(*old(buf))
                    &&& *final(self) == *old(self)
                },
                Decoded::Malformed(e) => {
                    &&& (r matches Err(e2) && e2 == e)
                    &&& buf_bytes(*final(buf)) == buf_bytes(*old(buf))
                },
            },
    ;

    /// The end-of-stream decode step, invoked once the channel is exhausted:
    /// the same shape as `decode`, but over `dec_eof`.
    fn decode_eof(&mut self, buf: &mut BytesMut) -> (r: Result<Option<Self::Item>, Self::Error>)
        ensures
            match old(self).dec_eof(buf_bytes(*old(buf))) {
                Decoded::Frame(v, used) => {
                    &&& (r matches Ok(Some(f)) && f@ == v)
                    &&& 0 <= used <= buf_bytes(*old(buf)).len()
                    &&& buf_bytes(*final(buf)) == buf_bytes(*old(buf)).skip(used)
                },
                Decoded::Incomplete => {
                    &&& r matches Ok(None)
                    &&& buf_bytes(*final(buf)) == buf_bytes(*old(buf))
                    &&& *final(self) == *old(self)
                },
                Decoded::Malformed(e) => {
                    &&& (r matches Err(e2) && e2 == e)
                    &&& buf_bytes(*final(buf)) == buf_bytes(*old(buf))
                },
            },
    ;
}

} // verus!
