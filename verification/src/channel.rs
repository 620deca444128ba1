//! The byte-stream capability the transport consumes: a duplex channel of
//! raw bytes with cooperative suspension.
//!
//! Every operation either completes (`Ready`) or reports that the channel
//! cannot make progress now (`Pending`); a pending step must be retried
//! later and changes nothing. A channel is modelled by two byte sequences:
//! `inbox`, the bytes it will still deliver before end-of-stream, and
//! `outbox`, the bytes it has accepted so far.

use vstd::prelude::*;
use bytes::BytesMut;
use crate::bytebuf::buf_bytes;

verus! {

/// The outcome of one cooperative step: the step completed with a value, or
/// the channel could not make progress now and the caller must retry later.
#[derive(Debug)]
pub enum Progress<T> {
    Ready(T),
    Pending,
}

/// An error reported by the underlying byte channel.
#[derive(Clone, Copy, Debug, PartialEq, Eq, Structural)]
pub struct ChannelError;

/// A duplex byte channel.
///
/// `read` appends a prefix of `inbox` to the given buffer; a result of zero
/// bytes is the end-of-stream signal and comes exactly when `inbox` is empty.
/// `write` moves a prefix of the given bytes to the tail of `outbox`; it may
/// accept fewer bytes than offered, and accepting zero while bytes were
/// offered means the channel is broken — the transport treats that as fatal.
pub trait ByteChannel: Sized {
    /// The bytes the channel will still deliver before end-of-stream.
    ///
    /// The default model is the empty channel. The defaults constrain
    /// rather than free: a verified implementation that keeps them can only
    /// ever read zero bytes and can never complete a flush, so a channel
    /// that is to carry guarantees overrides them, as the in-memory channel
    /// does. They exist for implementations outside the verifier's view,
    /// whose method contracts nothing checks anyway.
    open spec fn inbox(&self) -> Seq<u8> {
        Seq::empty()
    }

    /// The bytes the channel has accepted for sending so far, in order.
    /// Defaults like `inbox`.
    open spec fn outbox(&self) -> Seq<u8> {
        Seq::empty()
    }

    /// Whether everything accepted so far has been pushed to the
    /// destination. Defaults like `inbox`.
    open spec fn is_flushed(&self) -> bool {
        false
    }

    /// Whether an orderly close has been requested. Defaults like `inbox`.
    open spec fn is_shut(&self) -> bool {
        false
    }

    fn read(&mut self, buf: &mut BytesMut) -> (r: Progress<Result<usize, ChannelError>>)
        ensures
            final(self).outbox() == old(self).outbox(),
            match r {
                Progress::Ready(Ok(n)) => {
                    &&& n <= old(self).inbox().len()
                    &&& buf_bytes(*final(buf)) == buf_bytes(*old(buf))
                        + old(self).inbox().take(n as int)
                    &&& final(self).inbox() == old(self).inbox().skip(n as int)
                    &&& (n == 0 <==> old(self).inbox().len() == 0)
                },
                Progress::Ready(Err(_)) => {
                    &&& buf_bytes(*final(buf)) == buf_bytes(*old(buf))
                    &&& final(self).inbox() == old(self).inbox()
                },
                Progress::Pending => {
                    &&& buf_bytes(*final(buf)) == buf_bytes(*old(buf))
                    &&& final(self).inbox() == old(self).inbox()
                },
            },
    ;

    fn write(&mut self, data: &[u8]) -> (r: Progress<Result<usize, ChannelError>>)
        ensures
            final(self).inbox() == old(self).inbox(),
            match r {
                Progress::Ready(Ok(n)) => {
                    &&& n <= data@.len()
                    &&& final(self).outbox() == old(self).outbox() + data@.take(n as int)
                },
                Progress::Ready(Err(_)) => final(self).outbox() == old(self).outbox(),
                Progress::Pending => final(self).outbox() == old(self).outbox(),
            },
    ;

    fn flush(&mut self) -> (r: Progress<Result<(), ChannelError>>)
        ensures
            final(self).inbox() == old(self).inbox(),
            final(self).outbox() == old(self).outbox(),
            r matches Progress::Ready(Ok(_)) ==> final(self).is_flushed(),
    ;

    fn shutdown(&mut self) -> (r: Progress<Result<(), ChannelError>>)
        ensures
            final(self).inbox() == old(self).inbox(),
            final(self).outbox() == old(self).outbox(),
            r matches Progress::Ready(Ok(_)) ==> final(self).is_shut(),
    ;
}

} // verus!
