//! An in-memory byte channel, verified against the `ByteChannel` contract.
//!
//! Its incoming side is a scripted byte sequence delivered in configurable
//! chunk sizes; its outgoing side records every accepted byte, with a
//! configurable per-call acceptance limit, a switch that makes writes report
//! no progress for now, and a switch that makes reads fail. This is enough
//! to drive the transport through partial reads, partial writes,
//! backpressure, zero-progress writes and channel errors.

use vstd::prelude::*;
use bytes::BytesMut;
use vstd::slice::{slice_index_get, slice_subrange};
use crate::bytebuf::buf_extend;
use crate::channel::{ByteChannel, ChannelError, Progress};

verus! {

/// An in-memory channel: `input` is what it will deliver, `output` what it
/// has accepted.
pub struct MemChannel {
    input: Vec<u8>,
    pos: usize,
    chunk: usize,
    read_fail: bool,
    output: Vec<u8>,
    write_limit: usize,
    write_open: bool,
    flushed: bool,
    shut: bool,
}

impl MemChannel {
    /// How many scripted bytes one read call hands over at most; a value of
    /// zero is treated as one.
    pub closed spec fn spec_chunk(&self) -> usize {
        self.chunk
    }

    /// How many bytes one write call accepts at most; zero models a broken
    /// channel that reports zero progress.
    pub closed spec fn spec_write_limit(&self) -> usize {
        self.write_limit
    }

    /// Whether writes and flushes can make progress now at all.
    pub closed spec fn spec_write_open(&self) -> bool {
        self.write_open
    }

    /// Whether reads fail with a channel error.
    pub closed spec fn spec_read_fail(&self) -> bool {
        self.read_fail
    }

    /// A channel that will deliver `input`, at most `chunk` bytes per read.
    pub fn with_input(input: Vec<u8>, chunk: usize) -> (r: MemChannel)
        ensures
            r.inbox() == input@,
            r.outbox() == Seq::<u8>::empty(),
            r.spec_chunk() == chunk,
            r.spec_write_limit() == usize::MAX,
            r.spec_write_open(),
            !r.spec_read_fail(),
            !r.is_flushed(),
            !r.is_shut(),
    {
        MemChannel {
            input,
            pos: 0,
            chunk,
            read_fail: false,
            output: Vec::new(),
            write_limit: usize::MAX,
            write_open: true,
            flushed: false,
            shut: false,
        }
    }

    /// A channel with nothing to deliver, accepting every write.
    pub fn new() -> (r: MemChannel)
        ensures
            r.inbox() == Seq::<u8>::empty(),
            r.outbox() == Seq::<u8>::empty(),
            r.spec_write_limit() == usize::MAX,
            r.spec_write_open(),
            !r.spec_read_fail(),
            !r.is_flushed(),
            !r.is_shut(),
    {
        MemChannel::with_input(Vec::new(), usize::MAX)
    }

    /// Caps how many bytes one write call accepts; zero makes every write
    /// report zero progress.
    pub fn set_write_limit(&mut self, limit: usize)
        ensures
            final(self).spec_write_limit() == limit,
            final(self).spec_write_open() == old(self).spec_write_open(),
            final(self).spec_read_fail() == old(self).spec_read_fail(),
            final(self).inbox() == old(self).inbox(),
            final(self).outbox() == old(self).outbox(),
            final(self).spec_chunk() == old(self).spec_chunk(),
            final(self).is_flushed() == old(self).is_flushed(),
            final(self).is_shut() == old(self).is_shut(),
    {
        self.write_limit = limit;
    }

    /// Opens or closes the write side for progress; while closed, writes
    /// and flushes report `Pending`.
    pub fn set_write_open(&mut self, open: bool)
        ensures
            final(self).spec_write_open() == open,
            final(self).spec_write_limit() == old(self).spec_write_limit(),
            final(self).spec_read_fail() == old(self).spec_read_fail(),
            final(self).inbox() == old(self).inbox(),
            final(self).outbox() == old(self).outbox(),
            final(self).spec_chunk() == old(self).spec_chunk(),
            final(self).is_flushed() == old(self).is_flushed(),
            final(self).is_shut() == old(self).is_shut(),
    {
        self.write_open = open;
    }

    /// Makes every read fail with a channel error, or lets reads succeed
    /// again.
    pub fn set_read_fail(&mut self, fail: bool)
        ensures
            final(self).spec_read_fail() == fail,
            final(self).spec_write_limit() == old(self).spec_write_limit(),
            final(self).spec_write_open() == old(self).spec_write_open(),
            final(self).inbox() == old(self).inbox(),
            final(self).outbox() == old(self).outbox(),
            final(self).spec_chunk() == old(self).spec_chunk(),
            final(self).is_flushed() == old(self).is_flushed(),
            final(self).is_shut() == old(self).is_shut(),
    {
        self.read_fail = fail;
    }

    /// The bytes accepted so far, in order.
    pub fn output(&self) -> (r: &Vec<u8>)
        ensures
            r@ == self.outbox(),
    {
        &self.output
    }

    /// Whether the accepted bytes have been flushed through.
    pub fn flushed(&self) -> (r: bool)
        ensures
            r == self.is_flushed(),
    {
        self.flushed
    }

    /// Whether an orderly close was requested.
    pub fn shut(&self) -> (r: bool)
        ensures
            r == self.is_shut(),
    {
        self.shut
    }
}

impl ByteChannel for MemChannel {
    closed spec fn inbox(&self) -> Seq<u8> {
        if self.pos <= self.input.len() {
            self.input@.skip(self.pos as int)
        } else {
            Seq::empty()
        }
    }

    closed spec fn outbox(&self) -> Seq<u8> {
        self.output@
    }

    closed spec fn is_flushed(&self) -> bool {
        self.flushed
    }

    closed spec fn is_shut(&self) -> bool {
        self.shut
    }

    fn read(&mut self, buf: &mut BytesMut) -> (r: Progress<Result<usize, ChannelError>>)
        ensures
            old(self).spec_read_fail() ==> r matches Progress::Ready(Err(_)),
            !old(self).spec_read_fail() ==> match r {
                Progress::Ready(Ok(n)) => n == ({
                    let step = if old(self).spec_chunk() == 0 {
                        1int
                    } else {
                        old(self).spec_chunk() as int
                    };
                    if step < old(self).inbox().len() {
                        step
                    } else {
                        old(self).inbox().len() as int
                    }
                }),
                _ => false,
            },
    {
        if self.read_fail {
            return Progress::Ready(Err(ChannelError));
        }
        let len = self.input.len();
        let avail = if self.pos <= len {
            len - self.pos
        } else {
            0
        };
        if avail == 0 {
            return Progress::Ready(Ok(0));
        }
        let step = if self.chunk == 0 {
            1
        } else {
            self.chunk
        };
        let n = if step < avail {
            step
        } else {
            avail
        };
        let end = self.pos + n;
        let piece = slice_subrange(self.input.as_slice(), self.pos, end);
        buf_extend(buf, piece);
        proof {
            assert(piece@ =~= old(self).inbox().take(n as int));
        }
        self.pos = end;
        proof {
            assert(self.inbox() =~= old(self).inbox().skip(n as int));
        }
        Progress::Ready(Ok(n))
    }

    fn write(&mut self, data: &[u8]) -> (r: Progress<Result<usize, ChannelError>>)
        ensures
            !old(self).spec_write_open() ==> r matches Progress::Pending,
            old(self).spec_write_open() ==> match r {
                Progress::Ready(Ok(n)) => n == if old(self).spec_write_limit() < data@.len() {
                    old(self).spec_write_limit() as int
                } else {
                    data@.len() as int
                },
                _ => false,
            },
    {
        if !self.write_open {
            return Progress::Pending;
        }
        let offered = data.len();
        let n = if self.write_limit < offered {
            self.write_limit
        } else {
            offered
        };
        let ghost out0 = self.output@;
        let mut i: usize = 0;
        while i < n
            invariant
                i <= n,
                n <= data@.len(),
                self.output@ == out0 + data@.take(i as int),
                *self == (MemChannel { output: self.output, ..*old(self) }),
            decreases n - i,
        {
            let byte = *slice_index_get(data, i);
            self.output.push(byte);
            proof {
                assert(self.output@ =~= out0 + data@.take(i + 1));
            }
            i = i + 1;
        }
        self.flushed = false;
        Progress::Ready(Ok(n))
    }

    fn flush(&mut self) -> (r: Progress<Result<(), ChannelError>>)
        ensures
            !old(self).spec_write_open() ==> r matches Progress::Pending,
            old(self).spec_write_open() ==> (r matches Progress::Ready(rr) && rr matches Ok(_)),
    {
        if !self.write_open {
            return Progress::Pending;
        }
        self.flushed = true;
        Progress::Ready(Ok(()))
    }

    fn shutdown(&mut self) -> (r: Progress<Result<(), ChannelError>>)
        ensures
            (r matches Progress::Ready(rr) && rr matches Ok(_)),
    {
        self.shut = true;
        Progress::Ready(Ok(()))
    }
}

} // verus!
