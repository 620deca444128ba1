//! A framed transport combinator: turns a raw byte channel into a channel of
//! whole frames, using a pluggable encode/decode strategy.
//!
//! The transport owns a byte channel, a codec, a read buffer and a write
//! buffer. The read path pulls decoded frames out of the channel; the write
//! path accepts frames, encodes them into the write buffer, and drains that
//! buffer to the channel with a fixed high-water mark for backpressure.

pub mod bytebuf;
pub mod channel;
pub mod codec;
pub mod framed;
pub mod lenfield;
pub mod mem;
