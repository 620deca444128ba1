use framed::channel::Progress;
use framed::framed::{Framed, FramedError, SendOutcome};
use framed::lenfield::{LenCodec, LenCodecError};
use framed::mem::MemChannel;

fn pull_all(
    f: &mut Framed<MemChannel, LenCodec>,
) -> (Vec<Vec<u8>>, Option<FramedError<LenCodecError>>) {
    let mut frames = Vec::new();
    loop {
        match f.poll_next() {
            Progress::Ready(Some(Ok(frame))) => frames.push(frame),
            Progress::Ready(Some(Err(e))) => return (frames, Some(e)),
            Progress::Ready(None) => return (frames, None),
            Progress::Pending => panic!("memory channel never suspends reads"),
        }
    }
}

#[test]
fn round_trip_through_fresh_transport() {
    let items: Vec<Vec<u8>> = vec![vec![1, 2, 3], vec![], vec![9; 255], vec![42]];
    let mut tx = Framed::new(MemChannel::new(), LenCodec);
    for item in &items {
        match tx.start_send(item.clone()) {
            Ok(SendOutcome::Accepted) => {}
            other => panic!("submission should be accepted: {:?}", other),
        }
    }
    assert!(matches!(tx.poll_ready(), Progress::Ready(Ok(()))));
    let wire = tx.get_ref().output().clone();

    let mut rx = Framed::new(MemChannel::with_input(wire, usize::MAX), LenCodec);
    let (frames, err) = pull_all(&mut rx);
    assert!(err.is_none());
    assert_eq!(frames, items);
}

#[test]
fn order_preservation_on_wire() {
    let items: Vec<Vec<u8>> = vec![vec![10, 11], vec![20], vec![30, 31, 32]];
    let mut tx = Framed::new(MemChannel::new(), LenCodec);
    for item in &items {
        assert!(matches!(tx.start_send(item.clone()), Ok(SendOutcome::Accepted)));
    }
    assert!(matches!(tx.poll_ready(), Progress::Ready(Ok(()))));
    let mut expected: Vec<u8> = Vec::new();
    for item in &items {
        expected.push(item.len() as u8);
        expected.extend_from_slice(item);
    }
    assert_eq!(tx.get_ref().output(), &expected);
}

#[test]
fn partial_read_chunking_is_irrelevant() {
    // One 100-byte frame delivered in single-byte reads and in one read.
    let payload: Vec<u8> = (0..100u8).collect();
    let mut wire: Vec<u8> = vec![100];
    wire.extend_from_slice(&payload);
    wire.push(2);
    wire.extend_from_slice(&[7, 8]);

    let mut one_byte = Framed::new(MemChannel::with_input(wire.clone(), 1), LenCodec);
    let mut one_shot = Framed::new(MemChannel::with_input(wire, usize::MAX), LenCodec);
    let (a, ea) = pull_all(&mut one_byte);
    let (b, eb) = pull_all(&mut one_shot);
    assert!(ea.is_none() && eb.is_none());
    assert_eq!(a, b);
    assert_eq!(a, vec![payload, vec![7, 8]]);
}

#[test]
fn eof_after_complete_frames_is_clean() {
    let wire: Vec<u8> = vec![2, 1, 2, 0, 3, 7, 8, 9];
    let mut rx = Framed::new(MemChannel::with_input(wire, 3), LenCodec);
    let (frames, err) = pull_all(&mut rx);
    assert!(err.is_none());
    assert_eq!(frames, vec![vec![1, 2], vec![], vec![7, 8, 9]]);
    // The end is sticky: pulling again still reports a clean end.
    assert!(matches!(rx.poll_next(), Progress::Ready(None)));
}

#[test]
fn eof_with_trailing_bytes_is_an_error() {
    // One complete frame, then 3 leftover bytes announcing a 5-byte payload
    // that never arrives.
    let wire: Vec<u8> = vec![2, 1, 2, 5, 1, 2];
    let mut rx = Framed::new(MemChannel::with_input(wire, usize::MAX), LenCodec);
    let (frames, err) = pull_all(&mut rx);
    assert_eq!(frames, vec![vec![1, 2]]);
    assert!(matches!(err, Some(FramedError::TrailingBytes)));
    // The error is the final item: the terminal state is sticky and every
    // further pull reports end-of-sequence.
    assert!(matches!(rx.poll_next(), Progress::Ready(None)));
    assert!(matches!(rx.poll_next(), Progress::Ready(None)));
}

#[test]
fn backpressure_rejects_then_accepts_after_drain() {
    let mut tx = Framed::new(MemChannel::new(), LenCodec);
    tx.get_mut().set_write_open(false);
    // 32 frames of 255 bytes encode to 8192 bytes: exactly the high-water
    // mark, all accepted while the channel absorbs nothing.
    for _ in 0..32 {
        assert!(matches!(tx.start_send(vec![5; 255]), Ok(SendOutcome::Accepted)));
    }
    // The next submission finds the buffer at the mark, fails to drain, and
    // is rejected with the item handed back.
    let item = vec![6, 7];
    let handed_back = match tx.start_send(item.clone()) {
        Ok(SendOutcome::Rejected(it)) => it,
        other => panic!("expected backpressure rejection: {:?}", other),
    };
    assert_eq!(handed_back, item);
    // Once the channel accepts bytes and a drain succeeds, the same item is
    // accepted.
    tx.get_mut().set_write_open(true);
    assert!(matches!(tx.poll_ready(), Progress::Ready(Ok(()))));
    assert!(matches!(tx.start_send(handed_back), Ok(SendOutcome::Accepted)));
}

#[test]
fn zero_write_is_fatal_on_first_attempt() {
    let mut tx = Framed::new(MemChannel::new(), LenCodec);
    tx.get_mut().set_write_limit(0);
    assert!(matches!(tx.start_send(vec![1, 2, 3]), Ok(SendOutcome::Accepted)));
    assert!(matches!(tx.poll_ready(), Progress::Ready(Err(FramedError::WriteZero))));
    // Nothing was treated as written and nothing was retried.
    assert!(tx.get_ref().output().is_empty());
}

#[test]
fn blocked_channel_leaves_drain_pending() {
    let mut tx = Framed::new(MemChannel::new(), LenCodec);
    tx.get_mut().set_write_open(false);
    assert!(matches!(tx.start_send(vec![1]), Ok(SendOutcome::Accepted)));
    assert!(matches!(tx.poll_ready(), Progress::Pending));
    // Resuming after the channel opens drains the same bytes.
    tx.get_mut().set_write_open(true);
    assert!(matches!(tx.poll_ready(), Progress::Ready(Ok(()))));
    assert_eq!(tx.get_ref().output(), &vec![1, 1]);
}

#[test]
fn partial_writes_drain_in_order() {
    let mut tx = Framed::new(MemChannel::new(), LenCodec);
    tx.get_mut().set_write_limit(5);
    assert!(matches!(tx.start_send(vec![1, 2, 3, 4, 5, 6, 7]), Ok(SendOutcome::Accepted)));
    assert!(matches!(tx.poll_ready(), Progress::Ready(Ok(()))));
    assert_eq!(tx.get_ref().output(), &vec![7, 1, 2, 3, 4, 5, 6, 7]);
    assert!(tx.get_ref().flushed());
}

#[test]
fn oversized_item_is_a_codec_error() {
    let mut tx = Framed::new(MemChannel::new(), LenCodec);
    let r = tx.start_send(vec![0; 256]);
    assert!(matches!(r, Err(FramedError::Codec(LenCodecError::FrameTooLong))));
    // The item is consumed, not buffered: a later drain writes nothing.
    assert!(matches!(tx.poll_ready(), Progress::Ready(Ok(()))));
    assert!(tx.get_ref().output().is_empty());
}

#[test]
fn channel_read_error_surfaces() {
    let mut rx = Framed::new(MemChannel::with_input(vec![2, 1, 2], usize::MAX), LenCodec);
    rx.get_mut().set_read_fail(true);
    assert!(matches!(
        rx.poll_next(),
        Progress::Ready(Some(Err(FramedError::Channel(_))))
    ));
    // The error item ends the sequence for good: even with the failure mode
    // cleared, further pulls report end-of-sequence, never the frame.
    rx.get_mut().set_read_fail(false);
    assert!(matches!(rx.poll_next(), Progress::Ready(None)));
    assert!(matches!(rx.poll_next(), Progress::Ready(None)));
}

#[test]
fn shutdown_requests_orderly_close_without_flushing() {
    let mut tx = Framed::new(MemChannel::new(), LenCodec);
    assert!(matches!(tx.start_send(vec![9]), Ok(SendOutcome::Accepted)));
    assert!(matches!(tx.poll_shutdown(), Progress::Ready(Ok(()))));
    assert!(tx.get_ref().shut());
    // Shutdown does not flush: the buffered bytes were not written.
    assert!(tx.get_ref().output().is_empty());
}

#[test]
fn accessors_expose_channel_and_codec() {
    let ch = MemChannel::with_input(vec![1, 0], 1);
    let mut f = Framed::new(ch, LenCodec);
    assert!(f.get_ref().output().is_empty());
    let _codec: &LenCodec = f.get_codec();
    let _codec_mut: &mut LenCodec = f.get_codec_mut();
    f.get_mut().set_write_limit(3);
    let ch_back = f.into_inner();
    assert!(!ch_back.shut());
}

#[test]
fn poll_flush_drains_like_poll_ready() {
    let mut tx = Framed::new(MemChannel::new(), LenCodec);
    assert!(matches!(tx.start_send(vec![4, 5]), Ok(SendOutcome::Accepted)));
    assert!(matches!(tx.poll_flush(), Progress::Ready(Ok(()))));
    assert_eq!(tx.get_ref().output(), &vec![2, 4, 5]);
    assert!(tx.get_ref().flushed());
}
