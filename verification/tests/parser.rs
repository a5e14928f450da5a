use popup_gpt::sse::{FrameStep, SSEStream};

/// Drives a parser over the given chunks and returns every payload it
/// yields, plus whether the terminal sentinel was observed.
fn collect(chunks: &[&[u8]]) -> (Vec<Vec<u8>>, bool) {
    let mut parser = SSEStream::new();
    let mut payloads: Vec<Vec<u8>> = Vec::new();
    let mut done = false;
    for chunk in chunks {
        if done {
            break;
        }
        parser.feed(chunk);
        loop {
            match parser.next_frame() {
                FrameStep::Frame(p) => payloads.push(p),
                FrameStep::NeedMore => break,
                FrameStep::Done => {
                    done = true;
                    break;
                }
            }
        }
    }
    (payloads, done)
}

const STREAM: &[u8] = b"data: {\"a\":1}\n\ndata: hello world\n\ndata: [DONE]\n\n";

#[test]
fn whole_stream_yields_payloads_and_suppresses_sentinel() {
    let (payloads, done) = collect(&[STREAM]);
    assert_eq!(payloads.len(), 2);
    assert_eq!(payloads[0], b"{\"a\":1}".to_vec());
    assert_eq!(payloads[1], b"hello world".to_vec());
    assert!(done);
}

#[test]
fn chunking_at_any_boundary_yields_same_payloads() {
    let (expected, expected_done) = collect(&[STREAM]);
    for split in 0..=STREAM.len() {
        let (a, b) = STREAM.split_at(split);
        let (payloads, done) = collect(&[a, b]);
        assert_eq!(payloads, expected, "split at {split}");
        assert_eq!(done, expected_done, "split at {split}");
    }
}

#[test]
fn byte_by_byte_chunking_yields_same_payloads() {
    let (expected, expected_done) = collect(&[STREAM]);
    let singles: Vec<&[u8]> = STREAM.chunks(1).collect();
    let (payloads, done) = collect(&singles);
    assert_eq!(payloads, expected);
    assert_eq!(done, expected_done);
}

#[test]
fn split_inside_delimiter_loses_nothing() {
    // Split between the two newline bytes of the first delimiter.
    let pos = STREAM.windows(2).position(|w| w == b"\n\n").unwrap() + 1;
    let (a, b) = STREAM.split_at(pos);
    let (payloads, done) = collect(&[a, b]);
    let (expected, expected_done) = collect(&[STREAM]);
    assert_eq!(payloads, expected);
    assert_eq!(done, expected_done);
}

#[test]
fn zero_length_read_does_not_terminate() {
    let mut parser = SSEStream::new();
    parser.feed(b"data: par");
    assert!(matches!(parser.next_frame(), FrameStep::NeedMore));
    // A read that returns zero bytes: the parser just asks for more.
    parser.feed(b"");
    assert!(matches!(parser.next_frame(), FrameStep::NeedMore));
    parser.feed(b"tial\n\n");
    match parser.next_frame() {
        FrameStep::Frame(p) => assert_eq!(p, b"partial".to_vec()),
        _ => panic!("expected a frame"),
    }
}

#[test]
fn empty_chunks_everywhere_change_nothing() {
    let (expected, expected_done) = collect(&[STREAM]);
    let (a, b) = STREAM.split_at(7);
    let (payloads, done) = collect(&[b"", a, b"", b"", b, b""]);
    assert_eq!(payloads, expected);
    assert_eq!(done, expected_done);
}

#[test]
fn frames_after_sentinel_are_not_yielded() {
    let (payloads, done) = collect(&[b"data: one\n\ndata: [DONE]\n\ndata: two\n\n"]);
    assert_eq!(payloads, vec![b"one".to_vec()]);
    assert!(done);
}

#[test]
fn two_frames_in_one_read_are_both_delivered() {
    let mut parser = SSEStream::new();
    parser.feed(b"data: x\n\ndata: y\n\n");
    match parser.next_frame() {
        FrameStep::Frame(p) => assert_eq!(p, b"x".to_vec()),
        _ => panic!("expected first frame"),
    }
    // The second frame is found by re-scanning the buffer, without a read.
    match parser.next_frame() {
        FrameStep::Frame(p) => assert_eq!(p, b"y".to_vec()),
        _ => panic!("expected second frame"),
    }
    assert!(matches!(parser.next_frame(), FrameStep::NeedMore));
}

#[test]
fn buffered_len_tracks_feeding_and_consuming() {
    let mut parser = SSEStream::new();
    assert_eq!(parser.buffered_len(), 0);
    parser.feed(b"data: ab\n\n");
    assert_eq!(parser.buffered_len(), 10);
    match parser.next_frame() {
        FrameStep::Frame(p) => assert_eq!(p, b"ab".to_vec()),
        _ => panic!("expected a frame"),
    }
    assert_eq!(parser.buffered_len(), 0);
}

#[test]
fn large_frame_grows_the_buffer() {
    // Larger than the parser's initial buffer.
    let big = "x".repeat(9000);
    let mut stream = format!("data: {big}\n\n").into_bytes();
    stream.extend_from_slice(b"data: [DONE]\n\n");
    let (payloads, done) = collect(&[&stream]);
    assert_eq!(payloads.len(), 1);
    assert_eq!(payloads[0], big.as_bytes().to_vec());
    assert!(done);
}
