use mjpeg_stream::reframer::{ByteSource, ReadBuffer, ReadStream};
use mjpeg_stream::source::VideoStream;

/// Hands out a fixed script of chunks, then empty reads forever.
struct ChunkReader {
    chunks: Vec<Vec<u8>>,
    next: usize,
}

impl ChunkReader {
    fn new(chunks: Vec<Vec<u8>>) -> ChunkReader {
        ChunkReader { chunks, next: 0 }
    }

    fn of_bytes(data: &[u8], chunk_size: usize) -> ChunkReader {
        let chunks = data.chunks(chunk_size).map(|c| c.to_vec()).collect();
        ChunkReader::new(chunks)
    }
}

impl ByteSource for ChunkReader {
    fn read_chunk(&mut self) -> Vec<u8> {
        if self.next < self.chunks.len() {
            let c = self.chunks[self.next].clone();
            self.next += 1;
            c
        } else {
            Vec::new()
        }
    }
}

const FRAME_A: [u8; 5] = [0xff, 0xd8, 0x41, 0xff, 0xd9];
const FRAME_B: [u8; 5] = [0xff, 0xd8, 0x42, 0xff, 0xd9];

#[test]
fn two_concatenated_frames_come_out_in_order() {
    // The two parts of the stdin scenario: FF D8 41 FF D9 FF D8 42 FF D9.
    let mut data = Vec::new();
    data.extend_from_slice(&FRAME_A);
    data.extend_from_slice(&FRAME_B);
    let mut stream = ReadStream::new(ChunkReader::of_bytes(&data, data.len())).unwrap();
    let mut buffer = ReadBuffer::new();

    let n1 = stream.read(&mut buffer);
    assert_eq!(n1, 5);
    assert_eq!(buffer.frame(), &FRAME_A);

    let n2 = stream.read(&mut buffer);
    assert_eq!(n2, 5);
    assert_eq!(buffer.frame(), &FRAME_B);
}

#[test]
fn byte_by_byte_delivery_reassembles_the_frames() {
    let mut data = Vec::new();
    data.extend_from_slice(&FRAME_A);
    data.extend_from_slice(&FRAME_B);
    let mut stream = ReadStream::new(ChunkReader::of_bytes(&data, 1)).unwrap();
    let mut buffer = ReadBuffer::new();

    assert_eq!(stream.read(&mut buffer), 5);
    assert_eq!(buffer.frame(), &FRAME_A);
    assert_eq!(stream.read(&mut buffer), 5);
    assert_eq!(buffer.frame(), &FRAME_B);
}

#[test]
fn every_chunking_yields_the_same_frames() {
    let mut data = Vec::new();
    data.extend_from_slice(&[0x13, 0x37]); // leading junk
    data.extend_from_slice(&FRAME_A);
    data.extend_from_slice(&FRAME_B);
    data.extend_from_slice(&[0xff]); // trailing carry-over
    for chunk_size in 1..=data.len() {
        let mut stream = ReadStream::new(ChunkReader::of_bytes(&data, chunk_size)).unwrap();
        let mut buffer = ReadBuffer::new();
        assert_eq!(stream.read(&mut buffer), 5, "chunk size {}", chunk_size);
        assert_eq!(buffer.frame(), &FRAME_A, "chunk size {}", chunk_size);
        assert_eq!(stream.read(&mut buffer), 5, "chunk size {}", chunk_size);
        assert_eq!(buffer.frame(), &FRAME_B, "chunk size {}", chunk_size);
    }
}

#[test]
fn straddling_chunk_boundary_inside_markers() {
    // The EOI marker arrives split across two reads.
    let chunks = vec![
        vec![0xff, 0xd8, 0x10, 0x20, 0xff],
        vec![0xd9, 0x77],
    ];
    let mut stream = ReadStream::new(ChunkReader::new(chunks)).unwrap();
    let mut buffer = ReadBuffer::new();
    assert_eq!(stream.read(&mut buffer), 6);
    assert_eq!(buffer.frame(), &[0xff, 0xd8, 0x10, 0x20, 0xff, 0xd9]);
}

#[test]
fn drained_upstream_reports_no_frame() {
    let mut stream = ReadStream::new(ChunkReader::new(Vec::new())).unwrap();
    let mut buffer = ReadBuffer::new();
    assert_eq!(stream.read(&mut buffer), 0);
    assert_eq!(buffer.frame(), &[] as &[u8]);
}

#[test]
fn incomplete_tail_then_eof_reports_no_frame() {
    let chunks = vec![vec![0xff, 0xd8, 0x41]];
    let mut stream = ReadStream::new(ChunkReader::new(chunks)).unwrap();
    let mut buffer = ReadBuffer::new();
    assert_eq!(stream.read(&mut buffer), 0);
}

#[test]
fn frame_buffered_before_eof_is_still_delivered() {
    // Both frames arrive in one chunk; the second must come out on the
    // second read even though the upstream is drained by then.
    let mut data = Vec::new();
    data.extend_from_slice(&FRAME_A);
    data.extend_from_slice(&FRAME_B);
    let chunks = vec![data];
    let mut stream = ReadStream::new(ChunkReader::new(chunks)).unwrap();
    let mut buffer = ReadBuffer::new();
    assert_eq!(stream.read(&mut buffer), 5);
    assert_eq!(buffer.frame(), &FRAME_A);
    assert_eq!(stream.read(&mut buffer), 5);
    assert_eq!(buffer.frame(), &FRAME_B);
    assert_eq!(stream.read(&mut buffer), 0);
}

#[test]
fn trait_read_matches_inherent_read() {
    let mut data = Vec::new();
    data.extend_from_slice(&FRAME_A);
    let mut stream = ReadStream::new(ChunkReader::of_bytes(&data, 2)).unwrap();
    let mut buffer = <ReadStream<ChunkReader> as VideoStream>::new_buffer();
    let n = VideoStream::read(&mut stream, &mut buffer);
    assert_eq!(n, 5);
    assert_eq!(buffer.frame(), &FRAME_A);
}

#[test]
fn feed_accumulates_until_complete() {
    let mut buffer = ReadBuffer::new();
    assert_eq!(buffer.feed(&[0x00, 0xff, 0xd8]), 0);
    assert_eq!(buffer.feed(&[0x0a]), 0);
    assert_eq!(buffer.feed(&[0xff, 0xd9, 0xff]), 5);
    assert_eq!(buffer.frame(), &[0xff, 0xd8, 0x0a, 0xff, 0xd9]);
    assert_eq!(buffer.acc_len(), 7);
}

#[test]
fn shrink_keeps_only_the_carry_over() {
    let mut buffer = ReadBuffer::new();
    assert_eq!(buffer.feed(&[0xff, 0xd8, 0xff, 0xd9, 0x55, 0x66]), 4);
    buffer.shrink();
    assert_eq!(buffer.frame(), &[] as &[u8]);
    assert_eq!(buffer.acc_len(), 2);
    // The carry-over `55 66` is junk before the next frame, which the next
    // scan skips.
    assert_eq!(buffer.feed(&[0xff, 0xd8, 0xff, 0xd9]), 4);
    assert_eq!(buffer.frame(), &[0xff, 0xd8, 0xff, 0xd9]);
}

#[test]
fn shrink_without_frame_is_a_no_op() {
    let mut buffer = ReadBuffer::new();
    assert_eq!(buffer.feed(&[0x01, 0x02, 0x03]), 0);
    buffer.shrink();
    assert_eq!(buffer.acc_len(), 3);
}

#[test]
fn frameless_flood_is_abandoned_at_the_cap() {
    // A single oversized chunk of junk that never completes a frame: the
    // read gives the tick up instead of accumulating forever.
    let junk = vec![0x00u8; 5 * 1024 * 1024];
    let mut stream = ReadStream::new(ChunkReader::new(vec![junk])).unwrap();
    let mut buffer = ReadBuffer::new();
    assert_eq!(stream.read(&mut buffer), 0);
}
