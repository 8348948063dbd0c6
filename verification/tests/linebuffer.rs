use cronwell::Chunk;
use cronwell::LineBuffer;

fn lines_of(chunks: Vec<Chunk>, max_lines: usize) -> Vec<String> {
    let mut buf = LineBuffer::new(max_lines);
    for chunk in &chunks {
        buf.append_chunk(chunk);
    }
    buf.into_sequence()
}

#[test]
fn ring_buffer_never_exceeds_capacity() {
    let mut buf = LineBuffer::new(3);
    for i in 0..50 {
        let text = format!("line {}\n", i);
        buf.append_chunk(&Chunk::Stdout(text.into_bytes()));
    }
    let lines = buf.into_sequence();
    assert_eq!(lines.len(), 3);
    assert_eq!(lines, vec!["line 47", "line 48", "line 49"]);
}

#[test]
fn ring_buffer_keeps_most_recent_two() {
    let mut buf = LineBuffer::new(2);
    buf.append_chunk(&Chunk::Stdout(b"1\n2\n3\n4\n".to_vec()));
    let lines = buf.into_sequence();
    assert_eq!(lines, vec!["3", "4"]);
}

#[test]
fn split_chunks_yield_same_lines_as_one_chunk() {
    let bytes = b"alpha\nbeta\ngam";
    let whole = lines_of(vec![Chunk::Stdout(bytes.to_vec())], 10);
    for cut in 0..=bytes.len() {
        let first = Chunk::Stdout(bytes[..cut].to_vec());
        let second = Chunk::Stdout(bytes[cut..].to_vec());
        let split = lines_of(vec![first, second], 10);
        assert_eq!(split, whole, "split at byte {}", cut);
    }
}

#[test]
fn line_crossing_a_chunk_boundary_is_reassembled() {
    let lines = lines_of(
        vec![Chunk::Stdout(b"hel".to_vec()), Chunk::Stdout(b"lo\n".to_vec())],
        5,
    );
    assert_eq!(lines, vec!["hello"]);
}

#[test]
fn carriage_returns_are_kept_literally() {
    let lines = lines_of(vec![Chunk::Stdout(b"a\r\nb\n".to_vec())], 5);
    assert_eq!(lines, vec!["a\r", "b"]);
}

#[test]
fn undecodable_line_is_dropped() {
    let lines = lines_of(
        vec![Chunk::Stdout(vec![0xff, 0xfe, b'\n', b'o', b'k', b'\n'])],
        5,
    );
    assert_eq!(lines, vec!["ok"]);
}

#[test]
fn unterminated_trailing_line_is_flushed() {
    let lines = lines_of(vec![Chunk::Stdout(b"last words".to_vec())], 5);
    assert_eq!(lines, vec!["last words"]);
}

#[test]
fn empty_buffer_yields_nothing() {
    let lines = lines_of(vec![], 5);
    assert!(lines.is_empty());
}

#[test]
fn zero_capacity_retains_nothing() {
    let lines = lines_of(vec![Chunk::Stdout(b"a\nb\n".to_vec())], 0);
    assert!(lines.is_empty());
}

#[test]
fn stderr_chunks_fill_the_buffer_too() {
    let lines = lines_of(
        vec![
            Chunk::Stderr(b"warning\n".to_vec()),
            Chunk::Stdout(b"normal\n".to_vec()),
        ],
        5,
    );
    assert_eq!(lines, vec!["warning", "normal"]);
}

#[test]
fn empty_lines_are_retained() {
    let lines = lines_of(vec![Chunk::Stdout(b"\n\nx\n".to_vec())], 5);
    assert_eq!(lines, vec!["", "", "x"]);
}
