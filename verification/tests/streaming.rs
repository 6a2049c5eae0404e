use file_server_core::models::ServeError;
use file_server_core::stream::chunk_bytes;
use file_server_core::stream::StreamCursor;
use file_server_core::stream::StreamStep;
use file_server_core::stream::CHUNK_SIZE;

#[test]
fn chunking_yields_ceiling_many_chunks_and_round_trips() {
    // 10 bytes with chunk size 4: three chunks, the last one shorter, and
    // concatenation reproduces the content.
    let data: Vec<u8> = vec![0, 1, 2, 3, 4, 5, 6, 7, 8, 9];
    let chunks = chunk_bytes(&data, 4);
    assert_eq!(chunks.len(), 3);
    assert_eq!(chunks[0], vec![0, 1, 2, 3]);
    assert_eq!(chunks[1], vec![4, 5, 6, 7]);
    assert_eq!(chunks[2], vec![8, 9]);
    let rejoined: Vec<u8> = chunks.concat();
    assert_eq!(rejoined, data);
}

#[test]
fn chunking_an_exact_multiple_has_no_short_chunk() {
    let data: Vec<u8> = vec![1, 2, 3, 4, 5, 6];
    let chunks = chunk_bytes(&data, 3);
    assert_eq!(chunks.len(), 2);
    assert_eq!(chunks[0], vec![1, 2, 3]);
    assert_eq!(chunks[1], vec![4, 5, 6]);
}

#[test]
fn chunking_empty_content_yields_no_chunks() {
    let data: Vec<u8> = Vec::new();
    let chunks = chunk_bytes(&data, CHUNK_SIZE);
    assert!(chunks.is_empty());
}

#[test]
fn a_non_empty_read_becomes_a_chunk_and_advances_the_cursor() {
    let mut cursor = StreamCursor::new(10);
    let step = stream_step_helper(&mut cursor, Some(vec![7, 8, 9]));
    match step {
        StreamStep::Chunk(bytes) => assert_eq!(bytes, vec![7, 8, 9]),
        _ => panic!("expected a chunk"),
    }
    assert_eq!(cursor.bytes_emitted, 3);
    assert_eq!(cursor.total_len, 10);
}

fn stream_step_helper(cursor: &mut StreamCursor, read: Option<Vec<u8>>) -> StreamStep {
    file_server_core::stream::stream_step(cursor, read)
}

#[test]
fn an_empty_read_ends_the_stream() {
    let mut cursor = StreamCursor::new(0);
    let step = stream_step_helper(&mut cursor, Some(Vec::new()));
    assert!(matches!(step, StreamStep::End));
    assert_eq!(cursor.bytes_emitted, 0);
}

#[test]
fn a_failed_read_yields_one_terminal_failure() {
    let mut cursor = StreamCursor::new(10);
    let step = stream_step_helper(&mut cursor, None);
    match step {
        StreamStep::Failed(e) => assert_eq!(e, ServeError::StreamReadFailure),
        _ => panic!("expected a failure step"),
    }
    assert_eq!(cursor.bytes_emitted, 0);
}

#[test]
fn size_hint_reports_zero_to_remaining() {
    let mut cursor = StreamCursor::new(10);
    assert_eq!(cursor.size_hint(), (0, Some(10)));
    let _ = stream_step_helper(&mut cursor, Some(vec![0, 1, 2, 3]));
    assert_eq!(cursor.size_hint(), (0, Some(6)));
}

#[test]
fn size_hint_floors_at_zero_when_content_shrank() {
    let mut cursor = StreamCursor::new(2);
    let _ = stream_step_helper(&mut cursor, Some(vec![0, 1, 2]));
    assert_eq!(cursor.size_hint(), (0, Some(0)));
}

#[test]
fn the_chunk_size_amortizes_system_calls() {
    assert_eq!(CHUNK_SIZE, 512000);
}
