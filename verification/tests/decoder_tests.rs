use hello::decoder::Decoder;

#[test]
fn chunk_split_mid_record_buffers_then_emits() {
    let mut d = Decoder::new();
    // The first chunk ends mid-record: no blank line has arrived yet.
    let first = b"data: {\"choices\":[{\"delta\":{\"content\":\"Hel\"}}]}";
    let pieces = d.decode_chunk(first);
    assert_eq!(pieces.len(), 0);
    // The remainder closes the record; exactly one piece comes out, decoded
    // from the concatenation.
    let pieces = d.decode_chunk(b"\n\n");
    assert_eq!(pieces.len(), 1);
    assert_eq!(pieces[0], "Hel");
}

#[test]
fn whole_record_in_one_chunk() {
    let mut d = Decoder::new();
    let pieces = d.decode_chunk(b"data: {\"choices\":[{\"delta\":{\"content\":\"Hi\"}}]}\n\n");
    assert_eq!(pieces.len(), 1);
    assert_eq!(pieces[0], "Hi");
}

#[test]
fn done_marker_is_silently_dropped() {
    let mut d = Decoder::new();
    let pieces = d.decode_chunk(b"data: [DONE]\n\n");
    assert_eq!(pieces.len(), 0);
}

#[test]
fn record_split_over_data_lines_is_reassembled() {
    let mut d = Decoder::new();
    let chunk = b"data: {\"choices\":[{\"delta\":\ndata: {\"content\":\"X\"}}]}\n\n";
    let pieces = d.decode_chunk(chunk);
    assert_eq!(pieces.len(), 1);
    assert_eq!(pieces[0], "X");
}

#[test]
fn refusal_takes_precedence_over_content() {
    let mut d = Decoder::new();
    let chunk =
        b"data: {\"choices\":[{\"delta\":{\"content\":\"c\",\"refusal\":\"no\"}}]}\n\n";
    let pieces = d.decode_chunk(chunk);
    assert_eq!(pieces.len(), 1);
    assert_eq!(pieces[0], "no");
}

#[test]
fn message_object_is_read_like_delta() {
    let mut d = Decoder::new();
    let pieces = d.decode_chunk(b"data: {\"choices\":[{\"message\":{\"content\":\"Y\"}}]}\n\n");
    assert_eq!(pieces.len(), 1);
    assert_eq!(pieces[0], "Y");
}

#[test]
fn malformed_record_is_discarded_and_stream_continues() {
    let mut d = Decoder::new();
    let pieces = d.decode_chunk(b"data: not json\n\ndata: {\"choices\":[{\"delta\":{\"content\":\"ok\"}}]}\n\n");
    assert_eq!(pieces.len(), 1);
    assert_eq!(pieces[0], "ok");
}

#[test]
fn two_records_in_one_chunk_stay_ordered() {
    let mut d = Decoder::new();
    let chunk = b"data: {\"choices\":[{\"delta\":{\"content\":\"a\"}}]}\n\ndata: {\"choices\":[{\"delta\":{\"content\":\"b\"}}]}\n\n";
    let pieces = d.decode_chunk(chunk);
    assert_eq!(pieces.len(), 2);
    assert_eq!(pieces[0], "a");
    assert_eq!(pieces[1], "b");
}

#[test]
fn carriage_returns_are_tolerated() {
    let mut d = Decoder::new();
    let pieces = d.decode_chunk(b"data: {\"choices\":[{\"delta\":{\"content\":\"Z\"}}]}\r\n\r\n");
    assert_eq!(pieces.len(), 1);
    assert_eq!(pieces[0], "Z");
}
