use glee::sse::{
    chunk_events, frame_events, line_events, payload_events, ChunkFields, GenerationEvent,
    SseReader,
};

fn token(text: &str) -> GenerationEvent {
    GenerationEvent::Token(text.to_string())
}

const HOW: &str = "data: {\"choices\":[{\"delta\":{\"content\":\"How\"},\"finish_reason\":null}]}\n\n";
const ARE: &str = "data: {\"choices\":[{\"delta\":{\"content\":\" are\"}}]}\n\n";
const YOU_STOP: &str =
    "data: {\"choices\":[{\"delta\":{\"content\":\" you?\"},\"finish_reason\":\"stop\"}]}\n\n";

#[test]
fn tokens_and_stop_are_read_from_frames() {
    let mut reader = SseReader::new();
    assert_eq!(reader.on_chunk(HOW.as_bytes()), vec![token("How")]);
    assert!(reader.saw_token);
    assert_eq!(reader.on_chunk(ARE.as_bytes()), vec![token(" are")]);
    assert_eq!(
        reader.on_chunk(YOU_STOP.as_bytes()),
        vec![token(" you?"), GenerationEvent::Done]
    );
    assert!(reader.finished);
    assert!(reader.buffer.is_empty());
    // A finished reader takes nothing in.
    assert!(reader.on_chunk(HOW.as_bytes()).is_empty());
}

#[test]
fn frame_spanning_chunk_boundaries_is_reassembled() {
    let whole = format!("{}{}{}", HOW, ARE, YOU_STOP);
    let bytes = whole.as_bytes();
    let mut expected_reader = SseReader::new();
    let expected = expected_reader.on_chunk(bytes);
    assert_eq!(expected, vec![token("How"), token(" are"), token(" you?"), GenerationEvent::Done]);
    for cut in 0..=bytes.len() {
        let mut reader = SseReader::new();
        let mut events = reader.on_chunk(&bytes[..cut]);
        events.extend(reader.on_chunk(&bytes[cut..]));
        assert_eq!(events, expected, "cut at {}", cut);
        assert_eq!(reader, expected_reader, "cut at {}", cut);
    }
}

#[test]
fn byte_by_byte_delivery_gives_the_same_events() {
    let whole = format!("{}{}", HOW, ARE);
    let mut reader = SseReader::new();
    let mut events = Vec::new();
    for byte in whole.as_bytes() {
        events.extend(reader.on_chunk(&[*byte]));
    }
    assert_eq!(events, vec![token("How"), token(" are")]);
    assert!(!reader.finished);
    assert!(reader.buffer.is_empty());
}

#[test]
fn done_sentinel_ends_the_stream_without_finish_reason() {
    let mut reader = SseReader::new();
    let body = format!("{}data: [DONE]\n\n{}", HOW, ARE);
    assert_eq!(reader.on_chunk(body.as_bytes()), vec![token("How"), GenerationEvent::Done]);
    assert!(reader.finished);
}

#[test]
fn done_sentinel_alone_ends_the_stream() {
    let mut reader = SseReader::new();
    assert_eq!(reader.on_chunk(b"data: [DONE]\n\n"), vec![GenerationEvent::Done]);
    assert!(reader.finished);
    assert!(!reader.saw_token);
    assert_eq!(payload_events(b"[DONE]"), (vec![GenerationEvent::Done], true));
    assert_eq!(line_events(b"data:   [DONE] \r"), (vec![GenerationEvent::Done], true));
}

#[test]
fn incomplete_frame_stays_in_the_buffer() {
    let mut reader = SseReader::new();
    assert!(reader.on_chunk(b"data: {\"choices\"").is_empty());
    assert_eq!(reader.buffer, b"data: {\"choices\"".to_vec());
    assert!(!reader.finished);
}

#[test]
fn lines_without_the_data_prefix_and_bad_json_are_skipped() {
    assert_eq!(line_events(b": keep-alive"), (vec![], false));
    assert_eq!(line_events(b"event: message"), (vec![], false));
    assert_eq!(line_events(b"data: not json"), (vec![], false));
    assert_eq!(line_events(b"data: "), (vec![], false));
    assert_eq!(line_events(b"data:{\"choices\":[]}"), (vec![], false));
    assert_eq!(payload_events(b"{\"choices\":[]}"), (vec![], false));
    assert_eq!(payload_events(b"{\"choices\":{\"0\":{\"delta\":{\"content\":\"x\"}}}}"), (vec![], false));
}

#[test]
fn frame_with_several_lines_stops_at_the_finishing_line() {
    let frame = b"data: {\"choices\":[{\"delta\":{\"content\":\"a\"}}]}\r\ndata: {\"choices\":[{\"finish_reason\":\"length\"}]}\ndata: {\"choices\":[{\"delta\":{\"content\":\"late\"}}]}";
    assert_eq!(frame_events(frame), (vec![token("a"), GenerationEvent::Done], true));
}

#[test]
fn chunk_fields_decide_the_events() {
    let none = ChunkFields { content: None, finish_reason: None };
    assert_eq!(chunk_events(&none), (vec![], false));
    let empty = ChunkFields { content: Some(String::new()), finish_reason: None };
    assert_eq!(chunk_events(&empty), (vec![], false));
    let text = ChunkFields { content: Some("hi".to_string()), finish_reason: Some("other".to_string()) };
    assert_eq!(chunk_events(&text), (vec![token("hi")], false));
    let stop = ChunkFields { content: None, finish_reason: Some("stop".to_string()) };
    assert_eq!(chunk_events(&stop), (vec![GenerationEvent::Done], true));
    let length = ChunkFields { content: Some("x".to_string()), finish_reason: Some("length".to_string()) };
    assert_eq!(chunk_events(&length), (vec![token("x"), GenerationEvent::Done], true));
}

#[test]
fn content_that_is_no_string_is_absent() {
    assert_eq!(payload_events(b"{\"choices\":[{\"delta\":{\"content\":5},\"finish_reason\":7}]}"), (vec![], false));
}

#[test]
fn stream_end_stall_and_cancel() {
    let mut reader = SseReader::new();
    assert_eq!(reader.on_end(), Some(GenerationEvent::Done));
    assert_eq!(reader.on_end(), None);
    assert_eq!(reader.on_stall(), None);
    assert_eq!(reader.on_cancel(), None);
    assert_eq!(reader.on_error("connection reset"), None);
    assert!(reader.finished);
    let mut stalled = SseReader::new();
    assert_eq!(
        stalled.on_stall(),
        Some(GenerationEvent::Error(
            "Generation stalled: No data received from model for 15 seconds".to_string()
        ))
    );
    let mut cancelled = SseReader::new();
    assert_eq!(cancelled.on_cancel(), Some(GenerationEvent::Cancelled));
    assert!(cancelled.finished);
}

#[test]
fn late_decode_error_after_a_token_is_a_benign_end() {
    let mut reader = SseReader::new();
    reader.on_chunk(HOW.as_bytes());
    assert_eq!(
        reader.on_error("request failed: error decoding response body"),
        Some(GenerationEvent::Done)
    );
    let mut fresh = SseReader::new();
    assert_eq!(
        fresh.on_error("error decoding response body"),
        Some(GenerationEvent::Error("error decoding response body".to_string()))
    );
    let mut other = SseReader::new();
    other.on_chunk(HOW.as_bytes());
    assert_eq!(
        other.on_error("connection reset"),
        Some(GenerationEvent::Error("connection reset".to_string()))
    );
}

#[test]
fn nothing_follows_the_sentinel() {
    let mut reader = SseReader::new();
    let mut body = String::new();
    body.push_str(HOW);
    body.push_str("data: [DONE]\n\n");
    body.push_str(HOW);
    let events = reader.on_chunk(body.as_bytes());
    assert_eq!(events.last(), Some(&GenerationEvent::Done));
    assert_eq!(events.iter().filter(|e| **e == GenerationEvent::Done).count(), 1);
    assert_eq!(events.len(), reader_events(HOW).len() + 1);
    assert!(reader.finished);
    assert!(reader.on_chunk(HOW.as_bytes()).is_empty());
    assert!(reader.on_chunk(b"data: [DONE]\n\n").is_empty());
    assert_eq!(reader.on_end(), None);
    assert_eq!(reader.on_error("error decoding response body"), None);
}

fn reader_events(body: &str) -> Vec<GenerationEvent> {
    SseReader::new().on_chunk(body.as_bytes())
}
