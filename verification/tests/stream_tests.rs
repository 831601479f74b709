use sse_proxy::chunk::ChatCompletionChunk;
use sse_proxy::stream::DevRequestOptions;
use sse_proxy::stream::SseTranslator;

fn new_translator() -> SseTranslator {
    let options = DevRequestOptions {
        model: Some("test-model".to_string()),
        language: Some("All".to_string()),
    };
    SseTranslator::new(options, "test-req-123".to_string())
}

fn content_of(c: &ChatCompletionChunk) -> &str {
    c.choices[0].delta.content.as_deref().unwrap_or("")
}

fn finish_of(c: &ChatCompletionChunk) -> Option<&str> {
    c.choices[0].finish_reason.as_deref()
}

#[test]
fn scenario_simple_content_then_eof() {
    let mut t = new_translator();
    let chunks = t.on_bytes(b"event: content\ndata: Hello\n\nevent: content\ndata:  World\n\n");
    assert_eq!(chunks.len(), 2);
    assert_eq!(content_of(&chunks[0]), "Hello");
    assert_eq!(finish_of(&chunks[0]), None);
    assert_eq!(content_of(&chunks[1]), " World");
    assert_eq!(finish_of(&chunks[1]), None);
    let fin = t.on_eof();
    assert_eq!(fin.len(), 1);
    assert_eq!(fin[0].choices[0].delta.content, None);
    assert_eq!(fin[0].choices[0].delta.role, None);
    assert_eq!(finish_of(&fin[0]), Some("stop"));
    assert!(t.finished());
    assert_eq!(t.accumulator.text, "Hello World");
}

#[test]
fn scenario_error_mid_stream() {
    let mut t = new_translator();
    let chunks = t.on_bytes(
        b"event: c\ndata: partial\n\nevent: error\ndata: boom\n\nevent: c\ndata: ignored\n\n",
    );
    assert_eq!(chunks.len(), 2);
    assert_eq!(content_of(&chunks[0]), "partial");
    assert_eq!(finish_of(&chunks[0]), None);
    assert_eq!(content_of(&chunks[1]), "[STREAM_ERROR]: boom");
    assert_eq!(finish_of(&chunks[1]), Some("stop"));
    let fin = t.on_eof();
    assert_eq!(fin.len(), 0);
    assert_eq!(t.accumulator.text, "partial");
    assert_eq!(t.accumulator.error, Some("boom".to_string()));
    assert!(t.accumulator.is_finished);
}

#[test]
fn scenario_split_byte_boundaries() {
    let mut t = new_translator();
    let first = t.on_bytes(b"event: content\nda");
    assert_eq!(first.len(), 0);
    let second = t.on_bytes(b"ta: Hi\n\n");
    assert_eq!(second.len(), 1);
    assert_eq!(content_of(&second[0]), "Hi");
    let fin = t.on_eof();
    assert_eq!(fin.len(), 1);
    assert_eq!(finish_of(&fin[0]), Some("stop"));
    assert_eq!(t.accumulator.text, "Hi");
}

#[test]
fn scenario_residual_buffer_without_blank_line() {
    let mut t = new_translator();
    let chunks = t.on_bytes(b"event: content\ndata: tail");
    assert_eq!(chunks.len(), 0);
    let fin = t.on_eof();
    assert_eq!(fin.len(), 2);
    assert_eq!(content_of(&fin[0]), "tail");
    assert_eq!(finish_of(&fin[0]), None);
    assert_eq!(finish_of(&fin[1]), Some("stop"));
    assert_eq!(t.accumulator.text, "tail");
}

#[test]
fn scenario_side_channels_only() {
    let mut t = new_translator();
    let chunks = t.on_bytes(
        b"event: threadId\ndata: th_1\n\nevent: sources\ndata: [{\"title\":\"T\",\"url\":\"u\"}]\n\nevent: rlq\ndata: A\n\nevent: rlq\ndata: B\n\n",
    );
    assert_eq!(chunks.len(), 0);
    let fin = t.on_eof();
    assert_eq!(fin.len(), 1);
    assert_eq!(finish_of(&fin[0]), Some("stop"));
    assert_eq!(t.accumulator.thread_id, Some("th_1".to_string()));
    assert_eq!(t.accumulator.sources.len(), 1);
    assert_eq!(t.accumulator.sources[0].title, Some("T".to_string()));
    assert_eq!(t.accumulator.sources[0].url, Some("u".to_string()));
    assert_eq!(
        t.accumulator.related_questions,
        vec!["A".to_string(), "B".to_string()]
    );
}

#[test]
fn scenario_malformed_action() {
    let mut t = new_translator();
    let chunks = t.on_bytes(b"event: action\ndata: {not json}\n\nevent: c\ndata: ok\n\n");
    assert_eq!(chunks.len(), 1);
    assert_eq!(content_of(&chunks[0]), "ok");
    let fin = t.on_eof();
    assert_eq!(fin.len(), 1);
    assert_eq!(finish_of(&fin[0]), Some("stop"));
    assert!(t.accumulator.actions.is_empty());
}

#[test]
fn chunk_shape_is_stable_across_stream() {
    let mut t = new_translator();
    let mut all = t.on_bytes(b"event: c\ndata: x\n\n");
    all.extend(t.on_eof());
    for c in &all {
        assert_eq!(c.id, "test-req-123");
        assert_eq!(c.model, "test-model");
        assert_eq!(c.object, "chat.completion.chunk");
        assert_eq!(c.choices.len(), 1);
        assert_eq!(c.choices[0].index, 0);
    }
}

#[test]
fn model_falls_back_when_absent() {
    let options = DevRequestOptions { model: None, language: None };
    let mut t = SseTranslator::new(options, "rid".to_string());
    let chunks = t.on_bytes(b"data: hi\n\n");
    assert_eq!(chunks.len(), 1);
    assert_eq!(chunks[0].model, "unknown-dev-model");
    assert_eq!(content_of(&chunks[0]), "hi");
}

#[test]
fn default_event_name_is_message() {
    let mut t = new_translator();
    // No `event:` line: the data dispatches under the default name.
    let chunks = t.on_bytes(b"data: plain\n\n");
    assert_eq!(chunks.len(), 1);
    assert_eq!(content_of(&chunks[0]), "plain");
}

#[test]
fn crlf_lines_are_handled() {
    let mut t = new_translator();
    let chunks = t.on_bytes(b"event: content\r\ndata: Hi\r\n\r\n");
    assert_eq!(chunks.len(), 1);
    assert_eq!(content_of(&chunks[0]), "Hi");
}

#[test]
fn invalid_utf8_is_substituted_not_fatal() {
    let mut t = new_translator();
    let mut bytes: Vec<u8> = b"event: c\ndata: a".to_vec();
    bytes.push(0xFF);
    bytes.extend_from_slice(b"b\n\n");
    let chunks = t.on_bytes(&bytes);
    assert_eq!(chunks.len(), 1);
    assert_eq!(content_of(&chunks[0]), "a\u{FFFD}b");
    let fin = t.on_eof();
    assert_eq!(fin.len(), 1);
    assert_eq!(finish_of(&fin[0]), Some("stop"));
}

#[test]
fn multibyte_content_survives_whole_batches() {
    let mut t = new_translator();
    let chunks = t.on_bytes("event: c\ndata: caf\u{e9}\n\n".as_bytes());
    assert_eq!(chunks.len(), 1);
    assert_eq!(content_of(&chunks[0]), "caf\u{e9}");
}

#[test]
fn at_most_one_terminal_chunk_and_it_is_last() {
    // Feed a stream that tries to end twice: an error event, more content,
    // then EOF; exactly one chunk may carry a finish reason, in last place.
    let mut t = new_translator();
    let mut all = t.on_bytes(b"event: c\ndata: one\n\nevent: error\ndata: bad\n\n");
    all.extend(t.on_bytes(b"event: c\ndata: two\n\n"));
    all.extend(t.on_eof());
    all.extend(t.on_eof());
    let terminal_positions: Vec<usize> = all
        .iter()
        .enumerate()
        .filter(|(_, c)| c.choices[0].finish_reason.is_some())
        .map(|(i, _)| i)
        .collect();
    assert_eq!(terminal_positions, vec![all.len() - 1]);
}

#[test]
fn text_equals_concatenated_content_deltas() {
    let mut t = new_translator();
    let mut all = t.on_bytes(b"event: c\ndata: ab\n\ndata: cd\n\nevent: content\ndata: ef");
    all.extend(t.on_eof());
    let concatenated: String = all
        .iter()
        .filter(|c| c.choices[0].finish_reason.is_none())
        .map(|c| content_of(c).to_string())
        .collect();
    assert_eq!(concatenated, t.accumulator.text);
    assert_eq!(t.accumulator.text, "abcdef");
}

#[test]
fn related_questions_have_no_empty_or_padded_entries() {
    let mut t = new_translator();
    let chunks = t.on_bytes(
        b"event: rlq\ndata:  A \n\nevent: q\ndata: \t\n\nevent: rlq\ndata: B  C\n\n",
    );
    assert_eq!(chunks.len(), 0);
    t.on_eof();
    assert_eq!(t.accumulator.related_questions, vec!["A".to_string(), "B  C".to_string()]);
    for q in &t.accumulator.related_questions {
        assert!(!q.is_empty());
        assert_eq!(q, q.trim());
    }
}

#[test]
fn transport_error_is_sticky() {
    let mut t = new_translator();
    let chunks = t.on_bytes(b"event: c\ndata: early\n\n");
    assert_eq!(chunks.len(), 1);
    t.on_transport_error();
    assert!(t.finished());
    assert_eq!(t.on_bytes(b"event: c\ndata: late\n\n").len(), 0);
    assert_eq!(t.on_eof().len(), 0);
    assert_eq!(t.accumulator.text, "early");
}

#[test]
fn residual_error_event_suppresses_final_chunk() {
    let mut t = new_translator();
    t.on_bytes(b"event: error\ndata: bad");
    let fin = t.on_eof();
    assert_eq!(fin.len(), 1);
    assert_eq!(content_of(&fin[0]), "[STREAM_ERROR]: bad");
    assert_eq!(finish_of(&fin[0]), Some("stop"));
    assert_eq!(t.accumulator.error, Some("bad".to_string()));
}

#[test]
fn blank_separators_between_events_are_tolerated() {
    let mut t = new_translator();
    let chunks = t.on_bytes(b"\n\nevent: c\ndata: x\n\n\n\ndata: y\n\n");
    assert_eq!(chunks.len(), 2);
    assert_eq!(content_of(&chunks[0]), "x");
    assert_eq!(content_of(&chunks[1]), "y");
}

#[test]
fn multiline_data_is_joined_with_newline() {
    let mut t = new_translator();
    let chunks = t.on_bytes(b"event: c\ndata: line1\ndata: line2\n\n");
    assert_eq!(chunks.len(), 1);
    assert_eq!(content_of(&chunks[0]), "line1\nline2");
}

#[test]
fn comments_ids_and_retries_are_ignored() {
    let mut t = new_translator();
    let chunks = t.on_bytes(b": keep-alive\nid: 7\nretry: 100\nevent: c\ndata: z\n\n");
    assert_eq!(chunks.len(), 1);
    assert_eq!(content_of(&chunks[0]), "z");
}

#[test]
fn unknown_event_names_are_ignored() {
    let mut t = new_translator();
    let chunks = t.on_bytes(b"event: mystery\ndata: zzz\n\nevent: c\ndata: ok\n\n");
    assert_eq!(chunks.len(), 1);
    assert_eq!(content_of(&chunks[0]), "ok");
    assert_eq!(t.accumulator.text, "ok");
}

#[test]
fn byte_partition_yields_same_chunks() {
    // The same bytes, fed whole and fed one byte at a time (at character
    // boundaries), give the same chunk sequence.
    let bytes: &[u8] = b"event: content\ndata: Hello\n\ndata: world\n\nevent: rlq\ndata: Q\n\n";
    let mut whole = new_translator();
    let mut chunks_whole = whole.on_bytes(bytes);
    chunks_whole.extend(whole.on_eof());

    let mut pieced = new_translator();
    let mut chunks_pieced = Vec::new();
    for b in bytes {
        chunks_pieced.extend(pieced.on_bytes(&[*b]));
    }
    chunks_pieced.extend(pieced.on_eof());

    assert_eq!(chunks_whole.len(), chunks_pieced.len());
    for (a, b) in chunks_whole.iter().zip(chunks_pieced.iter()) {
        assert_eq!(content_of(a), content_of(b));
        assert_eq!(finish_of(a), finish_of(b));
    }
    assert_eq!(whole.accumulator.text, pieced.accumulator.text);
    assert_eq!(whole.accumulator.related_questions, pieced.accumulator.related_questions);
}

#[test]
fn byte_partition_splitting_multibyte_char() {
    // Feeding one byte at a time splits the two-byte character; the held
    // back lead byte makes the result identical to the whole feed.
    let bytes = "event: c\ndata: caf\u{e9} au lait\n\n".as_bytes();
    let mut whole = new_translator();
    let mut chunks_whole = whole.on_bytes(bytes);
    chunks_whole.extend(whole.on_eof());

    let mut pieced = new_translator();
    let mut chunks_pieced = Vec::new();
    for b in bytes {
        chunks_pieced.extend(pieced.on_bytes(&[*b]));
    }
    chunks_pieced.extend(pieced.on_eof());

    assert_eq!(chunks_whole.len(), chunks_pieced.len());
    for (a, b) in chunks_whole.iter().zip(chunks_pieced.iter()) {
        assert_eq!(content_of(a), content_of(b));
        assert_eq!(finish_of(a), finish_of(b));
    }
    assert_eq!(whole.accumulator.text, "caf\u{e9} au lait");
    assert_eq!(pieced.accumulator.text, "caf\u{e9} au lait");
}

#[test]
fn truncated_utf8_at_eof_becomes_replacement() {
    let mut t = new_translator();
    let mut bytes: Vec<u8> = b"event: c\ndata: x".to_vec();
    bytes.push(0xC3);
    let chunks = t.on_bytes(&bytes);
    assert_eq!(chunks.len(), 0);
    let fin = t.on_eof();
    assert_eq!(fin.len(), 2);
    assert_eq!(content_of(&fin[0]), "x\u{FFFD}");
    assert_eq!(finish_of(&fin[1]), Some("stop"));
    assert_eq!(t.accumulator.text, "x\u{FFFD}");
}
