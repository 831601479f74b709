use sse_proxy::accum::SseAccumulator;
use sse_proxy::dispatch::process_single_dev_event;

const TEST_REQ_ID: &str = "test-req-123";
const TEST_MODEL_NAME: &str = "test-model";

fn default_accumulator() -> SseAccumulator {
    SseAccumulator::default()
}

#[test]
fn test_process_event_content() {
    let mut acc = default_accumulator();
    let event = "content".to_string();
    let data = "Hello".to_string();

    let chunk = process_single_dev_event(&mut acc, event, data, TEST_REQ_ID, TEST_MODEL_NAME);

    assert!(chunk.is_some());
    let chunk = chunk.unwrap();
    assert_eq!(chunk.id, TEST_REQ_ID);
    assert_eq!(chunk.model, TEST_MODEL_NAME);
    assert_eq!(chunk.choices.len(), 1);
    assert_eq!(chunk.choices[0].delta.content, Some("Hello".to_string()));
    assert_eq!(chunk.choices[0].delta.role, Some("assistant".to_string()));
    assert_eq!(chunk.choices[0].finish_reason, None);
    assert_eq!(acc.text, "Hello");
}

#[test]
fn test_process_event_message() {
    let mut acc = default_accumulator();
    let event = "message".to_string();
    let data = " World".to_string();
    acc.text = "Hello".to_string();

    let chunk = process_single_dev_event(&mut acc, event, data, TEST_REQ_ID, TEST_MODEL_NAME);

    assert!(chunk.is_some());
    let chunk = chunk.unwrap();
    assert_eq!(chunk.choices[0].delta.content, Some(" World".to_string()));
    assert_eq!(acc.text, "Hello World");
}

#[test]
fn test_process_event_c_alias() {
    let mut acc = default_accumulator();
    let event = "c".to_string();
    let data = "TestC".to_string();

    let chunk = process_single_dev_event(&mut acc, event, data, TEST_REQ_ID, TEST_MODEL_NAME);

    assert!(chunk.is_some());
    let chunk = chunk.unwrap();
    assert_eq!(chunk.choices[0].delta.content, Some("TestC".to_string()));
    assert_eq!(acc.text, "TestC");
}

#[test]
fn test_process_event_action_invalid_json() {
    let mut acc = default_accumulator();
    let event = "action".to_string();
    let data = r#"{"type": "search", query: "rust sse"}"#.to_string();

    let chunk = process_single_dev_event(&mut acc, event, data, TEST_REQ_ID, TEST_MODEL_NAME);

    assert!(chunk.is_none());
    assert!(acc.actions.is_empty());
}

#[test]
fn test_process_event_sources() {
    let mut acc = default_accumulator();
    let event = "sources".to_string();
    let data = r#"[{"title": "Rust Docs", "url": "https://doc.rust-lang.org"}]"#.to_string();

    let chunk = process_single_dev_event(&mut acc, event, data, TEST_REQ_ID, TEST_MODEL_NAME);

    assert!(chunk.is_none());
    assert_eq!(acc.sources.len(), 1);
    assert_eq!(acc.sources[0].title, Some("Rust Docs".to_string()));
    assert_eq!(acc.sources[0].url, Some("https://doc.rust-lang.org".to_string()));
}

#[test]
fn test_process_event_repo_sources() {
    let mut acc = default_accumulator();
    let event = "repoSources".to_string();
    let data = r#"[{"repo": "axum", "filePath": "src/main.rs"}]"#.to_string();

    let chunk = process_single_dev_event(&mut acc, event, data, TEST_REQ_ID, TEST_MODEL_NAME);

    assert!(chunk.is_none());
    assert_eq!(acc.github_sources.len(), 1);
    assert_eq!(acc.github_sources[0].repo, Some("axum".to_string()));
    assert_eq!(acc.github_sources[0].file_path, Some("src/main.rs".to_string()));
}

#[test]
fn test_process_event_rlq_and_q() {
    let mut acc = default_accumulator();

    let chunk1 = process_single_dev_event(
        &mut acc,
        "rlq".to_string(),
        "Related 1".to_string(),
        TEST_REQ_ID,
        TEST_MODEL_NAME,
    );
    assert!(chunk1.is_none());
    assert_eq!(acc.related_questions_raw, "\nRelated 1");

    let chunk2 = process_single_dev_event(
        &mut acc,
        "q".to_string(),
        "Related 2".to_string(),
        TEST_REQ_ID,
        TEST_MODEL_NAME,
    );
    assert!(chunk2.is_none());
    assert_eq!(acc.related_questions_raw, "\nRelated 1\nRelated 2");

    acc.update_related_questions();
    assert_eq!(acc.related_questions, vec!["Related 1".to_string(), "Related 2".to_string()]);
}

#[test]
fn test_process_event_reasoning() {
    let mut acc = default_accumulator();
    let chunk1 = process_single_dev_event(
        &mut acc,
        "r".to_string(),
        "Reasoning part 1. ".to_string(),
        TEST_REQ_ID,
        TEST_MODEL_NAME,
    );
    assert!(chunk1.is_none());
    assert_eq!(acc.reasoning, Some("Reasoning part 1. ".to_string()));

    let chunk2 = process_single_dev_event(
        &mut acc,
        "r".to_string(),
        "Reasoning part 2.".to_string(),
        TEST_REQ_ID,
        TEST_MODEL_NAME,
    );
    assert!(chunk2.is_none());
    assert_eq!(acc.reasoning, Some("Reasoning part 1. Reasoning part 2.".to_string()));
}

#[test]
fn test_process_event_metadata() {
    let mut acc = default_accumulator();
    let events = vec![
        ("threadId", "th_123"),
        ("queryMessageId", "qm_456"),
        ("answerMessageId", "am_789"),
        ("threadTitle", "Rust Test Thread"),
    ];

    for (event_name, event_data) in events {
        let chunk = process_single_dev_event(
            &mut acc,
            event_name.to_string(),
            event_data.to_string(),
            TEST_REQ_ID,
            TEST_MODEL_NAME,
        );
        assert!(chunk.is_none());
    }

    assert_eq!(acc.thread_id, Some("th_123".to_string()));
    assert_eq!(acc.query_message_id, Some("qm_456".to_string()));
    assert_eq!(acc.answer_message_id, Some("am_789".to_string()));
    assert_eq!(acc.thread_title, Some("Rust Test Thread".to_string()));
}

#[test]
fn test_process_event_error() {
    let mut acc = default_accumulator();
    let event = "error".to_string();
    let data = "Something went wrong".to_string();

    let chunk = process_single_dev_event(&mut acc, event, data, TEST_REQ_ID, TEST_MODEL_NAME);

    assert!(chunk.is_some());
    let chunk = chunk.unwrap();
    assert_eq!(chunk.id, TEST_REQ_ID);
    assert_eq!(chunk.model, TEST_MODEL_NAME);
    assert_eq!(chunk.choices.len(), 1);
    assert!(chunk.choices[0].delta.content.as_ref().unwrap().contains("ERROR"));
    assert_eq!(chunk.choices[0].finish_reason, Some("stop".to_string()));

    assert_eq!(acc.error, Some("Something went wrong".to_string()));
    assert!(acc.is_finished);
}

#[test]
fn test_process_event_unknown() {
    let mut acc = default_accumulator();
    let event = "unknown_event".to_string();
    let data = "some data".to_string();
    let initial_acc = acc.clone();

    let chunk = process_single_dev_event(&mut acc, event, data, TEST_REQ_ID, TEST_MODEL_NAME);

    assert!(chunk.is_none());
    assert_eq!(acc.text, initial_acc.text);
    assert_eq!(acc.actions.len(), initial_acc.actions.len());
    assert_eq!(acc.sources.len(), initial_acc.sources.len());
    assert_eq!(acc.github_sources.len(), initial_acc.github_sources.len());
    assert_eq!(acc.related_questions_raw, initial_acc.related_questions_raw);
    assert_eq!(acc.reasoning, initial_acc.reasoning);
    assert_eq!(acc.error, initial_acc.error);
    assert_eq!(acc.is_finished, initial_acc.is_finished);
}

#[test]
fn test_process_event_action_with_extras() {
    let mut acc = default_accumulator();
    let event = "action".to_string();
    let data = r#"{"type": 2, "query": "rust sse"}"#.to_string();

    let chunk = process_single_dev_event(&mut acc, event, data, TEST_REQ_ID, TEST_MODEL_NAME);

    assert!(chunk.is_none());
    assert_eq!(acc.actions.len(), 1);
    assert_eq!(acc.actions[0].action_type, 2);
    assert!(acc.actions[0].extra.get("query").is_some());
    assert_eq!(acc.actions[0].extra.get("query").unwrap().as_str(), Some("rust sse"));
    assert!(acc.actions[0].extra.get("type").is_none());
}

#[test]
fn test_process_event_source_unknown_fields_preserved() {
    let mut acc = default_accumulator();
    let event = "sources".to_string();
    let data = r#"[{"title": "T", "score": 7}]"#.to_string();

    let chunk = process_single_dev_event(&mut acc, event, data, TEST_REQ_ID, TEST_MODEL_NAME);

    assert!(chunk.is_none());
    assert_eq!(acc.sources.len(), 1);
    assert_eq!(acc.sources[0].title, Some("T".to_string()));
    assert_eq!(acc.sources[0].url, None);
    assert_eq!(acc.sources[0].extra.get("score").unwrap().as_u64(), Some(7));
}

#[test]
fn test_process_event_action_wrong_type_shape() {
    let mut acc = default_accumulator();

    let c1 = process_single_dev_event(
        &mut acc,
        "action".to_string(),
        r#"{"query": "no type"}"#.to_string(),
        TEST_REQ_ID,
        TEST_MODEL_NAME,
    );
    assert!(c1.is_none());
    assert!(acc.actions.is_empty());

    let c2 = process_single_dev_event(
        &mut acc,
        "action".to_string(),
        r#"{"type": -3}"#.to_string(),
        TEST_REQ_ID,
        TEST_MODEL_NAME,
    );
    assert!(c2.is_none());
    assert!(acc.actions.is_empty());

    let c3 = process_single_dev_event(
        &mut acc,
        "action".to_string(),
        "[1, 2]".to_string(),
        TEST_REQ_ID,
        TEST_MODEL_NAME,
    );
    assert!(c3.is_none());
    assert!(acc.actions.is_empty());
}

#[test]
fn test_process_event_empty_content_skipped() {
    let mut acc = default_accumulator();
    let chunk = process_single_dev_event(
        &mut acc,
        "content".to_string(),
        "".to_string(),
        TEST_REQ_ID,
        TEST_MODEL_NAME,
    );
    assert!(chunk.is_none());
    assert_eq!(acc.text, "");
}

#[test]
fn test_process_event_rlq_trims_whitespace() {
    let mut acc = default_accumulator();
    let chunk = process_single_dev_event(
        &mut acc,
        "rlq".to_string(),
        "  spaced out \t".to_string(),
        TEST_REQ_ID,
        TEST_MODEL_NAME,
    );
    assert!(chunk.is_none());
    assert_eq!(acc.related_questions_raw, "\nspaced out");
    acc.update_related_questions();
    assert_eq!(acc.related_questions, vec!["spaced out".to_string()]);
}

#[test]
fn test_process_event_finish_is_ignored() {
    let mut acc = default_accumulator();
    let chunk = process_single_dev_event(
        &mut acc,
        "finish".to_string(),
        "".to_string(),
        TEST_REQ_ID,
        TEST_MODEL_NAME,
    );
    assert!(chunk.is_none());
    assert!(!acc.is_finished);
}

#[test]
fn test_dropped_after_error() {
    let mut acc = default_accumulator();
    let c1 = process_single_dev_event(
        &mut acc,
        "error".to_string(),
        "boom".to_string(),
        TEST_REQ_ID,
        TEST_MODEL_NAME,
    );
    assert!(c1.is_some());
    let c2 = process_single_dev_event(
        &mut acc,
        "content".to_string(),
        "late".to_string(),
        TEST_REQ_ID,
        TEST_MODEL_NAME,
    );
    assert!(c2.is_none());
    assert_eq!(acc.text, "");
}
