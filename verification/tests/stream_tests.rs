use bongo_chat::stream::{extract_delta, SseDecoder, EVENT_DONE, EVENT_STREAM};

#[test]
fn extract_delta_from_content_line() {
    let line = r#"data: {"choices":[{"delta":{"content":"你好"}}]}"#;

    assert_eq!(extract_delta(line).as_deref(), Some("你好"));
}

#[test]
fn extract_delta_ignores_done() {
    assert_eq!(extract_delta("data: [DONE]"), None);
}

#[test]
fn extract_delta_ignores_non_data_line() {
    assert_eq!(extract_delta(": keep-alive"), None);
    assert_eq!(extract_delta(""), None);
}

#[test]
fn extract_delta_handles_crlf() {
    let line = r#"data: {"choices":[{"delta":{"content":"hi"}}]}"#;

    assert_eq!(extract_delta(&format!("{line}\r")).as_deref(), Some("hi"));
}

#[test]
fn extract_delta_returns_none_without_content() {
    let line = r#"data: {"choices":[{"delta":{"role":"assistant"}}]}"#;

    assert_eq!(extract_delta(line), None);
}

#[test]
fn extract_delta_ignores_invalid_json_and_empty_data() {
    assert_eq!(extract_delta("data: {not json"), None);
    assert_eq!(extract_delta("data:   "), None);
    assert_eq!(extract_delta("data:"), None);
}

#[test]
fn extract_delta_without_space_and_non_string_content() {
    let line = r#"data:{"choices":[{"delta":{"content":"x"}}]}"#;
    assert_eq!(extract_delta(line).as_deref(), Some("x"));

    let number = r#"data: {"choices":[{"delta":{"content":5}}]}"#;
    assert_eq!(extract_delta(number), None);
}

#[test]
fn extract_delta_needs_prefix_at_start() {
    let line = r#" data: {"choices":[{"delta":{"content":"x"}}]}"#;

    assert_eq!(extract_delta(line), None);
}

#[test]
fn event_names() {
    assert_eq!(EVENT_STREAM, "chat-stream");
    assert_eq!(EVENT_DONE, "chat-done");
}

fn line(content: &str) -> String {
    format!("data: {{\"choices\":[{{\"delta\":{{\"content\":\"{content}\"}}}}]}}\n")
}

#[test]
fn decoder_reads_whole_lines() {
    let mut decoder = SseDecoder::new();
    let text = format!("{}{}data: [DONE]\n", line("你"), line("好"));

    let deltas = decoder.feed(text.as_bytes());

    assert_eq!(deltas, vec!["你".to_string(), "好".to_string()]);
    assert_eq!(decoder.reply_text(), "你好");
}

#[test]
fn decoder_joins_lines_split_across_chunks() {
    let text = format!("{}: keep-alive\n{}", line("ab"), line("cd"));
    let bytes = text.as_bytes();

    for split in 0..bytes.len() {
        let mut decoder = SseDecoder::new();
        let mut all = decoder.feed(&bytes[..split]);
        all.extend(decoder.feed(&bytes[split..]));

        assert_eq!(all, vec!["ab".to_string(), "cd".to_string()]);
        assert_eq!(decoder.reply_text(), "abcd");
    }
}

#[test]
fn decoder_handles_crlf_lines_and_multibyte_splits() {
    let text = format!("{}\r\n", line("天气").trim_end());
    let bytes = text.as_bytes();
    let mut decoder = SseDecoder::new();

    let split = text.find('天').unwrap() + 1;
    let first = decoder.feed(&bytes[..split]);
    let second = decoder.feed(&bytes[split..]);

    assert!(first.is_empty());
    assert_eq!(second, vec!["天气".to_string()]);
}

#[test]
fn decoder_ignores_unfinished_last_line() {
    let mut decoder = SseDecoder::new();
    let text = line("x");

    let deltas = decoder.feed(text.trim_end().as_bytes());
    assert!(deltas.is_empty());

    let done = decoder.finish();
    assert_eq!(done.content, "");
    assert!(done.error.is_none());
}

#[test]
fn decoder_finish_carries_reply() {
    let mut decoder = SseDecoder::new();
    decoder.feed(line("a").as_bytes());
    decoder.feed(line("b").as_bytes());

    let done = decoder.finish();
    assert_eq!(done.content, "ab");
    assert!(done.error.is_none());
}

#[test]
fn extract_delta_ignores_trailing_whitespace() {
    let line = r#"data: {"choices":[{"delta":{"content":"ok"}}]}"#;

    for end in ["", " ", "\t", "\r", "\r\n", "\u{3000}"] {
        assert_eq!(extract_delta(&format!("{line}{end}")).as_deref(), Some("ok"));
    }
    assert_eq!(extract_delta("data:\r"), None);
    assert_eq!(extract_delta("data\r"), None);
}
