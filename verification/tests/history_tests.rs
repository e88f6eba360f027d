use bongo_chat::history::{
    append_message, keep_recent, request_messages, ChatMessage, HISTORY_FILE, MAX_CONTEXT_MESSAGES,
    MAX_MESSAGES,
};

fn message(role: &str, content: &str) -> ChatMessage {
    ChatMessage {
        role: role.to_string(),
        content: content.to_string(),
        timestamp: 0,
    }
}

fn numbered(n: usize) -> Vec<ChatMessage> {
    (0..n).map(|i| message("user", &format!("msg-{i}"))).collect()
}

#[test]
fn limits() {
    assert_eq!(MAX_MESSAGES, 50);
    assert_eq!(MAX_CONTEXT_MESSAGES, 30);
    assert_eq!(HISTORY_FILE, "chat-history.json");
}

#[test]
fn load_trims_to_max() {
    let kept = keep_recent(numbered(MAX_MESSAGES + 10), MAX_MESSAGES);

    assert_eq!(kept.len(), MAX_MESSAGES);
    assert_eq!(kept[0].content, "msg-10");
    assert_eq!(kept[MAX_MESSAGES - 1].content, "msg-59");
}

#[test]
fn keep_recent_keeps_short_history() {
    let kept = keep_recent(numbered(3), MAX_MESSAGES);

    assert_eq!(kept.len(), 3);
    assert_eq!(kept[0].content, "msg-0");
}

#[test]
fn append_keeps_last_fifty_with_new_message_last() {
    let history = append_message(numbered(MAX_MESSAGES), message("assistant", "new"));

    assert_eq!(history.len(), MAX_MESSAGES);
    assert_eq!(history[0].content, "msg-1");
    assert_eq!(history[MAX_MESSAGES - 1].role, "assistant");
    assert_eq!(history[MAX_MESSAGES - 1].content, "new");

    let short = append_message(Vec::new(), message("user", "hi"));
    assert_eq!(short.len(), 1);
}

#[test]
fn request_messages_start_with_system_and_take_last_thirty() {
    let r = request_messages("prompt".to_string(), numbered(45));

    assert_eq!(r.len(), 1 + MAX_CONTEXT_MESSAGES);
    assert_eq!(r[0].role, "system");
    assert_eq!(r[0].content, "prompt");
    assert_eq!(r[0].timestamp, 0);
    assert_eq!(r[1].content, "msg-15");
    assert_eq!(r[MAX_CONTEXT_MESSAGES].content, "msg-44");

    let few = request_messages("p".to_string(), numbered(2));
    assert_eq!(few.len(), 3);
}
