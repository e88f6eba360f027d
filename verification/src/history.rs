//! The chat history: how many messages are kept, and which of them a
//! request carries.
use vstd::prelude::*;

verus! {

/// Name of the history file in the application's configuration directory.
pub const HISTORY_FILE: &'static str = "chat-history.json";

/// The most messages the history keeps.
pub const MAX_MESSAGES: usize = 50;

/// The most history messages a request carries.
pub const MAX_CONTEXT_MESSAGES: usize = 30;

/// One message of a conversation.
#[derive(Debug, Clone)]
pub struct ChatMessage {
    pub role: String,
    pub content: String,
    pub timestamp: i64,
}

/// The last `max` messages of `s` (all of them when there are fewer).
pub open spec fn recent<T>(s: Seq<T>, max: nat) -> Seq<T> {
    if s.len() > max {
        s.subrange(s.len() - max, s.len() as int)
    } else {
        s
    }
}

/// Keeps the last `max` messages.
pub fn keep_recent(messages: Vec<ChatMessage>, max: usize) -> (r: Vec<ChatMessage>)
    ensures
        r@ == recent(messages@, max as nat),
{
    let mut messages = messages;
    let n = messages.len();
    if n > max {
        messages.split_off(n - max)
    } else {
        messages
    }
}

/// The history after `message` is added: the last `MAX_MESSAGES` of the
/// old messages followed by the new one.
pub fn append_message(messages: Vec<ChatMessage>, message: ChatMessage) -> (r: Vec<ChatMessage>)
    ensures
        r@ == recent(messages@.push(message), MAX_MESSAGES as nat),
{
    let mut messages = messages;
    messages.push(message);
    keep_recent(messages, MAX_MESSAGES)
}

/// The messages that a request carries: a system message holding
/// `system_prompt`, then the last `MAX_CONTEXT_MESSAGES` of the history.
pub fn request_messages(system_prompt: String, history: Vec<ChatMessage>) -> (r: Vec<ChatMessage>)
    ensures
        r@.len() >= 1,
        r@[0].role@ == "system"@,
        r@[0].content@ == system_prompt@,
        r@[0].timestamp == 0,
        r@.drop_first() == recent(history@, MAX_CONTEXT_MESSAGES as nat),
{
    let mut r: Vec<ChatMessage> = Vec::new();
    r.push(ChatMessage { role: String::from_str("system"), content: system_prompt, timestamp: 0 });
    let mut context = keep_recent(history, MAX_CONTEXT_MESSAGES);
    let ghost ctx = context@;
    r.append(&mut context);
    assert(r@.drop_first() =~= ctx);
    r
}

/// The history never holds more than `MAX_MESSAGES` messages after an
/// addition, and the added message is its last.
pub proof fn lemma_append_bounded(messages: Seq<ChatMessage>, message: ChatMessage)
    ensures
        recent(messages.push(message), MAX_MESSAGES as nat).len() <= MAX_MESSAGES,
        recent(messages.push(message), MAX_MESSAGES as nat).last() == message,
{
}

/// Trimming a history when it is loaded does not change what the next
/// addition keeps: the last messages of the trimmed history plus the new
/// one are the last messages of the whole history plus the new one.
pub proof fn lemma_append_after_load(messages: Seq<ChatMessage>, message: ChatMessage)
    ensures
        recent(recent(messages, MAX_MESSAGES as nat).push(message), MAX_MESSAGES as nat) == recent(
            messages.push(message),
            MAX_MESSAGES as nat,
        ),
{
    let m = MAX_MESSAGES as nat;
    assert(recent(recent(messages, m).push(message), m) =~= recent(messages.push(message), m));
}

/// Keeping the last messages twice keeps the same messages as once.
pub proof fn lemma_recent_idempotent<T>(s: Seq<T>, max: nat)
    ensures
        recent(recent(s, max), max) == recent(s, max),
{
}

} // verus!
