//! The requests of one chat turn: the endpoint, the request bodies, and
//! the order of rounds when the model calls tools.
use vstd::prelude::*;

use crate::config::ChatConfig;
use crate::history::ChatMessage;
use crate::text::{
    concat_str, drop_trailing, is_blank, lemma_drop_trailing_is, string_of_range, to_chars, trim,
    CharClass,
};

verus! {

/// A message of a request body.
pub enum RequestMessage {
    /// `{"role": role, "content": content}`.
    Chat { role: String, content: String },
    /// A message of the model, passed back as the JSON text it came as.
    Verbatim(String),
    /// `{"role": "tool", "tool_call_id": id, "content": content}`.
    Tool { tool_call_id: String, content: String },
}

pub enum MessageView {
    Chat { role: Seq<char>, content: Seq<char> },
    Verbatim(Seq<char>),
    Tool { tool_call_id: Seq<char>, content: Seq<char> },
}

impl View for RequestMessage {
    type V = MessageView;

    open spec fn view(&self) -> MessageView {
        match self {
            RequestMessage::Chat { role, content } => MessageView::Chat {
                role: role@,
                content: content@,
            },
            RequestMessage::Verbatim(j) => MessageView::Verbatim(j@),
            RequestMessage::Tool { tool_call_id, content } => MessageView::Tool {
                tool_call_id: tool_call_id@,
                content: content@,
            },
        }
    }
}

pub open spec fn messages_view(v: Seq<RequestMessage>) -> Seq<MessageView> {
    v.map_values(|m: RequestMessage| m@)
}

impl RequestMessage {
    /// A copy of the message.
    pub fn duplicate(&self) -> (r: Self)
        ensures
            r@ == self@,
    {
        match self {
            RequestMessage::Chat { role, content } => RequestMessage::Chat {
                role: role.clone(),
                content: content.clone(),
            },
            RequestMessage::Verbatim(j) => RequestMessage::Verbatim(j.clone()),
            RequestMessage::Tool { tool_call_id, content } => RequestMessage::Tool {
                tool_call_id: tool_call_id.clone(),
                content: content.clone(),
            },
        }
    }
}

fn duplicate_all(v: &Vec<RequestMessage>) -> (r: Vec<RequestMessage>)
    ensures
        messages_view(r@) == messages_view(v@),
{
    let mut r: Vec<RequestMessage> = Vec::new();
    let mut i: usize = 0;
    while i < v.len()
        invariant
            i <= v@.len(),
            messages_view(r@) == messages_view(v@).take(i as int),
        decreases v@.len() - i,
    {
        let x = v[i].duplicate();
        let ghost before = r@;
        r.push(x);
        assert(messages_view(r@) =~= messages_view(before).push(x@));
        assert(messages_view(v@).take(i + 1 as int) =~= messages_view(v@).take(i as int).push(
            v@[i as int]@,
        ));
        i = i + 1;
    }
    assert(messages_view(v@).take(v@.len() as int) =~= messages_view(v@));
    r
}

/// The body of a chat completion request.
pub struct ChatRequest {
    pub model: String,
    pub stream: bool,
    pub messages: Vec<RequestMessage>,
    /// Whether the body offers the tools (`tools_definition`).
    pub with_tools: bool,
    /// `reasoning_effort`, when the body has it.
    pub reasoning_effort: Option<String>,
    /// Whether the body holds `"thinking": {"type": "enabled"}`.
    pub thinking_enabled: bool,
}

pub struct RequestView {
    pub model: Seq<char>,
    pub stream: bool,
    pub messages: Seq<MessageView>,
    pub with_tools: bool,
    pub reasoning_effort: Option<Seq<char>>,
    pub thinking_enabled: bool,
}

impl View for ChatRequest {
    type V = RequestView;

    open spec fn view(&self) -> RequestView {
        RequestView {
            model: self.model@,
            stream: self.stream,
            messages: messages_view(self.messages@),
            with_tools: self.with_tools,
            reasoning_effort: match self.reasoning_effort {
                Some(s) => Some(s@),
                None => None,
            },
            thinking_enabled: self.thinking_enabled,
        }
    }
}

/// The body for the configured model: reasoning, when enabled, asks for
/// effort `high` and turns thinking on.
pub open spec fn request_spec(
    model: Seq<char>,
    reasoning: bool,
    messages: Seq<MessageView>,
    with_tools: bool,
    stream: bool,
) -> RequestView {
    RequestView {
        model,
        stream,
        messages,
        with_tools,
        reasoning_effort: if reasoning {
            Some("high"@)
        } else {
            None
        },
        thinking_enabled: reasoning,
    }
}

/// Builds a request body.
pub fn build_body(
    config: &ChatConfig,
    messages: Vec<RequestMessage>,
    with_tools: bool,
    stream: bool,
) -> (r: ChatRequest)
    ensures
        r@ == request_spec(
            config.model@,
            config.reasoning,
            messages_view(messages@),
            with_tools,
            stream,
        ),
        r.model@ == config.model@,
        r.stream == stream,
        r.with_tools == with_tools,
        r.thinking_enabled == config.reasoning,
        r.reasoning_effort.is_some() == config.reasoning,
        r.reasoning_effort matches Some(e) ==> e@ == "high"@,
{
    ChatRequest {
        model: config.model.clone(),
        stream,
        messages,
        with_tools,
        reasoning_effort: if config.reasoning {
            Some(String::from_str("high"))
        } else {
            None
        },
        thinking_enabled: config.reasoning,
    }
}

pub open spec fn chat_message_view(m: ChatMessage) -> MessageView {
    MessageView::Chat { role: m.role@, content: m.content@ }
}

/// The request messages of a conversation: role and content of each
/// message, in order (timestamps are not sent).
pub fn messages_to_values(messages: &[ChatMessage]) -> (r: Vec<RequestMessage>)
    ensures
        messages_view(r@) == messages@.map_values(|m: ChatMessage| chat_message_view(m)),
{
    let ghost target = messages@.map_values(|m: ChatMessage| chat_message_view(m));
    let mut r: Vec<RequestMessage> = Vec::new();
    let mut i: usize = 0;
    while i < messages.len()
        invariant
            i <= messages@.len(),
            target == messages@.map_values(|m: ChatMessage| chat_message_view(m)),
            messages_view(r@) == target.take(i as int),
        decreases messages@.len() - i,
    {
        let m = &messages[i];
        let ghost before = r@;
        let msg = RequestMessage::Chat { role: m.role.clone(), content: m.content.clone() };
        r.push(msg);
        assert(messages_view(r@) =~= messages_view(before).push(msg@));
        assert(target.take(i + 1 as int) =~= target.take(i as int).push(target[i as int]));
        i = i + 1;
    }
    assert(target.take(messages@.len() as int) =~= target);
    r
}

/// The address of chat completions under `base_url` (trailing slashes
/// removed), once an API key is set.
pub open spec fn completions_url_spec(api_key: Seq<char>, base_url: Seq<char>) -> Result<
    Seq<char>,
    Seq<char>,
> {
    if trim(api_key).len() == 0 {
        Err("未配置 API Key，请先在设置中填写"@)
    } else {
        Ok(drop_trailing(base_url, CharClass::Exactly('/')) + "/chat/completions"@)
    }
}

/// The address of chat completions, or the message that no API key is set.
pub fn completions_url(config: &ChatConfig) -> (r: Result<String, String>)
    ensures
        match r {
            Ok(u) => completions_url_spec(config.api_key@, config.base_url@) == Ok::<
                Seq<char>,
                Seq<char>,
            >(u@),
            Err(e) => completions_url_spec(config.api_key@, config.base_url@) == Err::<
                Seq<char>,
                Seq<char>,
            >(e@),
        },
{
    if is_blank(config.api_key.as_str()) {
        return Err(String::from_str("未配置 API Key，请先在设置中填写"));
    }
    let v = to_chars(config.base_url.as_str());
    let k = trailing_start(v.as_slice(), '/');
    let mut url = string_of_range(v.as_slice(), 0, k);
    url.append("/chat/completions");
    Ok(url)
}

/// The end of `v` without its trailing `c`s.
fn trailing_start(v: &[char], c: char) -> (k: usize)
    ensures
        k <= v@.len(),
        v@.subrange(0, k as int) == drop_trailing(v@, CharClass::Exactly(c)),
{
    let mut k = v.len();
    while k > 0 && v[k - 1] == c
        invariant
            k <= v@.len(),
            forall|j: int| k <= j < v@.len() ==> v@[j] == c,
        decreases k,
    {
        k = k - 1;
    }
    proof {
        lemma_drop_trailing_is(v@, CharClass::Exactly(c), k as int);
        assert(v@.take(k as int) =~= v@.subrange(0, k as int));
    }
    k
}

/// A tool call that the model asked for.
pub struct ToolCall {
    pub id: String,
    pub name: String,
    /// The JSON text of its arguments, when the call has one.
    pub arguments: Option<String>,
}

/// The reply to the first round: the model's message as JSON text, and its
/// tool calls (`None` when the message has none).
pub struct ProbeReply {
    pub message_json: String,
    pub tool_calls: Option<Vec<ToolCall>>,
}

/// What a turn does after its first round.
pub enum TurnStep {
    /// Stream the answer with this request.
    Stream(ChatRequest),
    /// Run these tools, then stream with `tool_round_request`.
    RunTools(Vec<ToolCall>),
}

/// The first round: the conversation with the tools offered, not streamed.
pub fn probe_request(config: &ChatConfig, base: &Vec<RequestMessage>) -> (r: ChatRequest)
    ensures
        r@ == request_spec(config.model@, config.reasoning, messages_view(base@), true, false),
{
    build_body(config, duplicate_all(base), true, false)
}

/// After the first round: without tool calls the answer is streamed from
/// the same conversation with the tools offered; otherwise the tools run.
pub fn after_probe(config: &ChatConfig, base: &Vec<RequestMessage>, reply: ProbeReply) -> (r:
    TurnStep)
    ensures
        match reply.tool_calls {
            None => r matches TurnStep::Stream(q) && q@ == request_spec(
                config.model@,
                config.reasoning,
                messages_view(base@),
                true,
                true,
            ),
            Some(calls) => r matches TurnStep::RunTools(c) && c == calls,
        },
{
    match reply.tool_calls {
        None => TurnStep::Stream(build_body(config, duplicate_all(base), true, true)),
        Some(calls) => TurnStep::RunTools(calls),
    }
}

/// What the model reads of a tool's run: its output, or the error prefixed
/// with `工具执行失败: `.
pub open spec fn tool_reply_spec(r: Result<Seq<char>, Seq<char>>) -> Seq<char> {
    match r {
        Ok(s) => s,
        Err(e) => "工具执行失败: "@ + e,
    }
}

/// The text that the model reads of a tool's run.
pub fn tool_reply(result: Result<String, String>) -> (s: String)
    ensures
        s@ == tool_reply_spec(
            match result {
                Ok(o) => Ok(o@),
                Err(e) => Err(e@),
            },
        ),
{
    match result {
        Ok(o) => o,
        Err(e) => concat_str("工具执行失败: ", e.as_str()),
    }
}

pub open spec fn tool_message_view(id: Seq<char>, r: Result<Seq<char>, Seq<char>>) -> MessageView {
    MessageView::Tool { tool_call_id: id, content: tool_reply_spec(r) }
}

pub open spec fn result_view(r: Result<String, String>) -> Result<Seq<char>, Seq<char>> {
    match r {
        Ok(o) => Ok(o@),
        Err(e) => Err(e@),
    }
}

/// The second round: the conversation, the model's message as it came,
/// and one tool message per call in order, streamed without tools.
pub fn tool_round_request(
    config: &ChatConfig,
    base: Vec<RequestMessage>,
    message_json: String,
    results: &[(String, Result<String, String>)],
) -> (r: ChatRequest)
    ensures
        r@ == request_spec(
            config.model@,
            config.reasoning,
            messages_view(base@).push(MessageView::Verbatim(message_json@)) + results@.map_values(
                |e: (String, Result<String, String>)| tool_message_view(e.0@, result_view(e.1)),
            ),
            false,
            true,
        ),
{
    let ghost tools = results@.map_values(
        |e: (String, Result<String, String>)| tool_message_view(e.0@, result_view(e.1)),
    );
    let mut all = base;
    let ghost head = messages_view(all@).push(MessageView::Verbatim(message_json@));
    let ghost before0 = all@;
    all.push(RequestMessage::Verbatim(message_json));
    assert(messages_view(all@) =~= messages_view(before0).push(all@.last()@));
    assert(tools.take(0) =~= Seq::<MessageView>::empty());
    let mut i: usize = 0;
    while i < results.len()
        invariant
            i <= results@.len(),
            tools == results@.map_values(
                |e: (String, Result<String, String>)| tool_message_view(e.0@, result_view(e.1)),
            ),
            messages_view(all@) == head + tools.take(i as int),
        decreases results@.len() - i,
    {
        let (id, res) = &results[i];
        let res2 = match res {
            Ok(o) => Ok(o.clone()),
            Err(e) => Err(e.clone()),
        };
        let content = tool_reply(res2);
        let msg = RequestMessage::Tool { tool_call_id: id.clone(), content };
        let ghost before = all@;
        all.push(msg);
        assert(messages_view(all@) =~= messages_view(before).push(msg@));
        assert(tools.take(i + 1 as int) =~= tools.take(i as int).push(tools[i as int]));
        i = i + 1;
    }
    assert(tools.take(results@.len() as int) =~= tools);
    build_body(config, all, false, true)
}

/// Reasoning is asked for in every round alike: whether a body is the
/// first (tools offered, not streamed), the streamed answer or the round
/// after the tools, it asks for effort `high` and turns thinking on exactly
/// when the configuration has reasoning on, and asks for neither when it
/// is off; model, messages, tools and streaming are as given.
pub proof fn lemma_reasoning_in_every_round(
    model: Seq<char>,
    reasoning: bool,
    messages: Seq<MessageView>,
    with_tools: bool,
    stream: bool,
)
    ensures
        ({
            let r = request_spec(model, reasoning, messages, with_tools, stream);
            &&& reasoning ==> r.reasoning_effort == Some("high"@) && r.thinking_enabled
            &&& !reasoning ==> r.reasoning_effort.is_none() && !r.thinking_enabled
            &&& r.model == model && r.messages == messages
            &&& r.with_tools == with_tools && r.stream == stream
        }),
{
}

} // verus!
