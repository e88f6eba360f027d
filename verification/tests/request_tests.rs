use bongo_chat::config::ChatConfig;
use bongo_chat::history::ChatMessage;
use bongo_chat::request::{
    after_probe, build_body, completions_url, messages_to_values, probe_request,
    tool_reply, tool_round_request, ProbeReply, RequestMessage, ToolCall, TurnStep,
};

fn chat(role: &str, content: &str) -> ChatMessage {
    ChatMessage { role: role.to_string(), content: content.to_string(), timestamp: 7 }
}

fn is_chat(m: &RequestMessage, role: &str, content: &str) -> bool {
    match m {
        RequestMessage::Chat { role: r, content: c } => r == role && c == content,
        _ => false,
    }
}

#[test]
fn completions_url_needs_key_and_trims_slashes() {
    let mut config = ChatConfig::default();
    assert_eq!(completions_url(&config), Err("未配置 API Key，请先在设置中填写".to_string()));

    config.api_key = " sk ".to_string();
    config.base_url = "https://api.example.com//".to_string();
    assert_eq!(
        completions_url(&config),
        Ok("https://api.example.com/chat/completions".to_string())
    );

    config.base_url = "https://api.deepseek.com".to_string();
    assert_eq!(
        completions_url(&config),
        Ok("https://api.deepseek.com/chat/completions".to_string())
    );
}

#[test]
fn messages_to_values_keeps_role_and_content() {
    let values = messages_to_values(&[chat("system", "s"), chat("user", "u")]);

    assert_eq!(values.len(), 2);
    assert!(is_chat(&values[0], "system", "s"));
    assert!(is_chat(&values[1], "user", "u"));
}

#[test]
fn build_body_reasoning_fields() {
    let mut config = ChatConfig::default();
    config.model = "m".to_string();

    let body = build_body(&config, Vec::new(), true, false);
    assert_eq!(body.model, "m");
    assert!(!body.stream);
    assert!(body.with_tools);
    assert_eq!(body.reasoning_effort.as_deref(), Some("high"));
    assert!(body.thinking_enabled);

    config.reasoning = false;
    let body = build_body(&config, Vec::new(), false, true);
    assert!(body.stream);
    assert!(!body.with_tools);
    assert!(body.reasoning_effort.is_none());
    assert!(!body.thinking_enabled);
}

#[test]
fn probe_then_stream_without_tool_calls() {
    let config = ChatConfig::default();
    let base = messages_to_values(&[chat("user", "hi")]);

    let probe = probe_request(&config, &base);
    assert!(!probe.stream);
    assert!(probe.with_tools);
    assert_eq!(probe.messages.len(), 1);

    let step = after_probe(
        &config,
        &base,
        ProbeReply { message_json: "{}".to_string(), tool_calls: None },
    );
    match step {
        TurnStep::Stream(r) => {
            assert!(r.stream);
            assert!(r.with_tools);
            assert_eq!(r.messages.len(), 1);
            assert!(is_chat(&r.messages[0], "user", "hi"));
        }
        TurnStep::RunTools(_) => panic!("no tools were asked for"),
    }
}

#[test]
fn tool_calls_lead_to_second_round() {
    let config = ChatConfig::default();
    let base = messages_to_values(&[chat("user", "weather?")]);
    let call = ToolCall {
        id: "call-1".to_string(),
        name: "query_weather".to_string(),
        arguments: Some("{}".to_string()),
    };

    let step = after_probe(
        &config,
        &base,
        ProbeReply { message_json: "{\"role\":\"assistant\"}".to_string(), tool_calls: Some(vec![call]) },
    );
    let calls = match step {
        TurnStep::RunTools(c) => c,
        TurnStep::Stream(_) => panic!("tools were asked for"),
    };
    assert_eq!(calls.len(), 1);
    assert_eq!(calls[0].id, "call-1");

    let results = vec![
        ("call-1".to_string(), Ok("sunny".to_string())),
        ("call-2".to_string(), Err("no key".to_string())),
    ];
    let r = tool_round_request(&config, base, "{\"role\":\"assistant\"}".to_string(), &results);

    assert!(r.stream);
    assert!(!r.with_tools);
    assert_eq!(r.messages.len(), 4);
    assert!(is_chat(&r.messages[0], "user", "weather?"));
    match &r.messages[1] {
        RequestMessage::Verbatim(j) => assert_eq!(j, "{\"role\":\"assistant\"}"),
        _ => panic!("model message expected"),
    }
    match &r.messages[3] {
        RequestMessage::Tool { tool_call_id, content } => {
            assert_eq!(tool_call_id, "call-2");
            assert_eq!(content, "工具执行失败: no key");
        }
        _ => panic!("tool message expected"),
    }
}

#[test]
fn tool_reply_texts() {
    assert_eq!(tool_reply(Ok("out".to_string())), "out");
    assert_eq!(tool_reply(Err("bad".to_string())), "工具执行失败: bad");
}
