use bongo_chat::config::{parse_env, serialize_env, ChatConfig};

#[test]
fn parse_env_should_read_all_keys() {
    let config = parse_env(
        "# 注释\nLLM_API_KEY=sk-test-123\nLLM_BASE_URL=https://api.example.com\nLLM_MODEL=gpt-4o\nLLM_REASONING=true\n",
    );

    assert_eq!(config.api_key, "sk-test-123");
    assert_eq!(config.base_url, "https://api.example.com");
    assert_eq!(config.model, "gpt-4o");
    assert!(config.reasoning);
}

#[test]
fn parse_env_should_handle_quotes_and_missing_keys() {
    let config = parse_env("LLM_API_KEY=\"sk-quoted\"\n");

    assert_eq!(config.api_key, "sk-quoted");
    assert_eq!(config.base_url, ChatConfig::default().base_url);
    assert!(config.reasoning);
}

#[test]
fn parse_env_should_parse_reasoning_false() {
    let config = parse_env("LLM_REASONING=false\n");

    assert!(!config.reasoning);
}

#[test]
fn serialize_parse_round_trip() {
    let config = ChatConfig {
        api_key: "sk-abc".to_string(),
        base_url: "https://api.deepseek.com".to_string(),
        model: "deepseek-chat".to_string(),
        reasoning: false,
        user_avatar_path: None,
        weather_province: "广东".to_string(),
        weather_city: "深圳".to_string(),
        weather_api_key: "qw-test-456".to_string(),
    };

    let parsed = parse_env(&serialize_env(&config));

    assert_eq!(parsed.api_key, config.api_key);
    assert_eq!(parsed.base_url, config.base_url);
    assert_eq!(parsed.model, config.model);
    assert_eq!(parsed.reasoning, config.reasoning);
    assert_eq!(parsed.user_avatar_path, config.user_avatar_path);
    assert_eq!(parsed.weather_province, config.weather_province);
    assert_eq!(parsed.weather_city, config.weather_city);
    assert_eq!(parsed.weather_api_key, config.weather_api_key);
}

#[test]
fn parse_env_should_read_weather_keys() {
    let config = parse_env(
        "WEATHER_PROVINCE=陕西省\nWEATHER_CITY=西安市\nQWEATHER_API_KEY=qw-123\n",
    );

    assert_eq!(config.weather_province, "陕西省");
    assert_eq!(config.weather_city, "西安市");
    assert_eq!(config.weather_api_key, "qw-123");
}

#[test]
fn parse_env_should_fallback_to_legacy_qweather_key() {
    let config = parse_env("X-QW-Api-Key=legacy-key\n");

    assert_eq!(config.weather_api_key, "legacy-key");
}

#[test]
fn parse_env_should_default_empty_weather_keys() {
    let config = parse_env("LLM_MODEL=deepseek-chat\n");

    assert_eq!(config.weather_province, "");
    assert_eq!(config.weather_city, "");
    assert_eq!(config.weather_api_key, "");
}

#[test]
fn parse_env_should_read_avatar_path() {
    let config = parse_env("CHAT_USER_AVATAR=chat/avatar/user-avatar.png\n");

    assert_eq!(
        config.user_avatar_path.as_deref(),
        Some("chat/avatar/user-avatar.png")
    );
}

#[test]
fn parse_env_should_default_empty_avatar_path() {
    let config = parse_env("CHAT_USER_AVATAR=\n");

    assert!(config.user_avatar_path.is_none());
}

#[test]
fn default_config_values() {
    let config = ChatConfig::default();

    assert_eq!(config.api_key, "");
    assert_eq!(config.base_url, "https://api.deepseek.com");
    assert_eq!(config.model, "deepseek-v4-pro");
    assert!(config.reasoning);
    assert!(config.user_avatar_path.is_none());
    assert_eq!(config.weather_province, "");
    assert_eq!(config.weather_city, "");
    assert_eq!(config.weather_api_key, "");
}

#[test]
fn parse_env_empty_text_gives_defaults() {
    let config = parse_env("");
    let default = ChatConfig::default();

    assert_eq!(config.api_key, default.api_key);
    assert_eq!(config.base_url, default.base_url);
    assert_eq!(config.model, default.model);
    assert_eq!(config.reasoning, default.reasoning);
}

#[test]
fn parse_env_trims_and_strips_quotes() {
    let config = parse_env("  LLM_MODEL =  'gpt-x'  \r\nLLM_BASE_URL=\"'https://h'\"\n");

    assert_eq!(config.model, "gpt-x");
    assert_eq!(config.base_url, "https://h");
}

#[test]
fn parse_env_skips_comments_blank_lines_and_lines_without_equals() {
    let config = parse_env("\n   \n# LLM_MODEL=commented\nLLM_MODEL\nUNKNOWN=1\nLLM_MODEL=m\n");

    assert_eq!(config.model, "m");
}

#[test]
fn parse_env_splits_at_first_equals_and_last_entry_wins() {
    let config = parse_env("LLM_API_KEY=a=b\nLLM_API_KEY=c=d\n");

    assert_eq!(config.api_key, "c=d");
}

#[test]
fn parse_env_reasoning_accepts_one_only_otherwise_false() {
    assert!(parse_env("LLM_REASONING=1").reasoning);
    assert!(!parse_env("LLM_REASONING=yes").reasoning);
    assert!(!parse_env("LLM_REASONING=TRUE").reasoning);
}

#[test]
fn parse_env_reads_last_line_without_newline() {
    let config = parse_env("LLM_MODEL=x\nWEATHER_CITY=y");

    assert_eq!(config.model, "x");
    assert_eq!(config.weather_city, "y");
}

#[test]
fn serialize_env_exact_text() {
    let config = ChatConfig {
        api_key: "k".to_string(),
        base_url: "u".to_string(),
        model: "m".to_string(),
        reasoning: true,
        user_avatar_path: Some("chat/avatar/user-avatar.png".to_string()),
        weather_province: "p".to_string(),
        weather_city: "c".to_string(),
        weather_api_key: "w".to_string(),
    };

    assert_eq!(
        serialize_env(&config),
        "# BongoCat LLM 配置\n# 可在设置界面或直接修改本文件后保存，重新打开聊天窗口生效。\nLLM_API_KEY=k\nLLM_BASE_URL=u\nLLM_MODEL=m\nLLM_REASONING=true\nCHAT_USER_AVATAR=chat/avatar/user-avatar.png\nWEATHER_PROVINCE=p\nWEATHER_CITY=c\nQWEATHER_API_KEY=w\n"
    );
}

#[test]
fn serialize_parse_round_trip_with_avatar() {
    let mut config = ChatConfig::default();
    config.user_avatar_path = Some("chat/avatar/user-avatar.webp".to_string());
    config.reasoning = true;

    let parsed = parse_env(&serialize_env(&config));

    assert_eq!(parsed.user_avatar_path, config.user_avatar_path);
    assert!(parsed.reasoning);
    assert_eq!(parsed.model, config.model);
}
