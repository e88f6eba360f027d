use bongo_chat::commands::{
    brief_messages, brief_succeeded, briefed_on, chat_window_position,
    now_timestamp, placement_fits, require_api_key, system_prompt,
    timestamp_of, user_message_text, CHAT_WINDOW_LABEL, DAILY_BRIEF_FILE, DAILY_BRIEF_TRIGGER,
};
use bongo_chat::config::ChatConfig;
use bongo_chat::tools::plan_tool_call;

#[test]
fn labels() {
    assert_eq!(CHAT_WINDOW_LABEL, "chat");
    assert_eq!(DAILY_BRIEF_FILE, "daily-brief-date");
    assert!(DAILY_BRIEF_TRIGGER.starts_with("现在为你做一次每日定时播报"));
}

#[test]
fn system_prompt_without_region() {
    let p = system_prompt(&ChatConfig::default(), "2026-08-18");

    assert_eq!(
        p,
        "你是 BongoCat 桌面宠物里的 AI 助手。请用简洁、友好、口语化的中文回答用户的问题。\n当前日期是 2026-08-18（北京时间）。当用户提到相对日期（今天、明天、后天、下周等）时，请据此推算具体日期。"
    );
}

#[test]
fn system_prompt_with_region() {
    let mut config = ChatConfig::default();
    config.weather_province = " 陕西省".to_string();
    config.weather_city = "西安市 ".to_string();

    let p = system_prompt(&config, "2026-08-18");
    assert!(p.ends_with(
        "\n用户的默认省市是 陕西省 西安市。当用户询问天气但没有指明城市时，请调用天气工具并省略 city 参数，默认查询该地区。"
    ));

    config.weather_province = String::new();
    let p = system_prompt(&config, "2026-08-18");
    assert!(p.contains("用户的默认省市是 西安市。"));
}

#[test]
fn message_checks() {
    assert_eq!(user_message_text("  hi \n"), Ok("hi".to_string()));
    assert_eq!(user_message_text(" \t "), Err("消息不能为空".to_string()));

    let mut config = ChatConfig::default();
    assert_eq!(require_api_key(&config), Err("未配置 API Key，请先在设置中填写".to_string()));
    config.api_key = "sk".to_string();
    assert_eq!(require_api_key(&config), Ok(()));
}

#[test]
fn brief_marker_and_result() {
    assert!(briefed_on(Some("2026-08-18\n"), "2026-08-18"));
    assert!(!briefed_on(Some("2026-08-17"), "2026-08-18"));
    assert!(!briefed_on(None, "2026-08-18"));

    assert!(brief_succeeded(&Ok("天气晴".to_string())));
    assert!(!brief_succeeded(&Ok("  \n".to_string())));
    assert!(!brief_succeeded(&Err("fail".to_string())));
}

#[test]
fn brief_request_messages() {
    let m = brief_messages("sys".to_string(), 42);

    assert_eq!(m.len(), 2);
    assert_eq!(m[0].role, "system");
    assert_eq!(m[0].content, "sys");
    assert_eq!(m[0].timestamp, 0);
    assert_eq!(m[1].role, "user");
    assert_eq!(m[1].content, DAILY_BRIEF_TRIGGER);
    assert_eq!(m[1].timestamp, 42);
}

#[test]
fn window_goes_right_of_main_window() {
    assert!(placement_fits(100, 200, 0, 0, 1920, 1080, 380, 560));
    assert_eq!(chat_window_position(100, 50, 200, 0, 0, 1920, 1080, 380, 560), (316, 50));
}

#[test]
fn window_flips_left_when_no_room() {
    assert_eq!(
        chat_window_position(1600, 50, 200, 0, 0, 1920, 1080, 380, 560),
        (1600 - 380 - 16, 50)
    );
}

#[test]
fn window_is_clamped_inside_monitor() {
    assert_eq!(chat_window_position(-50, -40, 10, 0, 0, 1920, 1080, 380, 560), (8, 8));
    assert_eq!(chat_window_position(100, 900, 200, 0, 0, 1920, 1080, 380, 560), (316, 1080 - 560 - 8));
    assert_eq!(chat_window_position(100, 50, 200, 0, 0, 1920, 1080, 0, 0), (316, 50));
    assert_eq!(chat_window_position(10, 10, 10, 0, 0, 200, 200, 380, 560), (8, 8));
}

#[test]
fn placement_overflow_is_detected() {
    assert!(!placement_fits(i32::MAX - 10, 200, 0, 0, 1920, 1080, 380, 560));
}

#[test]
fn timestamps() {
    assert_eq!(timestamp_of(Some(1_700_000_000)), 1_700_000_000);
    assert_eq!(timestamp_of(None), 0);
    assert!(now_timestamp() > 1_600_000_000);
}

#[test]
fn prompt_region_is_weather_default() {
    let mut config = ChatConfig::default();
    config.weather_api_key = "qw-key".to_string();
    config.weather_province = "广东".to_string();
    config.weather_city = " 深圳".to_string();

    let p = system_prompt(&config, "2026-08-18");
    assert!(p.contains("用户的默认省市是 广东 深圳。"));

    let plan = plan_tool_call("query_weather", Some("{\"city\": \"  \"}"), &config)
        .unwrap()
        .unwrap();
    assert_eq!(plan.exe, "weather_tool");
    assert_eq!(plan.args, vec!["广东 深圳".to_string()]);

    config.weather_province = String::new();
    config.weather_city = String::new();
    let p = system_prompt(&config, "2026-08-18");
    assert!(!p.contains("用户的默认省市"));
    assert!(plan_tool_call("query_weather", None, &config).unwrap().is_err());
}
