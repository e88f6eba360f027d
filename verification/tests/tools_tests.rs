use bongo_chat::config::ChatConfig;
use bongo_chat::tools::{
    default_location, plan_tool, plan_tool_call, tool_arguments, tool_output, tool_specs,
    ToolArguments,
    ToolCommand,
};

fn config_with(province: &str, city: &str, key: &str) -> ChatConfig {
    let mut config = ChatConfig::default();
    config.weather_province = province.to_string();
    config.weather_city = city.to_string();
    config.weather_api_key = key.to_string();
    config
}

fn no_arguments() -> ToolArguments {
    tool_arguments(None)
}

fn expect_command(r: Result<ToolCommand, String>) -> ToolCommand {
    match r {
        Ok(c) => c,
        Err(e) => panic!("unexpected error: {e}"),
    }
}

fn expect_error(r: Result<ToolCommand, String>) -> String {
    match r {
        Ok(c) => panic!("unexpected command: {}", c.exe),
        Err(e) => e,
    }
}

#[test]
fn default_location_combinations() {
    assert_eq!(default_location(&config_with("", "", "")), "");
    assert_eq!(default_location(&config_with(" 陕西省 ", " 西安市 ", "")), "陕西省 西安市");
    assert_eq!(default_location(&config_with("陕西省", "  ", "")), "陕西省");
    assert_eq!(default_location(&config_with("", "西安市", "")), "西安市");
}

#[test]
fn tool_arguments_reads_members_by_type() {
    let a = tool_arguments(Some(
        r#"{"city":"西安","date":"2026-08-18","from_station":"北京","to_station":"上海","cancel":true,"minutes":5,"limit":3}"#,
    ));

    assert_eq!(a.city.as_deref(), Some("西安"));
    assert_eq!(a.date.as_deref(), Some("2026-08-18"));
    assert_eq!(a.from_station.as_deref(), Some("北京"));
    assert_eq!(a.to_station.as_deref(), Some("上海"));
    assert_eq!(a.cancel, Some(true));
    assert_eq!(a.minutes, Some(5));
    assert_eq!(a.limit, Some(3));

    let wrong = tool_arguments(Some(r#"{"city":1,"cancel":"yes","minutes":1.5,"limit":"3"}"#));
    assert!(wrong.city.is_none());
    assert!(wrong.cancel.is_none());
    assert!(wrong.minutes.is_none());
    assert!(wrong.limit.is_none());

    let invalid = tool_arguments(Some("not json"));
    assert!(invalid.city.is_none());
    assert!(invalid.limit.is_none());
}

#[test]
fn weather_needs_api_key() {
    let e = expect_error(plan_tool("query_weather", &no_arguments(), &config_with("陕西省", "西安市", "  ")));

    assert!(e.starts_with("天气查询失败：尚未配置和风天气 API Key"));
}

#[test]
fn weather_uses_given_city_and_key() {
    let args = tool_arguments(Some(r#"{"city":"  北京 "}"#));
    let c = expect_command(plan_tool("query_weather", &args, &config_with("陕西省", "西安市", " qw-1 ")));

    assert_eq!(c.exe, "weather_tool");
    assert_eq!(c.args, vec!["北京".to_string()]);
    assert_eq!(c.envs, vec![("X-QW-Api-Key".to_string(), "qw-1".to_string())]);
    assert!(!c.ticket_cache);
}

#[test]
fn weather_falls_back_to_default_location() {
    let args = tool_arguments(Some(r#"{"city":"  "}"#));
    let c = expect_command(plan_tool("query_weather", &args, &config_with("陕西省", "西安市", "k")));

    assert_eq!(c.args, vec!["陕西省 西安市".to_string()]);
}

#[test]
fn weather_without_any_city_fails() {
    let e = expect_error(plan_tool("query_weather", &no_arguments(), &config_with("", "", "k")));

    assert_eq!(
        e,
        "天气查询失败：未提供城市且尚未设置默认省市。请提醒用户在聊天设置中填写省份和城市。"
    );
}

#[test]
fn ticket_command_line() {
    let args = tool_arguments(Some(
        r#"{"date":"2026-08-18","from_station":"北京","to_station":"上海"}"#,
    ));
    let c = expect_command(plan_tool("query_ticket", &args, &ChatConfig::default()));

    assert_eq!(c.exe, "ticket_tool");
    assert_eq!(
        c.args,
        vec![
            "get-tickets", "--date", "2026-08-18", "--from_station", "北京", "--to_station", "上海",
            "--format", "text",
        ]
        .into_iter()
        .map(|s| s.to_string())
        .collect::<Vec<_>>()
    );
    assert!(c.envs.is_empty());
    assert!(c.ticket_cache);
}

#[test]
fn ticket_missing_arguments_in_order() {
    let config = ChatConfig::default();

    assert_eq!(expect_error(plan_tool("query_ticket", &no_arguments(), &config)), "缺少出发日期参数");
    let only_date = tool_arguments(Some(r#"{"date":"d"}"#));
    assert_eq!(expect_error(plan_tool("query_ticket", &only_date, &config)), "缺少出发站参数");
    let no_to = tool_arguments(Some(r#"{"date":"d","from_station":"f"}"#));
    assert_eq!(expect_error(plan_tool("query_ticket", &no_to, &config)), "缺少到达站参数");
}

#[test]
fn shutdown_commands() {
    let config = ChatConfig::default();

    let cancel = tool_arguments(Some(r#"{"cancel":true,"minutes":3}"#));
    let c = expect_command(plan_tool("schedule_shutdown", &cancel, &config));
    assert_eq!(c.exe, "shutdown_tool");
    assert_eq!(c.args, vec!["cancel".to_string()]);

    let delay = tool_arguments(Some(r#"{"cancel":false,"minutes":30}"#));
    let c = expect_command(plan_tool("schedule_shutdown", &delay, &config));
    assert_eq!(c.args, vec!["1800".to_string()]);

    let negative = tool_arguments(Some(r#"{"minutes":-2}"#));
    let c = expect_command(plan_tool("schedule_shutdown", &negative, &config));
    assert_eq!(c.args, vec!["-120".to_string()]);

    assert_eq!(
        expect_error(plan_tool("schedule_shutdown", &no_arguments(), &config)),
        "缺少关机延迟分钟数参数"
    );
}

#[test]
fn shutdown_delay_overflow_is_reported() {
    let config = ChatConfig::default();
    let huge = format!("{{\"minutes\":{}}}", i64::MAX / 60 + 1);

    assert!(plan_tool_call("schedule_shutdown", Some(&huge), &config).is_none());
    assert!(plan_tool_call("query_weibo_hotsearch", Some(&huge), &config).is_some());

    let fits = format!("{{\"minutes\":{}}}", i64::MAX / 60);
    let c = expect_command(plan_tool_call("schedule_shutdown", Some(&fits), &config).unwrap());
    assert_eq!(c.args, vec![((i64::MAX / 60) * 60).to_string()]);
}

#[test]
fn weibo_limit_defaults_and_minimum() {
    let config = ChatConfig::default();

    let c = expect_command(plan_tool("query_weibo_hotsearch", &no_arguments(), &config));
    assert_eq!(c.exe, "weibo_hotsearch");
    assert_eq!(
        c.args,
        vec!["--limit".to_string(), "10".to_string(), "--format".to_string(), "text".to_string()]
    );

    let zero = tool_arguments(Some(r#"{"limit":0}"#));
    let c = expect_command(plan_tool("query_weibo_hotsearch", &zero, &config));
    assert_eq!(c.args[1], "1");

    let many = tool_arguments(Some(r#"{"limit":25}"#));
    let c = expect_command(plan_tool("query_weibo_hotsearch", &many, &config));
    assert_eq!(c.args[1], "25");
}

#[test]
fn unknown_tool() {
    let e = expect_error(plan_tool("launch_rocket", &no_arguments(), &ChatConfig::default()));

    assert_eq!(e, "未知工具: launch_rocket");
}

#[test]
fn tool_output_success_and_failure() {
    assert_eq!(tool_output("weather_tool", true, b"  sunny \n", b"ignored"), Ok("sunny".to_string()));
    assert_eq!(
        tool_output("weather_tool", false, b"out", b"  boom\n"),
        Err("boom".to_string())
    );
    assert_eq!(
        tool_output("weather_tool", false, b"out", b" \n "),
        Err("weather_tool 执行失败".to_string())
    );
    assert_eq!(
        tool_output("t", true, &[0x61, 0xFF, 0x62], b""),
        Ok("a\u{FFFD}b".to_string())
    );
}

#[test]
fn tool_specs_list_the_four_tools() {
    let specs = tool_specs();
    let names: Vec<&str> = specs.iter().map(|t| t.name.as_str()).collect();
    assert_eq!(names, vec!["query_weather", "query_ticket", "schedule_shutdown", "query_weibo_hotsearch"]);

    assert!(specs[0].required.is_empty());
    assert_eq!(specs[0].parameters.len(), 1);
    assert_eq!(specs[0].parameters[0].name, "city");
    assert_eq!(specs[0].parameters[0].kind, "string");
    assert_eq!(specs[1].required, vec!["date", "from_station", "to_station"]);
    assert_eq!(specs[1].description, "查询 12306 火车直达余票信息");
    assert_eq!(specs[2].parameters[0].kind, "integer");
    assert_eq!(specs[2].parameters[1].kind, "boolean");
    assert_eq!(specs[3].parameters[0].description, "返回条数，默认 10");
}

#[test]
fn advertised_tools_are_dispatched_and_others_are_unknown() {
    let config = ChatConfig::default();

    for spec in tool_specs() {
        let plan = plan_tool_call(&spec.name, None, &config).unwrap();
        assert_ne!(plan.err(), Some(format!("未知工具: {}", spec.name)));
    }

    let plan = plan_tool_call("launch", None, &config).unwrap();
    assert_eq!(plan.err(), Some("未知工具: launch".to_string()));
}
