//! The tools the model may call: reading their arguments, deciding the
//! program to run and its command line, and reading what it printed.
use vstd::prelude::*;

use crate::config::{ChatConfig, ConfigView};
use crate::text::{
    concat_str, decimal, decimal_string, opt_view, strings_view, trim, trim_str,
    utf8_lossy, utf8_lossy_string,
};

verus! {

/// A member of a JSON object, as the tools read it.
pub enum JsonScalar {
    Str(String),
    Int(i64),
    Bool(bool),
    /// Any other value (a float, an integer outside `i64`, null, an array
    /// or an object).
    Other,
}

pub enum JsonScalarView {
    Str(Seq<char>),
    Int(i64),
    Bool(bool),
    Other,
}

impl View for JsonScalar {
    type V = JsonScalarView;

    open spec fn view(&self) -> JsonScalarView {
        match self {
            JsonScalar::Str(s) => JsonScalarView::Str(s@),
            JsonScalar::Int(i) => JsonScalarView::Int(*i),
            JsonScalar::Bool(b) => JsonScalarView::Bool(*b),
            JsonScalar::Other => JsonScalarView::Other,
        }
    }
}

pub open spec fn opt_scalar_view(o: Option<JsonScalar>) -> Option<JsonScalarView> {
    match o {
        Some(m) => Some(m@),
        None => None,
    }
}

/// What `serde_json` finds under `key` when it parses the text `json` as a
/// value: `None` when the text does not parse, is not an object or lacks
/// the key.
pub uninterp spec fn json_member(json: Seq<char>, key: Seq<char>) -> Option<JsonScalarView>;

/// `serde_json::from_str::<serde_json::Value>(json)`, then `Value::get(key)`,
/// with the member converted variant by variant (a number by
/// `Number::as_i64`). The result is named, not described.
#[verifier::external_body]
fn json_member_of(json: &str, key: &str) -> (r: Option<JsonScalar>)
    ensures
        opt_scalar_view(r) == json_member(json@, key@),
{
    let value: serde_json::Value = match serde_json::from_str(json) {
        Ok(v) => v,
        Err(_) => return None,
    };
    match value.get(key) {
        None => None,
        Some(serde_json::Value::String(s)) => Some(JsonScalar::Str(s.clone())),
        Some(serde_json::Value::Bool(b)) => Some(JsonScalar::Bool(*b)),
        Some(serde_json::Value::Number(n)) => match n.as_i64() {
            Some(i) => Some(JsonScalar::Int(i)),
            None => Some(JsonScalar::Other),
        },
        Some(_) => Some(JsonScalar::Other),
    }
}

/// The arguments of a tool call that the tools read.
pub struct ToolArguments {
    pub city: Option<String>,
    pub date: Option<String>,
    pub from_station: Option<String>,
    pub to_station: Option<String>,
    pub cancel: Option<bool>,
    pub minutes: Option<i64>,
    pub limit: Option<i64>,
}

pub struct ArgumentsView {
    pub city: Option<Seq<char>>,
    pub date: Option<Seq<char>>,
    pub from_station: Option<Seq<char>>,
    pub to_station: Option<Seq<char>>,
    pub cancel: Option<bool>,
    pub minutes: Option<i64>,
    pub limit: Option<i64>,
}

impl View for ToolArguments {
    type V = ArgumentsView;

    open spec fn view(&self) -> ArgumentsView {
        ArgumentsView {
            city: opt_view(self.city),
            date: opt_view(self.date),
            from_station: opt_view(self.from_station),
            to_station: opt_view(self.to_station),
            cancel: self.cancel,
            minutes: self.minutes,
            limit: self.limit,
        }
    }
}

pub open spec fn member_str(m: Option<JsonScalarView>) -> Option<Seq<char>> {
    match m {
        Some(JsonScalarView::Str(s)) => Some(s),
        _ => None,
    }
}

pub open spec fn member_int(m: Option<JsonScalarView>) -> Option<i64> {
    match m {
        Some(JsonScalarView::Int(i)) => Some(i),
        _ => None,
    }
}

pub open spec fn member_bool(m: Option<JsonScalarView>) -> Option<bool> {
    match m {
        Some(JsonScalarView::Bool(b)) => Some(b),
        _ => None,
    }
}

/// The arguments read from the JSON text of a tool call (absent text, or
/// text that is not a JSON object, gives no argument at all).
pub open spec fn tool_arguments_spec(raw: Option<Seq<char>>) -> ArgumentsView {
    match raw {
        None => ArgumentsView {
            city: None,
            date: None,
            from_station: None,
            to_station: None,
            cancel: None,
            minutes: None,
            limit: None,
        },
        Some(j) => ArgumentsView {
            city: member_str(json_member(j, "city"@)),
            date: member_str(json_member(j, "date"@)),
            from_station: member_str(json_member(j, "from_station"@)),
            to_station: member_str(json_member(j, "to_station"@)),
            cancel: member_bool(json_member(j, "cancel"@)),
            minutes: member_int(json_member(j, "minutes"@)),
            limit: member_int(json_member(j, "limit"@)),
        },
    }
}

fn str_member(json: &str, key: &str) -> (r: Option<String>)
    ensures
        opt_view(r) == member_str(json_member(json@, key@)),
{
    match json_member_of(json, key) {
        Some(JsonScalar::Str(s)) => Some(s),
        _ => None,
    }
}

fn int_member(json: &str, key: &str) -> (r: Option<i64>)
    ensures
        r == member_int(json_member(json@, key@)),
{
    match json_member_of(json, key) {
        Some(JsonScalar::Int(i)) => Some(i),
        _ => None,
    }
}

fn bool_member(json: &str, key: &str) -> (r: Option<bool>)
    ensures
        r == member_bool(json_member(json@, key@)),
{
    match json_member_of(json, key) {
        Some(JsonScalar::Bool(b)) => Some(b),
        _ => None,
    }
}

/// Reads the arguments of a tool call from its JSON text.
pub fn tool_arguments(raw: Option<&str>) -> (a: ToolArguments)
    ensures
        a@ == tool_arguments_spec(match raw {
            Some(r) => Some(r@),
            None => None,
        }),
{
    match raw {
        None => ToolArguments {
            city: None,
            date: None,
            from_station: None,
            to_station: None,
            cancel: None,
            minutes: None,
            limit: None,
        },
        Some(j) => ToolArguments {
            city: str_member(j, "city"),
            date: str_member(j, "date"),
            from_station: str_member(j, "from_station"),
            to_station: str_member(j, "to_station"),
            cancel: bool_member(j, "cancel"),
            minutes: int_member(j, "minutes"),
            limit: int_member(j, "limit"),
        },
    }
}

/// The default place of weather queries: the trimmed province and city,
/// separated by a space when both are set, else whichever is set.
pub open spec fn default_location_spec(c: ConfigView) -> Seq<char> {
    let p = trim(c.weather_province);
    let city = trim(c.weather_city);
    if p.len() == 0 && city.len() == 0 {
        Seq::empty()
    } else if p.len() > 0 && city.len() > 0 {
        p + seq![' '] + city
    } else {
        p + city
    }
}

/// The default place of weather queries, from the configured province
/// and city (empty when neither is set).
pub fn default_location(config: &ChatConfig) -> (s: String)
    ensures
        s@ == default_location_spec(config@),
{
    let p = trim_str(config.weather_province.as_str());
    let c = trim_str(config.weather_city.as_str());
    let pe = p.as_str().is_empty();
    let ce = c.as_str().is_empty();
    if pe && ce {
        String::new()
    } else if !pe && !ce {
        let mut s = concat_str(p.as_str(), " ");
        s.append(c.as_str());
        proof {
            reveal_strlit(" ");
        }
        assert(s@ =~= p@ + seq![' '] + c@);
        s
    } else {
        concat_str(p.as_str(), c.as_str())
    }
}

/// A program to run for a tool call.
pub struct ToolCommand {
    /// Name of the executable in the tools directory.
    pub exe: String,
    pub args: Vec<String>,
    /// Environment variables to set, besides `PYTHONIOENCODING=utf-8`.
    pub envs: Vec<(String, String)>,
    /// Whether `BONGO_CACHE_DIR` must name the directory that holds the
    /// station table (which the caller prepares).
    pub ticket_cache: bool,
}

pub struct CommandView {
    pub exe: Seq<char>,
    pub args: Seq<Seq<char>>,
    pub envs: Seq<(Seq<char>, Seq<char>)>,
    pub ticket_cache: bool,
}

impl View for ToolCommand {
    type V = CommandView;

    open spec fn view(&self) -> CommandView {
        CommandView {
            exe: self.exe@,
            args: strings_view(self.args@),
            envs: self.envs@.map_values(|e: (String, String)| (e.0@, e.1@)),
            ticket_cache: self.ticket_cache,
        }
    }
}

pub open spec fn command_view_result(r: Result<ToolCommand, String>) -> Result<
    CommandView,
    Seq<char>,
> {
    match r {
        Ok(c) => Ok(c@),
        Err(e) => Err(e@),
    }
}

/// Whether the shutdown delay of a call, in seconds, fits an `i64`
/// (the only call whose planning computes with a number).
pub open spec fn shutdown_delay_fits(name: Seq<char>, a: ArgumentsView) -> bool {
    name == "schedule_shutdown"@ && !(match a.cancel {
        Some(b) => b,
        None => false,
    }) ==> match a.minutes {
        Some(m) => i64::MIN <= m * 60 <= i64::MAX,
        None => true,
    }
}

pub open spec fn command(exe: Seq<char>, args: Seq<Seq<char>>, envs: Seq<(Seq<char>, Seq<char>)>, ticket_cache: bool) -> CommandView {
    CommandView { exe, args, envs, ticket_cache }
}

/// The program that a tool call runs, or why it cannot run.
pub open spec fn plan_tool_spec(name: Seq<char>, a: ArgumentsView, c: ConfigView) -> Result<
    CommandView,
    Seq<char>,
> {
    if name == "query_weather"@ {
        let key = trim(c.weather_api_key);
        if key.len() == 0 {
            Err(
                "天气查询失败：尚未配置和风天气 API Key。请直接提醒用户到聊天设置中填写“和风天气 API Key”，不要编造天气数据。"@,
            )
        } else {
            let given = match a.city {
                Some(s) => trim(s),
                None => Seq::empty(),
            };
            let city = if given.len() == 0 {
                default_location_spec(c)
            } else {
                given
            };
            if city.len() == 0 {
                Err(
                    "天气查询失败：未提供城市且尚未设置默认省市。请提醒用户在聊天设置中填写省份和城市。"@,
                )
            } else {
                Ok(command("weather_tool"@, seq![city], seq![("X-QW-Api-Key"@, key)], false))
            }
        }
    } else if name == "query_ticket"@ {
        match a.date {
            None => Err("缺少出发日期参数"@),
            Some(date) => match a.from_station {
                None => Err("缺少出发站参数"@),
                Some(from) => match a.to_station {
                    None => Err("缺少到达站参数"@),
                    Some(to) => Ok(
                        command(
                            "ticket_tool"@,
                            seq![
                                "get-tickets"@,
                                "--date"@,
                                date,
                                "--from_station"@,
                                from,
                                "--to_station"@,
                                to,
                                "--format"@,
                                "text"@,
                            ],
                            Seq::empty(),
                            true,
                        ),
                    ),
                },
            },
        }
    } else if name == "schedule_shutdown"@ {
        let cancel = match a.cancel {
            Some(b) => b,
            None => false,
        };
        if cancel {
            Ok(command("shutdown_tool"@, seq!["cancel"@], Seq::empty(), false))
        } else {
            match a.minutes {
                None => Err("缺少关机延迟分钟数参数"@),
                Some(m) => Ok(
                    command("shutdown_tool"@, seq![decimal(m * 60)], Seq::empty(), false),
                ),
            }
        }
    } else if name == "query_weibo_hotsearch"@ {
        let limit: int = match a.limit {
            Some(l) => if l < 1 {
                1
            } else {
                l as int
            },
            None => 10,
        };
        Ok(
            command(
                "weibo_hotsearch"@,
                seq!["--limit"@, decimal(limit), "--format"@, "text"@],
                Seq::empty(),
                false,
            ),
        )
    } else {
        Err("未知工具: "@ + name)
    }
}

fn string_vec1(a: &str) -> (v: Vec<String>)
    ensures
        strings_view(v@) == seq![a@],
{
    let mut v = Vec::new();
    v.push(String::from_str(a));
    assert(strings_view(v@) =~= seq![a@]);
    v
}

fn err_text(s: &str) -> (r: Result<ToolCommand, String>)
    ensures
        command_view_result(r) == Err::<CommandView, Seq<char>>(s@),
{
    Err(String::from_str(s))
}

/// Decides the program that a tool call runs: a known tool with the
/// arguments it needs gives its command line; a missing setting, a
/// missing argument or an unknown tool gives the message the model reads.
pub fn plan_tool(name: &str, args: &ToolArguments, config: &ChatConfig) -> (r: Result<
    ToolCommand,
    String,
>)
    requires
        shutdown_delay_fits(name@, args@),
    ensures
        command_view_result(r) == plan_tool_spec(name@, args@, config@),
{
    let n = String::from_str(name);
    if n == String::from_str("query_weather") {
        let key = trim_str(config.weather_api_key.as_str());
        if key.as_str().is_empty() {
            return err_text(
                "天气查询失败：尚未配置和风天气 API Key。请直接提醒用户到聊天设置中填写“和风天气 API Key”，不要编造天气数据。",
            );
        }
        let given = match &args.city {
            Some(s) => trim_str(s.as_str()),
            None => String::new(),
        };
        let city = if given.as_str().is_empty() {
            default_location(config)
        } else {
            given
        };
        if city.as_str().is_empty() {
            return err_text(
                "天气查询失败：未提供城市且尚未设置默认省市。请提醒用户在聊天设置中填写省份和城市。",
            );
        }
        let mut cmd_args = Vec::new();
        cmd_args.push(city);
        let mut envs = Vec::new();
        envs.push((String::from_str("X-QW-Api-Key"), key));
        let cmd = ToolCommand {
            exe: String::from_str("weather_tool"),
            args: cmd_args,
            envs,
            ticket_cache: false,
        };
        assert(cmd@.args =~= seq![cmd_args@[0]@]);
        assert(cmd@.envs =~= seq![("X-QW-Api-Key"@, key@)]);
        return Ok(cmd);
    }
    if n == String::from_str("query_ticket") {
        let date = match &args.date {
            Some(d) => d,
            None => {
                return err_text("缺少出发日期参数");
            },
        };
        let from = match &args.from_station {
            Some(f) => f,
            None => {
                return err_text("缺少出发站参数");
            },
        };
        let to = match &args.to_station {
            Some(t) => t,
            None => {
                return err_text("缺少到达站参数");
            },
        };
        let mut cmd_args: Vec<String> = Vec::new();
        cmd_args.push(String::from_str("get-tickets"));
        cmd_args.push(String::from_str("--date"));
        cmd_args.push(date.clone());
        cmd_args.push(String::from_str("--from_station"));
        cmd_args.push(from.clone());
        cmd_args.push(String::from_str("--to_station"));
        cmd_args.push(to.clone());
        cmd_args.push(String::from_str("--format"));
        cmd_args.push(String::from_str("text"));
        let cmd = ToolCommand {
            exe: String::from_str("ticket_tool"),
            args: cmd_args,
            envs: Vec::new(),
            ticket_cache: true,
        };
        assert(cmd@.args =~= seq![
            "get-tickets"@,
            "--date"@,
            date@,
            "--from_station"@,
            from@,
            "--to_station"@,
            to@,
            "--format"@,
            "text"@,
        ]);
        assert(cmd@.envs =~= Seq::<(Seq<char>, Seq<char>)>::empty());
        return Ok(cmd);
    }
    if n == String::from_str("schedule_shutdown") {
        let cancel = match args.cancel {
            Some(b) => b,
            None => false,
        };
        if cancel {
            let cmd = ToolCommand {
                exe: String::from_str("shutdown_tool"),
                args: string_vec1("cancel"),
                envs: Vec::new(),
                ticket_cache: false,
            };
            assert(cmd@.envs =~= Seq::<(Seq<char>, Seq<char>)>::empty());
            return Ok(cmd);
        }
        let minutes = match args.minutes {
            Some(m) => m,
            None => {
                return err_text("缺少关机延迟分钟数参数");
            },
        };
        let seconds = decimal_string(minutes * 60);
        let mut cmd_args = Vec::new();
        cmd_args.push(seconds);
        let cmd = ToolCommand {
            exe: String::from_str("shutdown_tool"),
            args: cmd_args,
            envs: Vec::new(),
            ticket_cache: false,
        };
        assert(cmd@.args =~= seq![decimal(minutes * 60)]);
        assert(cmd@.envs =~= Seq::<(Seq<char>, Seq<char>)>::empty());
        return Ok(cmd);
    }
    if n == String::from_str("query_weibo_hotsearch") {
        let limit: i64 = match args.limit {
            Some(l) => if l < 1 {
                1
            } else {
                l
            },
            None => 10,
        };
        let mut cmd_args: Vec<String> = Vec::new();
        cmd_args.push(String::from_str("--limit"));
        cmd_args.push(decimal_string(limit));
        cmd_args.push(String::from_str("--format"));
        cmd_args.push(String::from_str("text"));
        let cmd = ToolCommand {
            exe: String::from_str("weibo_hotsearch"),
            args: cmd_args,
            envs: Vec::new(),
            ticket_cache: false,
        };
        assert(cmd@.args =~= seq!["--limit"@, decimal(limit as int), "--format"@, "text"@]);
        assert(cmd@.envs =~= Seq::<(Seq<char>, Seq<char>)>::empty());
        return Ok(cmd);
    }
    Err(concat_str("未知工具: ", name))
}

/// Plans a tool call from its name and the JSON text of its arguments.
/// `None` when the call asks for a shutdown delay whose seconds overflow
/// an `i64`; otherwise the plan of `plan_tool`.
pub fn plan_tool_call(name: &str, raw_arguments: Option<&str>, config: &ChatConfig) -> (r: Option<
    Result<ToolCommand, String>,
>)
    ensures
        ({
            let a = tool_arguments_spec(
                match raw_arguments {
                    Some(s) => Some(s@),
                    None => None,
                },
            );
            match r {
                None => !shutdown_delay_fits(name@, a),
                Some(p) => shutdown_delay_fits(name@, a) && command_view_result(p)
                    == plan_tool_spec(name@, a, config@),
            }
        }),
{
    let args = tool_arguments(raw_arguments);
    let is_shutdown = String::from_str(name) == String::from_str("schedule_shutdown");
    let cancel = match args.cancel {
        Some(b) => b,
        None => false,
    };
    if is_shutdown && !cancel {
        match args.minutes {
            Some(m) => {
                if m < i64::MIN / 60 || m > i64::MAX / 60 {
                    return None;
                }
            },
            None => {},
        }
    }
    Some(plan_tool(name, &args, config))
}

/// What a finished tool reports: its trimmed output when it succeeded;
/// otherwise its trimmed error output, or `<exe> 执行失败` when that is
/// empty.
pub open spec fn tool_output_spec(exe: Seq<char>, success: bool, stdout: Seq<u8>, stderr: Seq<u8>) -> Result<
    Seq<char>,
    Seq<char>,
> {
    if success {
        Ok(trim(utf8_lossy(stdout)))
    } else {
        let e = trim(utf8_lossy(stderr));
        if e.len() == 0 {
            Err(exe + " 执行失败"@)
        } else {
            Err(e)
        }
    }
}

/// Reads what a finished tool printed.
pub fn tool_output(exe: &str, success: bool, stdout: &[u8], stderr: &[u8]) -> (r: Result<
    String,
    String,
>)
    ensures
        match r {
            Ok(s) => tool_output_spec(exe@, success, stdout@, stderr@) == Ok::<
                Seq<char>,
                Seq<char>,
            >(s@),
            Err(e) => tool_output_spec(exe@, success, stdout@, stderr@) == Err::<
                Seq<char>,
                Seq<char>,
            >(e@),
        },
{
    if success {
        let out = utf8_lossy_string(stdout);
        Ok(trim_str(out.as_str()))
    } else {
        let err = utf8_lossy_string(stderr);
        let e = trim_str(err.as_str());
        if e.as_str().is_empty() {
            Err(concat_str(exe, " 执行失败"))
        } else {
            Err(e)
        }
    }
}


/// A parameter of a tool, as the request advertises it.
pub struct ToolParam {
    pub name: String,
    /// Its JSON type (`string`, `integer` or `boolean`).
    pub kind: String,
    pub description: String,
}

#[verifier::ext_equal]
pub struct ParamView {
    pub name: Seq<char>,
    pub kind: Seq<char>,
    pub description: Seq<char>,
}

impl View for ToolParam {
    type V = ParamView;

    open spec fn view(&self) -> ParamView {
        ParamView { name: self.name@, kind: self.kind@, description: self.description@ }
    }
}

/// A tool as the request advertises it to the model (a function with an
/// object of parameters, some of them required).
pub struct ToolSpec {
    pub name: String,
    pub description: String,
    pub parameters: Vec<ToolParam>,
    pub required: Vec<String>,
}

#[verifier::ext_equal]
pub struct ToolSpecView {
    pub name: Seq<char>,
    pub description: Seq<char>,
    pub parameters: Seq<ParamView>,
    pub required: Seq<Seq<char>>,
}

impl View for ToolSpec {
    type V = ToolSpecView;

    open spec fn view(&self) -> ToolSpecView {
        ToolSpecView {
            name: self.name@,
            description: self.description@,
            parameters: self.parameters@.map_values(|p: ToolParam| p@),
            required: strings_view(self.required@),
        }
    }
}

pub open spec fn param_spec(name: Seq<char>, kind: Seq<char>, description: Seq<char>) -> ParamView {
    ParamView { name, kind, description }
}

/// The tools offered to the model, in order.
pub open spec fn tool_specs_spec() -> Seq<ToolSpecView> {
    seq![
        ToolSpecView {
            name: "query_weather"@,
            description: "查询城市的实时天气和未来 3 天天气预报。用户未指明城市时，省略 city 参数，将自动查询设置中的默认省市。"@,
            parameters: seq![
                param_spec("city"@, "string"@, "城市名（可选），例如：西安、北京。留空时使用默认省市"@),
            ],
            required: Seq::empty(),
        },
        ToolSpecView {
            name: "query_ticket"@,
            description: "查询 12306 火车直达余票信息"@,
            parameters: seq![
                param_spec("date"@, "string"@, "出发日期，格式 YYYY-MM-DD，不能早于当天"@),
                param_spec("from_station"@, "string"@, "出发站，例如：北京"@),
                param_spec("to_station"@, "string"@, "到达站，例如：上海"@),
            ],
            required: seq!["date"@, "from_station"@, "to_station"@],
        },
        ToolSpecView {
            name: "schedule_shutdown"@,
            description: "设置定时关机，或取消已设置的定时关机"@,
            parameters: seq![
                param_spec("minutes"@, "integer"@, "延迟关机的分钟数，仅在 cancel 为 false 时需要"@),
                param_spec("cancel"@, "boolean"@, "是否取消已设置的定时关机"@),
            ],
            required: Seq::empty(),
        },
        ToolSpecView {
            name: "query_weibo_hotsearch"@,
            description: "查询微博实时热搜榜前 N 条（无需账号）"@,
            parameters: seq![param_spec("limit"@, "integer"@, "返回条数，默认 10"@)],
            required: Seq::empty(),
        },
    ]
}

/// The names of the tools offered to the model.
pub open spec fn tool_names() -> Seq<Seq<char>> {
    tool_specs_spec().map_values(|t: ToolSpecView| t.name)
}

fn param(name: &str, kind: &str, description: &str) -> (p: ToolParam)
    ensures
        p@ == param_spec(name@, kind@, description@),
{
    ToolParam {
        name: String::from_str(name),
        kind: String::from_str(kind),
        description: String::from_str(description),
    }
}

fn tool_spec(name: &str, description: &str, parameters: Vec<ToolParam>, required: Vec<String>) -> (t:
    ToolSpec)
    ensures
        t@ == (ToolSpecView {
            name: name@,
            description: description@,
            parameters: parameters@.map_values(|p: ToolParam| p@),
            required: strings_view(required@),
        }),
{
    ToolSpec {
        name: String::from_str(name),
        description: String::from_str(description),
        parameters,
        required,
    }
}

/// The tools offered to the model: each one's name, description,
/// parameters (name, JSON type, description) and required parameters.
pub fn tool_specs() -> (r: Vec<ToolSpec>)
    ensures
        r@.map_values(|t: ToolSpec| t@) == tool_specs_spec(),
{
    let mut weather_params: Vec<ToolParam> = Vec::new();
    weather_params.push(
        param("city", "string", "城市名（可选），例如：西安、北京。留空时使用默认省市"),
    );
    let weather = tool_spec(
        "query_weather",
        "查询城市的实时天气和未来 3 天天气预报。用户未指明城市时，省略 city 参数，将自动查询设置中的默认省市。",
        weather_params,
        Vec::new(),
    );

    let mut ticket_params: Vec<ToolParam> = Vec::new();
    ticket_params.push(param("date", "string", "出发日期，格式 YYYY-MM-DD，不能早于当天"));
    ticket_params.push(param("from_station", "string", "出发站，例如：北京"));
    ticket_params.push(param("to_station", "string", "到达站，例如：上海"));
    let mut ticket_required: Vec<String> = Vec::new();
    ticket_required.push(String::from_str("date"));
    ticket_required.push(String::from_str("from_station"));
    ticket_required.push(String::from_str("to_station"));
    let ticket = tool_spec("query_ticket", "查询 12306 火车直达余票信息", ticket_params, ticket_required);

    let mut shutdown_params: Vec<ToolParam> = Vec::new();
    shutdown_params.push(param("minutes", "integer", "延迟关机的分钟数，仅在 cancel 为 false 时需要"));
    shutdown_params.push(param("cancel", "boolean", "是否取消已设置的定时关机"));
    let shutdown = tool_spec(
        "schedule_shutdown",
        "设置定时关机，或取消已设置的定时关机",
        shutdown_params,
        Vec::new(),
    );

    let mut weibo_params: Vec<ToolParam> = Vec::new();
    weibo_params.push(param("limit", "integer", "返回条数，默认 10"));
    let weibo = tool_spec(
        "query_weibo_hotsearch",
        "查询微博实时热搜榜前 N 条（无需账号）",
        weibo_params,
        Vec::new(),
    );

    let ghost specs = tool_specs_spec();
    assert(weather@ =~= specs[0]);
    assert(ticket@ =~= specs[1]);
    assert(shutdown@ =~= specs[2]);
    assert(weibo@ =~= specs[3]);
    let mut r: Vec<ToolSpec> = Vec::new();
    r.push(weather);
    r.push(ticket);
    r.push(shutdown);
    r.push(weibo);
    assert(r@.map_values(|t: ToolSpec| t@) =~= specs);
    r
}

/// Every tool offered to the model is one that a call can run, and every
/// other name is refused as unknown: a call is answered `未知工具: <name>`
/// exactly when `name` is not among the offered tools, whatever its
/// arguments and the configuration.
pub proof fn lemma_unknown_tool_exactly_unadvertised(name: Seq<char>, a: ArgumentsView, c: ConfigView)
    ensures
        (plan_tool_spec(name, a, c) == Err::<CommandView, Seq<char>>("未知工具: "@ + name)) <==> !tool_names().contains(name),
{
    reveal_strlit("未知工具: ");
    lemma_tool_names_distinct();
    reveal_strlit("天气查询失败：尚未配置和风天气 API Key。请直接提醒用户到聊天设置中填写“和风天气 API Key”，不要编造天气数据。");
    reveal_strlit("天气查询失败：未提供城市且尚未设置默认省市。请提醒用户在聊天设置中填写省份和城市。");
    reveal_strlit("缺少出发日期参数");
    reveal_strlit("缺少出发站参数");
    reveal_strlit("缺少到达站参数");
    reveal_strlit("缺少关机延迟分钟数参数");
    let names = tool_names();
    assert(names =~= seq!["query_weather"@, "query_ticket"@, "schedule_shutdown"@, "query_weibo_hotsearch"@]);
    let unknown = "未知工具: "@ + name;
    assert(unknown[0] == '未');
    if names.contains(name) {
        let i = choose|i: int| 0 <= i < names.len() && names[i] == name;
        assert(name == names[i]);
    } else {
        assert(name != names[0]);
        assert(name != names[1]);
        assert(name != names[2]);
        assert(name != names[3]);
    }
}

proof fn lemma_tool_names_distinct()
    ensures
        "query_weather"@ != "query_ticket"@,
        "query_weather"@ != "schedule_shutdown"@,
        "query_weather"@ != "query_weibo_hotsearch"@,
        "query_ticket"@ != "schedule_shutdown"@,
        "query_ticket"@ != "query_weibo_hotsearch"@,
        "schedule_shutdown"@ != "query_weibo_hotsearch"@,
{
    reveal_strlit("query_weather");
    reveal_strlit("query_ticket");
    reveal_strlit("schedule_shutdown");
    reveal_strlit("query_weibo_hotsearch");
    assert("query_weather"@.len() == 13);
    assert("query_ticket"@.len() == 12);
    assert("schedule_shutdown"@.len() == 17);
    assert("query_weibo_hotsearch"@.len() == 21);
}

/// A weather query that names a city runs the weather tool for exactly
/// that city, trimmed, with the trimmed weather key, whatever province and
/// city are configured: the configured ones stand in only for a missing or
/// blank city.
pub proof fn lemma_weather_uses_given_city(city: Seq<char>, a: ArgumentsView, c: ConfigView)
    requires
        trim(c.weather_api_key).len() > 0,
        a.city == Some(city),
        trim(city).len() > 0,
    ensures
        plan_tool_spec("query_weather"@, a, c) == Ok::<CommandView, Seq<char>>(
            CommandView {
                exe: "weather_tool"@,
                args: seq![trim(city)],
                envs: seq![("X-QW-Api-Key"@, trim(c.weather_api_key))],
                ticket_cache: false,
            },
        ),
{
}

/// The Weibo query asks for the number of entries that the call gives
/// when it is at least 1, for 1 when it is less, and for 10 when the call
/// gives none; there is no upper bound.
pub proof fn lemma_weibo_limit(a: ArgumentsView, c: ConfigView)
    ensures
        ({
            let n: int = match a.limit {
                Some(l) => if l >= 1 {
                    l as int
                } else {
                    1
                },
                None => 10,
            };
            plan_tool_spec("query_weibo_hotsearch"@, a, c) == Ok::<CommandView, Seq<char>>(
                CommandView {
                    exe: "weibo_hotsearch"@,
                    args: seq!["--limit"@, decimal(n), "--format"@, "text"@],
                    envs: Seq::empty(),
                    ticket_cache: false,
                },
            )
        }),
{
    lemma_tool_names_distinct();
}

/// The parameters offered with each tool, with their types: the weather
/// tool takes a string; the ticket tool three strings, all required; the
/// shutdown tool an integer and a boolean; the Weibo tool an integer. The
/// lemmas below show that the planning reads each of them under the name
/// offered.
pub proof fn lemma_offered_parameter_types()
    ensures
        ({
            let specs = tool_specs_spec();
            &&& specs.len() == 4
            &&& specs[0].parameters.len() == 1
            &&& specs[0].parameters[0].kind == "string"@
            &&& specs[0].required.len() == 0
            &&& specs[1].parameters.len() == 3
            &&& specs[1].parameters[0].kind == "string"@
            &&& specs[1].parameters[1].kind == "string"@
            &&& specs[1].parameters[2].kind == "string"@
            &&& specs[1].required == specs[1].parameters.map_values(|p: ParamView| p.name)
            &&& specs[2].parameters.len() == 2
            &&& specs[2].parameters[0].kind == "integer"@
            &&& specs[2].parameters[1].kind == "boolean"@
            &&& specs[2].required.len() == 0
            &&& specs[3].parameters.len() == 1
            &&& specs[3].parameters[0].kind == "integer"@
            &&& specs[3].required.len() == 0
        }),
{
    let specs = tool_specs_spec();
    assert(specs[1].parameters.map_values(|p: ParamView| p.name) =~= specs[1].required);
}

/// The weather tool reads the city under the name it offers: a call whose
/// arguments give a string there that is not blank queries that city.
pub proof fn lemma_weather_parameter_is_read(j: Seq<char>, city: Seq<char>, c: ConfigView)
    requires
        json_member(j, tool_specs_spec()[0].parameters[0].name) == Some(JsonScalarView::Str(city)),
        trim(city).len() > 0,
        trim(c.weather_api_key).len() > 0,
    ensures
        plan_tool_spec(tool_specs_spec()[0].name, tool_arguments_spec(Some(j)), c) == Ok::<
            CommandView,
            Seq<char>,
        >(
            CommandView {
                exe: "weather_tool"@,
                args: seq![trim(city)],
                envs: seq![("X-QW-Api-Key"@, trim(c.weather_api_key))],
                ticket_cache: false,
            },
        ),
{
}

/// The ticket tool reads the three parameters it offers: a call whose
/// arguments give strings under those names queries with those values.
pub proof fn lemma_ticket_parameters_are_read(
    j: Seq<char>,
    date: Seq<char>,
    from: Seq<char>,
    to: Seq<char>,
    c: ConfigView,
)
    requires
        json_member(j, tool_specs_spec()[1].parameters[0].name) == Some(JsonScalarView::Str(date)),
        json_member(j, tool_specs_spec()[1].parameters[1].name) == Some(JsonScalarView::Str(from)),
        json_member(j, tool_specs_spec()[1].parameters[2].name) == Some(JsonScalarView::Str(to)),
    ensures
        plan_tool_spec(tool_specs_spec()[1].name, tool_arguments_spec(Some(j)), c) == Ok::<
            CommandView,
            Seq<char>,
        >(
            CommandView {
                exe: "ticket_tool"@,
                args: seq![
                    "get-tickets"@,
                    "--date"@,
                    date,
                    "--from_station"@,
                    from,
                    "--to_station"@,
                    to,
                    "--format"@,
                    "text"@,
                ],
                envs: Seq::empty(),
                ticket_cache: true,
            },
        ),
{
    lemma_tool_names_distinct();
}

/// The shutdown tool reads the two parameters it offers: `true` under the
/// boolean one cancels; without it, an integer `m` under the integer one
/// schedules the shutdown `m * 60` seconds ahead.
pub proof fn lemma_shutdown_parameters_are_read(j: Seq<char>, m: i64, c: ConfigView)
    ensures
        json_member(j, tool_specs_spec()[2].parameters[1].name) == Some(JsonScalarView::Bool(true))
            ==> plan_tool_spec(tool_specs_spec()[2].name, tool_arguments_spec(Some(j)), c)
            == Ok::<CommandView, Seq<char>>(
            CommandView {
                exe: "shutdown_tool"@,
                args: seq!["cancel"@],
                envs: Seq::empty(),
                ticket_cache: false,
            },
        ),
        json_member(j, tool_specs_spec()[2].parameters[1].name) == None::<JsonScalarView>
            && json_member(j, tool_specs_spec()[2].parameters[0].name) == Some(
            JsonScalarView::Int(m),
        ) ==> plan_tool_spec(tool_specs_spec()[2].name, tool_arguments_spec(Some(j)), c) == Ok::<
            CommandView,
            Seq<char>,
        >(
            CommandView {
                exe: "shutdown_tool"@,
                args: seq![decimal(m * 60)],
                envs: Seq::empty(),
                ticket_cache: false,
            },
        ),
{
    lemma_tool_names_distinct();
}

/// The Weibo tool reads the count under the name it offers: an integer
/// `l >= 1` there asks for `l` entries.
pub proof fn lemma_weibo_parameter_is_read(j: Seq<char>, l: i64, c: ConfigView)
    requires
        json_member(j, tool_specs_spec()[3].parameters[0].name) == Some(JsonScalarView::Int(l)),
        l >= 1,
    ensures
        plan_tool_spec(tool_specs_spec()[3].name, tool_arguments_spec(Some(j)), c) == Ok::<
            CommandView,
            Seq<char>,
        >(
            CommandView {
                exe: "weibo_hotsearch"@,
                args: seq!["--limit"@, decimal(l as int), "--format"@, "text"@],
                envs: Seq::empty(),
                ticket_cache: false,
            },
        ),
{
    lemma_tool_names_distinct();
}

} // verus!
