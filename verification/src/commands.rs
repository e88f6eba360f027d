//! Decisions of the chat commands: the system prompt, checks before a
//! message is sent, where the chat window goes, and the daily brief.
use vstd::prelude::*;

use crate::config::{ChatConfig, ConfigView};
use crate::history::ChatMessage;
use crate::text::{
    concat_str, is_blank, is_ws, lemma_strip_class_unchanged, trim, trim_str, CharClass,
};
use crate::tools::{
    command, default_location, default_location_spec, plan_tool_spec, ArgumentsView, CommandView,
};

verus! {

/// Label of the chat window.
pub const CHAT_WINDOW_LABEL: &'static str = "chat";

/// Label of the main (cat) window.
pub const MAIN_WINDOW_LABEL: &'static str = "main";

/// Name of the file, in the configuration directory, that holds the date
/// of the last daily brief.
pub const DAILY_BRIEF_FILE: &'static str = "daily-brief-date";

/// The message that asks the model for the daily brief.
pub const DAILY_BRIEF_TRIGGER: &'static str = "现在为你做一次每日定时播报，请依次完成两件事：\n1. 调用天气工具查询默认省市的今日实时天气与未来几天预报，并据此用通俗的话提醒今天出行、穿衣、是否带伞等注意事项；\n2. 调用微博热搜工具获取此刻的热搜榜前 10 条，挑选其中 3 到 5 条值得关注的热点简要介绍。\n\n请用简体中文、热情友好的语气，按「今日天气与提醒」和「此刻热搜」两部分输出。\n若天气工具因未配置和风天气 API Key 或未设置默认省市而失败，请如实提醒我先在聊天设置中补齐，不要编造天气数据。";

pub const PROMPT_HEAD: &'static str = "你是 BongoCat 桌面宠物里的 AI 助手。请用简洁、友好、口语化的中文回答用户的问题。\n当前日期是 ";

pub const PROMPT_DATE_TAIL: &'static str = "（北京时间）。当用户提到相对日期（今天、明天、后天、下周等）时，请据此推算具体日期。";

pub const PROMPT_REGION_HEAD: &'static str = "\n用户的默认省市是 ";

pub const PROMPT_REGION_TAIL: &'static str = "。当用户询问天气但没有指明城市时，请调用天气工具并省略 city 参数，默认查询该地区。";

/// The system prompt for a day: the assistant's role and the date, then,
/// when a default province or city is set, that region (the default
/// place of weather queries).
pub open spec fn system_prompt_spec(c: ConfigView, today: Seq<char>) -> Seq<char> {
    let head = PROMPT_HEAD@ + today + PROMPT_DATE_TAIL@;
    let region = default_location_spec(c);
    if region.len() == 0 {
        head
    } else {
        head + PROMPT_REGION_HEAD@ + region + PROMPT_REGION_TAIL@
    }
}

/// The system prompt for the date `today` (the caller reads the local
/// date, as `%Y-%m-%d`, from the clock).
pub fn system_prompt(config: &ChatConfig, today: &str) -> (s: String)
    ensures
        s@ == system_prompt_spec(config@, today@),
{
    let mut s = concat_str(PROMPT_HEAD, today);
    s.append(PROMPT_DATE_TAIL);
    let region = default_location(config);
    if !region.as_str().is_empty() {
        s.append(PROMPT_REGION_HEAD);
        s.append(region.as_str());
        s.append(PROMPT_REGION_TAIL);
    }
    s
}

/// The region that the system prompt names is the place that a weather
/// query without a city asks about. With a weather key set and no city
/// given (or a blank one): when a default province or city is set, the
/// prompt names exactly that region and the weather tool runs for it;
/// when none is set, the prompt names no region and the query is refused.
pub proof fn lemma_prompt_region_is_weather_default(
    c: ConfigView,
    today: Seq<char>,
    a: ArgumentsView,
)
    requires
        trim(c.weather_api_key).len() > 0,
        match a.city {
            Some(city) => trim(city).len() == 0,
            None => true,
        },
    ensures
        ({
            let region = default_location_spec(c);
            let head = PROMPT_HEAD@ + today + PROMPT_DATE_TAIL@;
            let plan = plan_tool_spec("query_weather"@, a, c);
            &&& region.len() > 0 ==> system_prompt_spec(c, today) == head + PROMPT_REGION_HEAD@
                + region + PROMPT_REGION_TAIL@ && plan == Ok::<CommandView, Seq<char>>(
                command(
                    "weather_tool"@,
                    seq![region],
                    seq![("X-QW-Api-Key"@, trim(c.weather_api_key))],
                    false,
                ),
            )
            &&& region.len() == 0 ==> system_prompt_spec(c, today) == head && plan is Err
        }),
{
}

/// Whether a daily-brief marker holds `today` (its trimmed text equals
/// it); a missing marker holds no date.
pub open spec fn briefed_on_spec(marker: Option<Seq<char>>, today: Seq<char>) -> bool {
    match marker {
        Some(m) => trim(m) == today,
        None => false,
    }
}

/// Whether the brief was already given on `today`.
pub fn briefed_on(marker: Option<&str>, today: &str) -> (b: bool)
    ensures
        b == briefed_on_spec(
            match marker {
                Some(m) => Some(m@),
                None => None,
            },
            today@,
        ),
{
    match marker {
        Some(m) => trim_str(m) == String::from_str(today),
        None => false,
    }
}

/// A marked day reads back as that day and no other: once the marker
/// holds `today` (as the brief writes it on success), `briefed_on` says
/// yes for `today` and no for every other date, for a date with no
/// whitespace at either end (as `%Y-%m-%d` writes it).
pub proof fn lemma_marker_reads_back(today: Seq<char>, other: Seq<char>)
    requires
        today.len() > 0 ==> !is_ws(today[0]) && !is_ws(today.last()),
    ensures
        briefed_on_spec(Some(today), today),
        other != today ==> !briefed_on_spec(Some(today), other),
{
    lemma_strip_class_unchanged(today, CharClass::Whitespace);
}

/// The request messages of the daily brief: the system prompt, then the
/// brief's request as a user message.
pub fn brief_messages(system_prompt: String, timestamp: i64) -> (r: Vec<ChatMessage>)
    ensures
        r@.len() == 2,
        r@[0].role@ == "system"@,
        r@[0].content@ == system_prompt@,
        r@[0].timestamp == 0,
        r@[1].role@ == "user"@,
        r@[1].content@ == DAILY_BRIEF_TRIGGER@,
        r@[1].timestamp == timestamp,
{
    let mut r = Vec::new();
    r.push(ChatMessage { role: String::from_str("system"), content: system_prompt, timestamp: 0 });
    r.push(
        ChatMessage {
            role: String::from_str("user"),
            content: String::from_str(DAILY_BRIEF_TRIGGER),
            timestamp,
        },
    );
    r
}

/// Whether a brief counts as given: the reply came and is not blank.
pub fn brief_succeeded(result: &Result<String, String>) -> (b: bool)
    ensures
        b == match result {
            Ok(c) => trim(c@).len() > 0,
            Err(_) => false,
        },
{
    match result {
        Ok(c) => !is_blank(c.as_str()),
        Err(_) => false,
    }
}

/// The message that no API key is set.
pub const NO_API_KEY: &'static str = "未配置 API Key，请先在设置中填写";

/// Nothing is sent without an API key.
pub fn require_api_key(config: &ChatConfig) -> (r: Result<(), String>)
    ensures
        r.is_ok() == (trim(config.api_key@).len() > 0),
        r matches Err(e) ==> e@ == NO_API_KEY@,
{
    if is_blank(config.api_key.as_str()) {
        Err(String::from_str(NO_API_KEY))
    } else {
        Ok(())
    }
}

/// The text of a message to send: trimmed, and not empty.
pub fn user_message_text(content: &str) -> (r: Result<String, String>)
    ensures
        match r {
            Ok(t) => t@ == trim(content@) && t@.len() > 0,
            Err(e) => trim(content@).len() == 0 && e@ == "消息不能为空"@,
        },
{
    let t = trim_str(content);
    if t.as_str().is_empty() {
        Err(String::from_str("消息不能为空"))
    } else {
        Ok(t)
    }
}

/// `u as i32`: the same bits read as a signed number.
pub open spec fn signed(u: u32) -> int {
    (u as i32) as int
}

pub open spec fn clamp_spec(v: int, lo: int, hi: int) -> int {
    if v < lo {
        lo
    } else if v > hi {
        hi
    } else {
        v
    }
}

pub open spec fn max_spec(a: int, b: int) -> int {
    if a >= b {
        a
    } else {
        b
    }
}

pub open spec fn in_i32(v: int) -> bool {
    i32::MIN <= v <= i32::MAX
}

/// The size of the chat window, 380 x 560 when it reports none.
pub open spec fn window_extent(reported: u32, fallback: int) -> int {
    if reported > 0 {
        signed(reported)
    } else {
        fallback
    }
}

/// Where the chat window goes: 16 pixels right of the main window, or, when
/// that leaves the monitor, 16 pixels left of it; then clamped so that it
/// stays 8 pixels inside the monitor where it fits.
pub open spec fn placement_spec(
    main_x: i32,
    main_y: i32,
    main_width: u32,
    monitor_x: i32,
    monitor_y: i32,
    monitor_width: u32,
    monitor_height: u32,
    width: u32,
    height: u32,
) -> (int, int) {
    let w = window_extent(width, 380);
    let h = window_extent(height, 560);
    let right = main_x + signed(main_width) + 16;
    let max_x = monitor_x + signed(monitor_width) - w - 8;
    let min_x = monitor_x + 8;
    let min_y = monitor_y + 8;
    let max_y = monitor_y + signed(monitor_height) - h - 8;
    let x = if right > max_x {
        main_x - w - 16
    } else {
        right
    };
    (clamp_spec(x, min_x, max_spec(max_x, min_x)), clamp_spec(main_y as int, min_y, max_spec(max_y, min_y)))
}

/// Every intermediate value of the placement fits an `i32` (the
/// computation overflows otherwise).
pub open spec fn placement_fits_spec(
    main_x: i32,
    main_width: u32,
    monitor_x: i32,
    monitor_y: i32,
    monitor_width: u32,
    monitor_height: u32,
    width: u32,
    height: u32,
) -> bool {
    let w = window_extent(width, 380);
    let h = window_extent(height, 560);
    let right = main_x + signed(main_width) + 16;
    let max_x = monitor_x + signed(monitor_width) - w - 8;
    &&& in_i32(main_x + signed(main_width))
    &&& in_i32(right)
    &&& in_i32(monitor_x + signed(monitor_width))
    &&& in_i32(monitor_x + signed(monitor_width) - w)
    &&& in_i32(max_x)
    &&& in_i32(monitor_x + 8)
    &&& in_i32(monitor_y + 8)
    &&& in_i32(monitor_y + signed(monitor_height))
    &&& in_i32(monitor_y + signed(monitor_height) - h)
    &&& in_i32(monitor_y + signed(monitor_height) - h - 8)
    &&& right > max_x ==> in_i32(main_x - w) && in_i32(main_x - w - 16)
}

/// Whether the placement computes without overflow.
pub fn placement_fits(
    main_x: i32,
    main_width: u32,
    monitor_x: i32,
    monitor_y: i32,
    monitor_width: u32,
    monitor_height: u32,
    width: u32,
    height: u32,
) -> (b: bool)
    ensures
        b == placement_fits_spec(
            main_x,
            main_width,
            monitor_x,
            monitor_y,
            monitor_width,
            monitor_height,
            width,
            height,
        ),
{
    let w: i64 = if width > 0 {
        (width as i32) as i64
    } else {
        380
    };
    let h: i64 = if height > 0 {
        (height as i32) as i64
    } else {
        560
    };
    let lo = i32::MIN as i64;
    let hi = i32::MAX as i64;
    let mw = (main_width as i32) as i64;
    let ow = (monitor_width as i32) as i64;
    let oh = (monitor_height as i32) as i64;
    let mx = main_x as i64;
    let ox = monitor_x as i64;
    let oy = monitor_y as i64;
    let right = mx + mw + 16;
    let max_x = ox + ow - w - 8;
    let fits = lo <= mx + mw && mx + mw <= hi && lo <= right && right <= hi && lo <= ox + ow && ox
        + ow <= hi && lo <= ox + ow - w && ox + ow - w <= hi && lo <= max_x && max_x <= hi && ox
        + 8 <= hi && lo <= oy + 8 && oy + 8 <= hi && lo <= oy + oh && oy + oh <= hi && lo <= oy
        + oh - h && oy + oh - h <= hi && lo <= oy + oh - h - 8 && oy + oh - h - 8 <= hi;
    if !fits {
        return false;
    }
    if right > max_x {
        lo <= mx - w && mx - w <= hi && lo <= mx - w - 16 && mx - w - 16 <= hi
    } else {
        true
    }
}

/// Where the chat window goes, next to the main window and inside the
/// monitor (see `placement_spec`).
pub fn chat_window_position(
    main_x: i32,
    main_y: i32,
    main_width: u32,
    monitor_x: i32,
    monitor_y: i32,
    monitor_width: u32,
    monitor_height: u32,
    width: u32,
    height: u32,
) -> (r: (i32, i32))
    requires
        placement_fits_spec(
            main_x,
            main_width,
            monitor_x,
            monitor_y,
            monitor_width,
            monitor_height,
            width,
            height,
        ),
    ensures
        (r.0 as int, r.1 as int) == placement_spec(
            main_x,
            main_y,
            main_width,
            monitor_x,
            monitor_y,
            monitor_width,
            monitor_height,
            width,
            height,
        ),
{
    let gap: i32 = 16;
    let margin: i32 = 8;
    let mut target_x = main_x + main_width as i32 + gap;
    let target_y = main_y;
    let window_width: i32 = if width > 0 {
        width as i32
    } else {
        380
    };
    let window_height: i32 = if height > 0 {
        height as i32
    } else {
        560
    };
    let max_x = monitor_x + monitor_width as i32 - window_width - margin;
    let min_x = monitor_x + margin;
    let min_y = monitor_y + margin;
    let max_y = monitor_y + monitor_height as i32 - window_height - margin;
    if target_x > max_x {
        target_x = main_x - window_width - gap;
    }
    let hi_x = if max_x >= min_x {
        max_x
    } else {
        min_x
    };
    let hi_y = if max_y >= min_y {
        max_y
    } else {
        min_y
    };
    let x = if target_x < min_x {
        min_x
    } else if target_x > hi_x {
        hi_x
    } else {
        target_x
    };
    let y = if target_y < min_y {
        min_y
    } else if target_y > hi_y {
        hi_y
    } else {
        target_y
    };
    (x, y)
}

/// The chat window goes to the right of the main window, 16 pixels from
/// its right edge, whenever it fits there (up to 8 pixels before the
/// monitor's right edge, and not left of the monitor's left margin), and
/// keeps the main window's top when that fits; it goes to the left,
/// 16 pixels from the main window's left edge, only when the right side
/// leaves the monitor, and there too it stays where it fits.
pub proof fn lemma_placement_prefers_right(
    main_x: i32,
    main_y: i32,
    main_width: u32,
    monitor_x: i32,
    monitor_y: i32,
    monitor_width: u32,
    monitor_height: u32,
    width: u32,
    height: u32,
)
    ensures
        ({
            let (x, y) = placement_spec(
                main_x,
                main_y,
                main_width,
                monitor_x,
                monitor_y,
                monitor_width,
                monitor_height,
                width,
                height,
            );
            let w = if width > 0 { signed(width) } else { 380 };
            let h = if height > 0 { signed(height) } else { 560 };
            let right = main_x + signed(main_width) + 16;
            let left = main_x - w - 16;
            let max_x = monitor_x + signed(monitor_width) - w - 8;
            let max_y = monitor_y + signed(monitor_height) - h - 8;
            &&& monitor_x + 8 <= right <= max_x ==> x == right
            &&& right > max_x && monitor_x + 8 <= left <= max_x ==> x == left
            &&& monitor_y + 8 <= main_y <= max_y ==> y == main_y
        }),
{
}

/// The placed window keeps its margin inside the monitor: its left edge
/// is at least 8 pixels right of the monitor's, its top at least 8 below
/// the monitor's, and neither is further than the room the monitor
/// leaves (or that margin, on a monitor too small for the window).
pub proof fn lemma_placement_inside_monitor(
    main_x: i32,
    main_y: i32,
    main_width: u32,
    monitor_x: i32,
    monitor_y: i32,
    monitor_width: u32,
    monitor_height: u32,
    width: u32,
    height: u32,
)
    ensures
        ({
            let (x, y) = placement_spec(
                main_x,
                main_y,
                main_width,
                monitor_x,
                monitor_y,
                monitor_width,
                monitor_height,
                width,
                height,
            );
            let w = window_extent(width, 380);
            let h = window_extent(height, 560);
            &&& monitor_x + 8 <= x <= max_spec(monitor_x + signed(monitor_width) - w - 8, monitor_x + 8)
            &&& monitor_y + 8 <= y <= max_spec(monitor_y + signed(monitor_height) - h - 8, monitor_y + 8)
        }),
{
}

/// The Unix time in whole seconds, as the clock gave it (`None` when the
/// clock is before the epoch): the seconds read as an `i64`, or 0.
pub fn timestamp_of(seconds: Option<u64>) -> (t: i64)
    ensures
        t == match seconds {
            Some(s) => s as i64,
            None => 0i64,
        },
{
    match seconds {
        Some(s) => s as i64,
        None => 0,
    }
}

#[verifier::external_type_specification]
#[verifier::external_body]
pub struct ExSystemTime(std::time::SystemTime);

#[verifier::external_type_specification]
#[verifier::external_body]
pub struct ExSystemTimeError(std::time::SystemTimeError);

/// `SystemTime::now`: the clock's reading; nothing is stated of it.
#[verifier::external_body]
fn clock_now() -> std::time::SystemTime {
    std::time::SystemTime::now()
}

/// `SystemTime::duration_since(UNIX_EPOCH)`: the time since the epoch, or
/// an error when the reading is before it; nothing is stated of it.
#[verifier::external_body]
fn since_unix_epoch(t: &std::time::SystemTime) -> Result<
    core::time::Duration,
    std::time::SystemTimeError,
> {
    t.duration_since(std::time::UNIX_EPOCH)
}

/// `Duration::as_secs`: the whole seconds of `d`; nothing is stated of it
/// (a `Duration` is opaque here).
#[verifier::external_body]
fn whole_seconds(d: &core::time::Duration) -> u64 {
    d.as_secs()
}

/// The current Unix time in whole seconds (`timestamp_of` the clock's
/// reading), or 0 when the clock reads before the epoch. The reading
/// itself is not stated, so neither is the result.
pub fn now_timestamp() -> (t: i64) {
    let now = clock_now();
    match since_unix_epoch(&now) {
        Ok(d) => timestamp_of(Some(whole_seconds(&d))),
        Err(_) => timestamp_of(None),
    }
}

} // verus!
