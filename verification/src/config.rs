//! The chat configuration and its `.env` file format.
use vstd::prelude::*;

use crate::text::{
    chars_eq_str, count_before, find_char_in, is_ws, lemma_count_before_append,
    lemma_strip_class_unchanged, opt_view, strip_class, strip_range, string_of_range, to_chars,
    trim, CharClass,
};

verus! {

/// Name of the configuration file in the application's configuration
/// directory.
pub const CONFIG_FILE: &'static str = ".env";

/// Settings of the chat assistant.
#[derive(Debug, Clone)]
pub struct ChatConfig {
    pub api_key: String,
    pub base_url: String,
    pub model: String,
    pub reasoning: bool,
    pub user_avatar_path: Option<String>,
    pub weather_province: String,
    pub weather_city: String,
    pub weather_api_key: String,
}

/// The contents of a `ChatConfig`, as character sequences.
#[verifier::ext_equal]
pub struct ConfigView {
    pub api_key: Seq<char>,
    pub base_url: Seq<char>,
    pub model: Seq<char>,
    pub reasoning: bool,
    pub user_avatar_path: Option<Seq<char>>,
    pub weather_province: Seq<char>,
    pub weather_city: Seq<char>,
    pub weather_api_key: Seq<char>,
}

impl View for ChatConfig {
    type V = ConfigView;

    open spec fn view(&self) -> ConfigView {
        ConfigView {
            api_key: self.api_key@,
            base_url: self.base_url@,
            model: self.model@,
            reasoning: self.reasoning,
            user_avatar_path: opt_view(self.user_avatar_path),
            weather_province: self.weather_province@,
            weather_city: self.weather_city@,
            weather_api_key: self.weather_api_key@,
        }
    }
}

/// The configuration used when the file is missing or leaves a key out.
pub open spec fn default_config() -> ConfigView {
    ConfigView {
        api_key: Seq::empty(),
        base_url: "https://api.deepseek.com"@,
        model: "deepseek-v4-pro"@,
        reasoning: true,
        user_avatar_path: None,
        weather_province: Seq::empty(),
        weather_city: Seq::empty(),
        weather_api_key: Seq::empty(),
    }
}

impl Default for ChatConfig {
    fn default() -> (c: Self)
        ensures
            c@ == default_config(),
    {
        ChatConfig {
            api_key: String::new(),
            base_url: String::from_str("https://api.deepseek.com"),
            model: String::from_str("deepseek-v4-pro"),
            reasoning: true,
            user_avatar_path: None,
            weather_province: String::new(),
            weather_city: String::new(),
            weather_api_key: String::new(),
        }
    }
}

/// The pieces of `s` between line feeds, in order (a final piece after the
/// last line feed included, possibly empty).
pub open spec fn split_lines(s: Seq<char>) -> Seq<Seq<char>>
    decreases s.len(),
{
    let k = count_before(s, '\n');
    if k >= s.len() {
        seq![s]
    } else {
        seq![s.take(k as int)] + split_lines(s.skip(k + 1 as int))
    }
}

/// A value as it stands right of `=`: trimmed, then stripped of double
/// quotes at either end, then of single quotes.
pub open spec fn env_value(raw: Seq<char>) -> Seq<char> {
    strip_class(strip_class(trim(raw), CharClass::Exactly('"')), CharClass::Exactly('\''))
}

/// The effect of one `key=value` entry: a known key sets its field, any
/// other key changes nothing.
pub open spec fn apply_entry(c: ConfigView, key: Seq<char>, value: Seq<char>) -> ConfigView {
    if key == "LLM_API_KEY"@ {
        ConfigView { api_key: value, ..c }
    } else if key == "LLM_BASE_URL"@ {
        ConfigView { base_url: value, ..c }
    } else if key == "LLM_MODEL"@ {
        ConfigView { model: value, ..c }
    } else if key == "LLM_REASONING"@ {
        ConfigView { reasoning: value == "true"@ || value == "1"@, ..c }
    } else if key == "CHAT_USER_AVATAR"@ {
        ConfigView {
            user_avatar_path: if value.len() == 0 {
                None
            } else {
                Some(value)
            },
            ..c
        }
    } else if key == "WEATHER_PROVINCE"@ {
        ConfigView { weather_province: value, ..c }
    } else if key == "WEATHER_CITY"@ {
        ConfigView { weather_city: value, ..c }
    } else if key == "QWEATHER_API_KEY"@ || key == "X-QW-Api-Key"@ {
        ConfigView { weather_api_key: value, ..c }
    } else {
        c
    }
}

/// The effect of one line: blank lines, comments (`#` after trimming) and
/// lines without `=` change nothing; otherwise the key left of the first
/// `=` (trimmed) gets the value right of it.
pub open spec fn apply_line(c: ConfigView, line: Seq<char>) -> ConfigView {
    let l = trim(line);
    if l.len() == 0 || l[0] == '#' {
        c
    } else {
        let k = count_before(l, '=');
        if k >= l.len() {
            c
        } else {
            apply_entry(c, trim(l.take(k as int)), env_value(l.skip(k + 1 as int)))
        }
    }
}

/// The lines applied from first to last.
pub open spec fn apply_lines(c: ConfigView, lines: Seq<Seq<char>>) -> ConfigView
    decreases lines.len(),
{
    if lines.len() == 0 {
        c
    } else {
        apply_lines(apply_line(c, lines[0]), lines.drop_first())
    }
}

/// The configuration that a `.env` text describes: the defaults, changed
/// by each line in turn.
pub open spec fn parse_env_spec(content: Seq<char>) -> ConfigView {
    apply_lines(default_config(), split_lines(content))
}

proof fn lemma_apply_lines_cons(c: ConfigView, x: Seq<char>, rest: Seq<Seq<char>>)
    ensures
        apply_lines(c, seq![x] + rest) == apply_lines(apply_line(c, x), rest),
{
    let ls = seq![x] + rest;
    assert(ls[0] == x);
    assert(ls.drop_first() =~= rest);
}

/// Applies the line `a..b` of `v` to `config`.
fn apply_env_line(config: &mut ChatConfig, v: &[char], a: usize, b: usize)
    requires
        a <= b <= v@.len(),
    ensures
        final(config)@ == apply_line(old(config)@, v@.subrange(a as int, b as int)),
{
    let ghost line = v@.subrange(a as int, b as int);
    let (s, e) = strip_range(v, a, b, CharClass::Whitespace);
    let ghost l = v@.subrange(s as int, e as int);
    assert(l == trim(line));
    if s == e {
        return;
    }
    assert(l[0] == v@[s as int]);
    if v[s] == '#' {
        return;
    }
    let eq = find_char_in(v, s, e, '=');
    if eq == e {
        return;
    }
    let ghost k = count_before(l, '=');
    assert(k == eq - s);
    assert(l.take(k as int) =~= v@.subrange(s as int, eq as int));
    assert(l.skip(k + 1 as int) =~= v@.subrange(eq + 1, e as int));
    let (ka, kb) = strip_range(v, s, eq, CharClass::Whitespace);
    let (va, vb) = strip_range(v, eq + 1, e, CharClass::Whitespace);
    let (va, vb) = strip_range(v, va, vb, CharClass::Exactly('"'));
    let (va, vb) = strip_range(v, va, vb, CharClass::Exactly('\''));
    let ghost key = v@.subrange(ka as int, kb as int);
    let ghost value = v@.subrange(va as int, vb as int);
    assert(key == trim(l.take(k as int)));
    assert(value == env_value(l.skip(k + 1 as int)));
    if chars_eq_str(v, ka, kb, "LLM_API_KEY") {
        config.api_key = string_of_range(v, va, vb);
    } else if chars_eq_str(v, ka, kb, "LLM_BASE_URL") {
        config.base_url = string_of_range(v, va, vb);
    } else if chars_eq_str(v, ka, kb, "LLM_MODEL") {
        config.model = string_of_range(v, va, vb);
    } else if chars_eq_str(v, ka, kb, "LLM_REASONING") {
        config.reasoning = chars_eq_str(v, va, vb, "true") || chars_eq_str(v, va, vb, "1");
    } else if chars_eq_str(v, ka, kb, "CHAT_USER_AVATAR") {
        config.user_avatar_path = if va == vb {
            None
        } else {
            Some(string_of_range(v, va, vb))
        };
    } else if chars_eq_str(v, ka, kb, "WEATHER_PROVINCE") {
        config.weather_province = string_of_range(v, va, vb);
    } else if chars_eq_str(v, ka, kb, "WEATHER_CITY") {
        config.weather_city = string_of_range(v, va, vb);
    } else if chars_eq_str(v, ka, kb, "QWEATHER_API_KEY") || chars_eq_str(
        v,
        ka,
        kb,
        "X-QW-Api-Key",
    ) {
        config.weather_api_key = string_of_range(v, va, vb);
    }
}

/// Reads a `.env` text: the defaults, with each `KEY=value` line of a
/// known key applied in order (the last one wins).
pub fn parse_env(content: &str) -> (config: ChatConfig)
    ensures
        config@ == parse_env_spec(content@),
{
    let chars = to_chars(content);
    let v = chars.as_slice();
    let n = v.len();
    let mut config = ChatConfig::default();
    let mut start: usize = 0;
    assert(v@.subrange(0, n as int) =~= content@);
    loop
        invariant_except_break
            start <= n == v@.len(),
            v@ == content@,
            parse_env_spec(content@) == apply_lines(
                config@,
                split_lines(v@.subrange(start as int, n as int)),
            ),
        ensures
            config@ == parse_env_spec(content@),
        decreases n - start,
    {
        let ghost before = config@;
        let ghost rest = v@.subrange(start as int, n as int);
        let end = find_char_in(v, start, n, '\n');
        apply_env_line(&mut config, v, start, end);
        if end == n {
            assert(rest.take((end - start) as int) =~= rest);
            assert(split_lines(rest) == seq![rest]);
            proof {
                lemma_apply_lines_cons(before, rest, Seq::empty());
            }
            break;
        }
        assert(rest.take((end - start) as int) =~= v@.subrange(start as int, end as int));
        assert(rest.skip((end - start) + 1) =~= v@.subrange(end + 1, n as int));
        proof {
            lemma_apply_lines_cons(
                before,
                v@.subrange(start as int, end as int),
                split_lines(v@.subrange(end + 1, n as int)),
            );
        }
        start = end + 1;
    }
    config
}

/// The text of a boolean as `{}` formats it.
pub open spec fn bool_text(b: bool) -> Seq<char> {
    if b {
        "true"@
    } else {
        "false"@
    }
}

/// A `KEY=value` line (without its line feed).
pub open spec fn env_line(key: Seq<char>, value: Seq<char>) -> Seq<char> {
    key + seq!['='] + value
}

/// The lines that `serialize_env` writes: two comment lines, then one
/// entry per field (an absent avatar path written empty).
pub open spec fn env_lines(c: ConfigView) -> Seq<Seq<char>> {
    seq![
        "# BongoCat LLM 配置"@,
        "# 可在设置界面或直接修改本文件后保存，重新打开聊天窗口生效。"@,
        env_line("LLM_API_KEY"@, c.api_key),
        env_line("LLM_BASE_URL"@, c.base_url),
        env_line("LLM_MODEL"@, c.model),
        env_line("LLM_REASONING"@, bool_text(c.reasoning)),
        env_line(
            "CHAT_USER_AVATAR"@,
            match c.user_avatar_path {
                Some(p) => p,
                None => Seq::empty(),
            },
        ),
        env_line("WEATHER_PROVINCE"@, c.weather_province),
        env_line("WEATHER_CITY"@, c.weather_city),
        env_line("QWEATHER_API_KEY"@, c.weather_api_key),
    ]
}

/// Each line followed by a line feed.
pub open spec fn join_lines(ls: Seq<Seq<char>>) -> Seq<char>
    decreases ls.len(),
{
    if ls.len() == 0 {
        Seq::empty()
    } else {
        ls[0] + seq!['\n'] + join_lines(ls.drop_first())
    }
}

/// The `.env` text that `serialize_env` writes for `c`.
pub open spec fn serialize_env_spec(c: ConfigView) -> Seq<char> {
    join_lines(env_lines(c))
}

proof fn lemma_join_lines_push(ls: Seq<Seq<char>>, x: Seq<char>)
    ensures
        join_lines(ls.push(x)) == join_lines(ls) + x + seq!['\n'],
    decreases ls.len(),
{
    if ls.len() == 0 {
        let one = ls.push(x);
        assert(one.drop_first() =~= Seq::<Seq<char>>::empty());
        assert(one[0] == x);
        assert(join_lines(Seq::<Seq<char>>::empty()) =~= Seq::<char>::empty());
        assert(join_lines(one) =~= x + seq!['\n']);
        assert(join_lines(ls) + x + seq!['\n'] =~= x + seq!['\n']);
    } else {
        lemma_join_lines_push(ls.drop_first(), x);
        assert(ls.push(x).drop_first() =~= ls.drop_first().push(x));
        assert(ls.push(x)[0] == ls[0]);
        assert(join_lines(ls.push(x)) =~= join_lines(ls) + x + seq!['\n']);
    }
}

/// Appends `text` and a line feed to `s`, adding `text` to the ghost lines.
fn push_line(s: &mut String, text: &str, Ghost(ls): Ghost<Seq<Seq<char>>>)
    requires
        old(s)@ == join_lines(ls),
    ensures
        final(s)@ == join_lines(ls.push(text@)),
{
    s.append(text);
    s.append("\n");
    proof {
        reveal_strlit("\n");
        lemma_join_lines_push(ls, text@);
        assert(final(s)@ =~= join_lines(ls.push(text@)));
    }
}

/// Appends the line `key=value` and a line feed to `s`.
fn push_entry(s: &mut String, key: &str, value: &str, Ghost(ls): Ghost<Seq<Seq<char>>>)
    requires
        old(s)@ == join_lines(ls),
    ensures
        final(s)@ == join_lines(ls.push(env_line(key@, value@))),
{
    s.append(key);
    s.append("=");
    s.append(value);
    s.append("\n");
    proof {
        reveal_strlit("\n");
        reveal_strlit("=");
        lemma_join_lines_push(ls, env_line(key@, value@));
        assert(final(s)@ =~= join_lines(ls.push(env_line(key@, value@))));
    }
}

/// Writes `config` as a `.env` text: two comment lines, then one
/// `KEY=value` line per field.
pub fn serialize_env(config: &ChatConfig) -> (text: String)
    ensures
        text@ == serialize_env_spec(config@),
{
    let mut s = String::new();
    let ghost ls: Seq<Seq<char>> = Seq::empty();
    let h1 = "# BongoCat LLM 配置";
    let h2 = "# 可在设置界面或直接修改本文件后保存，重新打开聊天窗口生效。";
    push_line(&mut s, h1, Ghost(ls));
    proof { ls = ls.push(h1@); }
    push_line(&mut s, h2, Ghost(ls));
    proof { ls = ls.push(h2@); }
    push_entry(&mut s, "LLM_API_KEY", config.api_key.as_str(), Ghost(ls));
    proof { ls = ls.push(env_line("LLM_API_KEY"@, config.api_key@)); }
    push_entry(&mut s, "LLM_BASE_URL", config.base_url.as_str(), Ghost(ls));
    proof { ls = ls.push(env_line("LLM_BASE_URL"@, config.base_url@)); }
    push_entry(&mut s, "LLM_MODEL", config.model.as_str(), Ghost(ls));
    proof { ls = ls.push(env_line("LLM_MODEL"@, config.model@)); }
    let reasoning = if config.reasoning {
        "true"
    } else {
        "false"
    };
    push_entry(&mut s, "LLM_REASONING", reasoning, Ghost(ls));
    proof { ls = ls.push(env_line("LLM_REASONING"@, reasoning@)); }
    let avatar = match &config.user_avatar_path {
        Some(p) => p.as_str(),
        None => "",
    };
    proof {
        reveal_strlit("");
    }
    push_entry(&mut s, "CHAT_USER_AVATAR", avatar, Ghost(ls));
    proof { ls = ls.push(env_line("CHAT_USER_AVATAR"@, avatar@)); }
    push_entry(&mut s, "WEATHER_PROVINCE", config.weather_province.as_str(), Ghost(ls));
    proof { ls = ls.push(env_line("WEATHER_PROVINCE"@, config.weather_province@)); }
    push_entry(&mut s, "WEATHER_CITY", config.weather_city.as_str(), Ghost(ls));
    proof { ls = ls.push(env_line("WEATHER_CITY"@, config.weather_city@)); }
    push_entry(&mut s, "QWEATHER_API_KEY", config.weather_api_key.as_str(), Ghost(ls));
    proof {
        ls = ls.push(env_line("QWEATHER_API_KEY"@, config.weather_api_key@));
        assert(ls =~= env_lines(config@));
    }
    s
}

/// A value that a `KEY=value` line carries unchanged: it holds no line
/// feed, and neither starts nor ends with whitespace or a quote.
pub open spec fn env_safe(s: Seq<char>) -> bool {
    &&& forall|i: int| 0 <= i < s.len() ==> s[i] != '\n'
    &&& s.len() > 0 ==> {
        &&& !is_ws(s[0]) && !is_ws(s.last())
        &&& s[0] != '"' && s.last() != '"'
        &&& s[0] != '\'' && s.last() != '\''
    }
}

/// Every field of `c` is written so that reading gives it back: its
/// strings are `env_safe`, and an avatar path, when present, is not empty.
pub open spec fn config_env_safe(c: ConfigView) -> bool {
    &&& env_safe(c.api_key)
    &&& env_safe(c.base_url)
    &&& env_safe(c.model)
    &&& env_safe(c.weather_province)
    &&& env_safe(c.weather_city)
    &&& env_safe(c.weather_api_key)
    &&& match c.user_avatar_path {
        Some(p) => p.len() > 0 && env_safe(p),
        None => true,
    }
}

proof fn lemma_split_join(ls: Seq<Seq<char>>)
    requires
        forall|i: int, j: int| 0 <= i < ls.len() && 0 <= j < ls[i].len() ==> ls[i][j] != '\n',
    ensures
        split_lines(join_lines(ls)) == ls.push(Seq::<char>::empty()),
    decreases ls.len(),
{
    let e = Seq::<char>::empty();
    if ls.len() == 0 {
        assert(join_lines(ls) =~= e);
        assert(count_before(e, '\n') == 0);
        assert(ls.push(e) =~= seq![e]);
    } else {
        let rest = ls.drop_first();
        assert forall|i: int, j: int| 0 <= i < rest.len() && 0 <= j < rest[i].len() implies rest[i][j]
            != '\n' by {
            assert(rest[i] == ls[i + 1]);
        }
        lemma_split_join(rest);
        let tail = seq!['\n'] + join_lines(rest);
        let whole = join_lines(ls);
        assert(whole =~= ls[0] + tail);
        assert(count_before(tail, '\n') == 0);
        assert forall|j: int| 0 <= j < ls[0].len() implies ls[0][j] != '\n' by {}
        lemma_count_before_append(ls[0], tail, '\n');
        let k = ls[0].len();
        assert(whole.take(k as int) =~= ls[0]);
        assert(whole.skip(k + 1 as int) =~= join_lines(rest));
        assert(split_lines(whole) == seq![ls[0]] + split_lines(join_lines(rest)));
        assert(seq![ls[0]] + rest.push(e) =~= ls.push(e));
    }
}

proof fn lemma_entry_line(c: ConfigView, key: Seq<char>, v: Seq<char>)
    requires
        key.len() > 0,
        !is_ws(key[0]),
        key[0] != '#',
        !is_ws(key.last()),
        forall|i: int| 0 <= i < key.len() ==> key[i] != '=',
        env_safe(v),
    ensures
        apply_line(c, env_line(key, v)) == apply_entry(c, key, v),
{
    let line = env_line(key, v);
    let tail = seq!['='] + v;
    assert(line =~= key + tail);
    assert(line[0] == key[0]);
    if v.len() > 0 {
        assert(line.last() == v.last());
    } else {
        assert(line.last() == '=');
    }
    lemma_strip_class_unchanged(line, CharClass::Whitespace);
    assert(count_before(tail, '=') == 0);
    lemma_count_before_append(key, tail, '=');
    assert(line.take(key.len() as int) =~= key);
    assert(line.skip(key.len() + 1 as int) =~= v);
    lemma_strip_class_unchanged(key, CharClass::Whitespace);
    lemma_strip_class_unchanged(v, CharClass::Whitespace);
    lemma_strip_class_unchanged(v, CharClass::Exactly('"'));
    lemma_strip_class_unchanged(v, CharClass::Exactly('\''));
}

proof fn lemma_comment_line(c: ConfigView, h: Seq<char>)
    requires
        h.len() > 0,
        h[0] == '#',
        !is_ws(h.last()),
    ensures
        apply_line(c, h) == c,
{
    lemma_strip_class_unchanged(h, CharClass::Whitespace);
}

proof fn lemma_apply_lines_step(c: ConfigView, s: Seq<Seq<char>>)
    requires
        s.len() > 0,
    ensures
        apply_lines(c, s) == apply_lines(apply_line(c, s[0]), s.drop_first()),
{
}

/// Writing a configuration and reading the text back gives the same
/// configuration, for every configuration whose fields the format can
/// carry (`config_env_safe`).
pub proof fn lemma_serialize_parse_roundtrip(c: ConfigView)
    requires
        config_env_safe(c),
    ensures
        parse_env_spec(serialize_env_spec(c)) == c,
{
    reveal_strlit("# BongoCat LLM 配置");
    reveal_strlit("# 可在设置界面或直接修改本文件后保存，重新打开聊天窗口生效。");
    reveal_strlit("LLM_API_KEY");
    reveal_strlit("LLM_BASE_URL");
    reveal_strlit("LLM_MODEL");
    reveal_strlit("LLM_REASONING");
    reveal_strlit("CHAT_USER_AVATAR");
    reveal_strlit("WEATHER_PROVINCE");
    reveal_strlit("WEATHER_CITY");
    reveal_strlit("QWEATHER_API_KEY");
    reveal_strlit("X-QW-Api-Key");
    reveal_strlit("true");
    reveal_strlit("false");
    reveal_strlit("1");
    let ls = env_lines(c);
    let avatar = match c.user_avatar_path {
        Some(p) => p,
        None => Seq::<char>::empty(),
    };
    assert forall|i: int, j: int| 0 <= i < ls.len() && 0 <= j < ls[i].len() implies ls[i][j]
        != '\n' by {
        if i >= 2 {
            let line = ls[i];
            let key = if i == 2 {
                "LLM_API_KEY"@
            } else if i == 3 {
                "LLM_BASE_URL"@
            } else if i == 4 {
                "LLM_MODEL"@
            } else if i == 5 {
                "LLM_REASONING"@
            } else if i == 6 {
                "CHAT_USER_AVATAR"@
            } else if i == 7 {
                "WEATHER_PROVINCE"@
            } else if i == 8 {
                "WEATHER_CITY"@
            } else {
                "QWEATHER_API_KEY"@
            };
            let value = if i == 2 {
                c.api_key
            } else if i == 3 {
                c.base_url
            } else if i == 4 {
                c.model
            } else if i == 5 {
                bool_text(c.reasoning)
            } else if i == 6 {
                avatar
            } else if i == 7 {
                c.weather_province
            } else if i == 8 {
                c.weather_city
            } else {
                c.weather_api_key
            };
            assert(line == env_line(key, value));
            if j > key.len() {
                assert(line[j] == value[j - key.len() - 1]);
            }
        }
    }
    lemma_split_join(ls);
    let s0 = ls.push(Seq::<char>::empty());
    let d = default_config();
    lemma_apply_lines_step(d, s0);
    lemma_comment_line(d, s0[0]);
    let s1 = s0.drop_first();
    lemma_apply_lines_step(d, s1);
    lemma_comment_line(d, s1[0]);
    let s2 = s1.drop_first();
    lemma_apply_lines_step(d, s2);
    lemma_entry_line(d, "LLM_API_KEY"@, c.api_key);
    let d3 = apply_entry(d, "LLM_API_KEY"@, c.api_key);
    let s3 = s2.drop_first();
    lemma_apply_lines_step(d3, s3);
    lemma_entry_line(d3, "LLM_BASE_URL"@, c.base_url);
    let d4 = apply_entry(d3, "LLM_BASE_URL"@, c.base_url);
    let s4 = s3.drop_first();
    lemma_apply_lines_step(d4, s4);
    lemma_entry_line(d4, "LLM_MODEL"@, c.model);
    let d5 = apply_entry(d4, "LLM_MODEL"@, c.model);
    let s5 = s4.drop_first();
    lemma_apply_lines_step(d5, s5);
    lemma_entry_line(d5, "LLM_REASONING"@, bool_text(c.reasoning));
    let d6 = apply_entry(d5, "LLM_REASONING"@, bool_text(c.reasoning));
    let s6 = s5.drop_first();
    lemma_apply_lines_step(d6, s6);
    lemma_entry_line(d6, "CHAT_USER_AVATAR"@, avatar);
    let d7 = apply_entry(d6, "CHAT_USER_AVATAR"@, avatar);
    let s7 = s6.drop_first();
    lemma_apply_lines_step(d7, s7);
    lemma_entry_line(d7, "WEATHER_PROVINCE"@, c.weather_province);
    let d8 = apply_entry(d7, "WEATHER_PROVINCE"@, c.weather_province);
    let s8 = s7.drop_first();
    lemma_apply_lines_step(d8, s8);
    lemma_entry_line(d8, "WEATHER_CITY"@, c.weather_city);
    let d9 = apply_entry(d8, "WEATHER_CITY"@, c.weather_city);
    let s9 = s8.drop_first();
    lemma_apply_lines_step(d9, s9);
    lemma_entry_line(d9, "QWEATHER_API_KEY"@, c.weather_api_key);
    let d10 = apply_entry(d9, "QWEATHER_API_KEY"@, c.weather_api_key);
    let s10 = s9.drop_first();
    lemma_apply_lines_step(d10, s10);
    assert(s10[0] =~= Seq::<char>::empty());
    let s11 = s10.drop_first();
    assert(s11.len() == 0);
    assert(d10 =~= c);
}

/// The key that a line sets, if it is an entry (not blank, not a comment,
/// holding `=`).
pub open spec fn line_key(line: Seq<char>) -> Option<Seq<char>> {
    let l = trim(line);
    if l.len() == 0 || l[0] == '#' {
        None
    } else {
        let k = count_before(l, '=');
        if k >= l.len() {
            None
        } else {
            Some(trim(l.take(k as int)))
        }
    }
}

/// Whether some line of `content` is an entry for `key`.
pub open spec fn sets_key(content: Seq<char>, key: Seq<char>) -> bool {
    exists|i: int|
        0 <= i < split_lines(content).len() && #[trigger] line_key(split_lines(content)[i]) == Some(
            key,
        )
}

/// The fields that an entry for `key` leaves as they were.
pub open spec fn keeps_fields_but(before: ConfigView, after: ConfigView, key: Seq<char>) -> bool {
    &&& key != "LLM_API_KEY"@ ==> after.api_key == before.api_key
    &&& key != "LLM_BASE_URL"@ ==> after.base_url == before.base_url
    &&& key != "LLM_MODEL"@ ==> after.model == before.model
    &&& key != "LLM_REASONING"@ ==> after.reasoning == before.reasoning
    &&& key != "CHAT_USER_AVATAR"@ ==> after.user_avatar_path == before.user_avatar_path
    &&& key != "WEATHER_PROVINCE"@ ==> after.weather_province == before.weather_province
    &&& key != "WEATHER_CITY"@ ==> after.weather_city == before.weather_city
    &&& (key != "QWEATHER_API_KEY"@ && key != "X-QW-Api-Key"@) ==> after.weather_api_key
        == before.weather_api_key
}

/// Each field whose key is not among `keys` is the same in `after` as in
/// `before`.
pub open spec fn unset_fields_kept(before: ConfigView, after: ConfigView, keys: Seq<Seq<char>>) -> bool {
    &&& !keys.contains("LLM_API_KEY"@) ==> after.api_key == before.api_key
    &&& !keys.contains("LLM_BASE_URL"@) ==> after.base_url == before.base_url
    &&& !keys.contains("LLM_MODEL"@) ==> after.model == before.model
    &&& !keys.contains("LLM_REASONING"@) ==> after.reasoning == before.reasoning
    &&& !keys.contains("CHAT_USER_AVATAR"@) ==> after.user_avatar_path == before.user_avatar_path
    &&& !keys.contains("WEATHER_PROVINCE"@) ==> after.weather_province == before.weather_province
    &&& !keys.contains("WEATHER_CITY"@) ==> after.weather_city == before.weather_city
    &&& (!keys.contains("QWEATHER_API_KEY"@) && !keys.contains("X-QW-Api-Key"@))
        ==> after.weather_api_key == before.weather_api_key
}

proof fn lemma_apply_line_keeps(c: ConfigView, line: Seq<char>)
    ensures
        match line_key(line) {
            None => apply_line(c, line) == c,
            Some(k) => keeps_fields_but(c, apply_line(c, line), k),
        },
{
}

/// The keys of entries among `lines`.
pub open spec fn keys_of(lines: Seq<Seq<char>>) -> Seq<Seq<char>>
    decreases lines.len(),
{
    if lines.len() == 0 {
        Seq::empty()
    } else {
        match line_key(lines[0]) {
            Some(k) => seq![k] + keys_of(lines.drop_first()),
            None => keys_of(lines.drop_first()),
        }
    }
}

proof fn lemma_apply_lines_keeps(c: ConfigView, lines: Seq<Seq<char>>)
    ensures
        unset_fields_kept(c, apply_lines(c, lines), keys_of(lines)),
    decreases lines.len(),
{
    if lines.len() > 0 {
        let c1 = apply_line(c, lines[0]);
        lemma_apply_line_keeps(c, lines[0]);
        lemma_apply_lines_keeps(c1, lines.drop_first());
        let rest = keys_of(lines.drop_first());
        match line_key(lines[0]) {
            Some(k) => {
                let ks = seq![k] + rest;
                assert(forall|x: Seq<char>| rest.contains(x) ==> ks.contains(x)) by {
                    assert forall|x: Seq<char>| rest.contains(x) implies ks.contains(x) by {
                        let j = choose|j: int| 0 <= j < rest.len() && rest[j] == x;
                        assert(ks[j + 1] == x);
                    }
                }
                assert(ks[0] == k);
            },
            None => {},
        }
    }
}

proof fn lemma_keys_of_contains(lines: Seq<Seq<char>>, x: Seq<char>)
    requires
        keys_of(lines).contains(x),
    ensures
        exists|i: int| 0 <= i < lines.len() && #[trigger] line_key(lines[i]) == Some(x),
    decreases lines.len(),
{
    let rest = lines.drop_first();
    match line_key(lines[0]) {
        Some(k) => {
            let ks = seq![k] + keys_of(rest);
            let j = choose|j: int| 0 <= j < ks.len() && ks[j] == x;
            if j == 0 {
                assert(line_key(lines[0]) == Some(x));
            } else {
                assert(keys_of(rest)[j - 1] == x);
                lemma_keys_of_contains(rest, x);
                let i = choose|i: int| 0 <= i < rest.len() && #[trigger] line_key(rest[i]) == Some(x);
                assert(lines[i + 1] == rest[i]);
            }
        },
        None => {
            lemma_keys_of_contains(rest, x);
            let i = choose|i: int| 0 <= i < rest.len() && #[trigger] line_key(rest[i]) == Some(x);
            assert(lines[i + 1] == rest[i]);
        },
    }
}

/// A field that no line of the text sets keeps its default: for each
/// field, when no entry of the text has its key (for the weather API key,
/// neither of its two keys), the field read is the default one.
pub proof fn lemma_unset_keys_keep_defaults(content: Seq<char>)
    ensures
        ({
            let c = parse_env_spec(content);
            let d = default_config();
            &&& !sets_key(content, "LLM_API_KEY"@) ==> c.api_key == d.api_key
            &&& !sets_key(content, "LLM_BASE_URL"@) ==> c.base_url == d.base_url
            &&& !sets_key(content, "LLM_MODEL"@) ==> c.model == d.model
            &&& !sets_key(content, "LLM_REASONING"@) ==> c.reasoning == d.reasoning
            &&& !sets_key(content, "CHAT_USER_AVATAR"@) ==> c.user_avatar_path
                == d.user_avatar_path
            &&& !sets_key(content, "WEATHER_PROVINCE"@) ==> c.weather_province
                == d.weather_province
            &&& !sets_key(content, "WEATHER_CITY"@) ==> c.weather_city == d.weather_city
            &&& (!sets_key(content, "QWEATHER_API_KEY"@) && !sets_key(content, "X-QW-Api-Key"@))
                ==> c.weather_api_key == d.weather_api_key
        }),
{
    let lines = split_lines(content);
    lemma_apply_lines_keeps(default_config(), lines);
    assert forall|k: Seq<char>| #[trigger] keys_of(lines).contains(k) implies sets_key(content, k) by {
        lemma_keys_of_contains(lines, k);
    }
}

} // verus!
