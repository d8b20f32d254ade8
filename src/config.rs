use vstd::prelude::*;

use crate::text::str_equals;

verus! {

/// The keys under which settings are stored.
#[derive(Debug, Clone, Copy, PartialEq, Eq, Structural)]
pub enum ConfigItem {
    CheckUpdate,
    Language,
    LogLevel,
}

pub open spec fn config_key(item: ConfigItem) -> Seq<char> {
    match item {
        ConfigItem::CheckUpdate => "CHECK_UPDATE"@,
        ConfigItem::Language => "LANGUAGE"@,
        ConfigItem::LogLevel => "LOG_LEVEL"@,
    }
}

impl ConfigItem {
    pub fn as_str(&self) -> (r: &'static str)
        ensures
            r@ == config_key(*self),
    {
        match self {
            ConfigItem::CheckUpdate => "CHECK_UPDATE",
            ConfigItem::Language => "LANGUAGE",
            ConfigItem::LogLevel => "LOG_LEVEL",
        }
    }
}

/// The interface languages.
#[derive(Debug, Clone, Copy, PartialEq, Eq, Structural)]
pub enum Lang {
    ZhCn,
    EnUs,
}

pub open spec fn lang_code(l: Lang) -> Seq<char> {
    match l {
        Lang::ZhCn => "zh-cn"@,
        Lang::EnUs => "en-us"@,
    }
}

impl Lang {
    /// The language code, as catalogue names are keyed.
    pub fn as_str(&self) -> (r: &'static str)
        ensures
            r@ == lang_code(*self),
    {
        match self {
            Lang::ZhCn => "zh-cn",
            Lang::EnUs => "en-us",
        }
    }

    pub fn parse(s: &str) -> (r: Option<Lang>)
        ensures
            s@ == "zh-cn"@ ==> r == Some(Lang::ZhCn),
            s@ == "en-us"@ ==> r == Some(Lang::EnUs),
            s@ != "zh-cn"@ && s@ != "en-us"@ ==> r is None,
    {
        proof {
            reveal_strlit("zh-cn");
            reveal_strlit("en-us");
            assert("zh-cn"@[0] != "en-us"@[0]);
        }
        if str_equals(s, "zh-cn") {
            Some(Lang::ZhCn)
        } else if str_equals(s, "en-us") {
            Some(Lang::EnUs)
        } else {
            None
        }
    }
}

/// The log levels, most verbose first.
#[derive(Debug, Clone, Copy, PartialEq, Eq, Structural)]
pub enum LogLevel {
    Trace,
    Debug,
    Info,
    Warn,
    Error,
}

pub open spec fn level_name(l: LogLevel) -> Seq<char> {
    match l {
        LogLevel::Trace => "TRACE"@,
        LogLevel::Debug => "DEBUG"@,
        LogLevel::Info => "INFO"@,
        LogLevel::Warn => "WARN"@,
        LogLevel::Error => "ERROR"@,
    }
}

/// A character with ASCII letters folded to lower case.
pub open spec fn ascii_lower(c: char) -> char {
    if 'A' <= c && c <= 'Z' {
        ((c as u8) + 32) as char
    } else {
        c
    }
}

/// Equality of two texts ignoring ASCII case.
pub open spec fn eq_ignore_ascii_case(a: Seq<char>, b: Seq<char>) -> bool {
    a.len() == b.len() && forall|i: int| 0 <= i < a.len() ==> ascii_lower(#[trigger] a[i]) == ascii_lower(b[i])
}

/// The value of a decimal level number: digits, optionally after `+`, with value 1 to 5.
pub open spec fn level_number(s: Seq<char>) -> Option<nat> {
    digits_value(if s.len() > 0 && s[0] == '+' { s.drop_first() } else { s })
}

/// The value of zeros followed by one digit from 1 to 5.
pub open spec fn digits_value(d: Seq<char>) -> Option<nat> {
    if d.len() > 0 && (forall|i: int| 0 <= i < d.len() - 1 ==> #[trigger] d[i] == '0') && '1' <= d.last()
        && d.last() <= '5' {
        Some((d.last() as nat - '0' as nat) as nat)
    } else {
        None
    }
}

/// The level that a stored text names: a number from 1 (errors only) to 5 (everything), or
/// a level name in any ASCII case.
pub open spec fn level_of_text(s: Seq<char>) -> Option<LogLevel> {
    if level_number(s) == Some(1nat) {
        Some(LogLevel::Error)
    } else if level_number(s) == Some(2nat) {
        Some(LogLevel::Warn)
    } else if level_number(s) == Some(3nat) {
        Some(LogLevel::Info)
    } else if level_number(s) == Some(4nat) {
        Some(LogLevel::Debug)
    } else if level_number(s) == Some(5nat) {
        Some(LogLevel::Trace)
    } else if eq_ignore_ascii_case(s, "error"@) {
        Some(LogLevel::Error)
    } else if eq_ignore_ascii_case(s, "warn"@) {
        Some(LogLevel::Warn)
    } else if eq_ignore_ascii_case(s, "info"@) {
        Some(LogLevel::Info)
    } else if eq_ignore_ascii_case(s, "debug"@) {
        Some(LogLevel::Debug)
    } else if eq_ignore_ascii_case(s, "trace"@) {
        Some(LogLevel::Trace)
    } else {
        None
    }
}

fn lower_char(c: char) -> (r: char)
    ensures
        r == ascii_lower(c),
{
    if 'A' <= c && c <= 'Z' {
        ((c as u8) + 32) as char
    } else {
        c
    }
}

/// Equality of two texts ignoring ASCII case.
pub fn str_eq_ignore_ascii_case(a: &str, b: &str) -> (r: bool)
    ensures
        r == eq_ignore_ascii_case(a@, b@),
{
    let n = a.unicode_len();
    if n != b.unicode_len() {
        return false;
    }
    let mut i: usize = 0;
    while i < n
        invariant
            n == a@.len(),
            n == b@.len(),
            i <= n,
            forall|j: int| 0 <= j < i ==> ascii_lower(#[trigger] a@[j]) == ascii_lower(b@[j]),
        decreases n - i,
    {
        if lower_char(a.get_char(i)) != lower_char(b.get_char(i)) {
            return false;
        }
        i = i + 1;
    }
    true
}

fn parse_level_number(s: &str) -> (r: Option<u32>)
    ensures
        match level_number(s@) {
            Some(v) => r == Some(v as u32),
            None => r is None,
        },
{
    let n = s.unicode_len();
    let start: usize = if n > 0 && s.get_char(0) == '+' { 1 } else { 0 };
    let ghost d = if s@.len() > 0 && s@[0] == '+' { s@.drop_first() } else { s@ };
    assert(d =~= s@.subrange(start as int, n as int));
    if start >= n {
        return None;
    }
    let mut i: usize = start;
    while i + 1 < n
        invariant
            n == s@.len(),
            start <= i < n,
            d == s@.subrange(start as int, n as int),
            d == (if s@.len() > 0 && s@[0] == '+' { s@.drop_first() } else { s@ }),
            forall|j: int| 0 <= j < i - start ==> #[trigger] d[j] == '0',
        decreases n - i,
    {
        if s.get_char(i) != '0' {
            assert(d.len() == n - start);
            assert(d[i - start] != '0');
            assert(0 <= i - start < d.len() - 1);
            assert(!(forall|j: int| 0 <= j < d.len() - 1 ==> #[trigger] d[j] == '0'));
            assert(digits_value(d) is None);
            return None;
        }
        i = i + 1;
    }
    let last = s.get_char(n - 1);
    assert(d.len() == n - start);
    assert(d.last() == last);
    if '1' <= last && last <= '5' {
        Some((last as u32) - ('0' as u32))
    } else {
        None
    }
}

impl LogLevel {
    pub fn as_str(&self) -> (r: &'static str)
        ensures
            r@ == level_name(*self),
    {
        match self {
            LogLevel::Trace => "TRACE",
            LogLevel::Debug => "DEBUG",
            LogLevel::Info => "INFO",
            LogLevel::Warn => "WARN",
            LogLevel::Error => "ERROR",
        }
    }

    pub fn parse(s: &str) -> (r: Option<LogLevel>)
        ensures
            r == level_of_text(s@),
    {
        proof {
            reveal_strlit("error");
            reveal_strlit("warn");
            reveal_strlit("info");
            reveal_strlit("debug");
            reveal_strlit("trace");
        }
        match parse_level_number(s) {
            Some(1) => return Some(LogLevel::Error),
            Some(2) => return Some(LogLevel::Warn),
            Some(3) => return Some(LogLevel::Info),
            Some(4) => return Some(LogLevel::Debug),
            Some(5) => return Some(LogLevel::Trace),
            _ => {},
        }
        if str_eq_ignore_ascii_case(s, "error") {
            Some(LogLevel::Error)
        } else if str_eq_ignore_ascii_case(s, "warn") {
            Some(LogLevel::Warn)
        } else if str_eq_ignore_ascii_case(s, "info") {
            Some(LogLevel::Info)
        } else if str_eq_ignore_ascii_case(s, "debug") {
            Some(LogLevel::Debug)
        } else if str_eq_ignore_ascii_case(s, "trace") {
            Some(LogLevel::Trace)
        } else {
            None
        }
    }
}

/// The application's settings.
#[derive(Debug, Clone, Copy, PartialEq, Eq, Structural)]
pub struct AppConfig {
    pub log_level: LogLevel,
    pub language: Lang,
    pub check_update: bool,
}

pub open spec fn default_config() -> AppConfig {
    AppConfig { log_level: LogLevel::Info, language: Lang::ZhCn, check_update: true }
}

/// The stored value of a setting: the value of the last row with its key.
pub open spec fn stored_value(rows: Seq<(String, String)>, key: Seq<char>) -> Option<Seq<char>>
    decreases rows.len(),
{
    if rows.len() == 0 {
        None
    } else if rows.last().0@ == key {
        Some(rows.last().1@)
    } else {
        stored_value(rows.drop_last(), key)
    }
}

impl AppConfig {
    pub fn default() -> (r: AppConfig)
        ensures
            r == default_config(),
    {
        AppConfig { log_level: LogLevel::Info, language: Lang::ZhCn, check_update: true }
    }

    fn stored<'a>(rows: &'a Vec<(String, String)>, key: &str) -> (r: Option<&'a String>)
        ensures
            match r {
                Some(v) => stored_value(rows@, key@) == Some(v@),
                None => stored_value(rows@, key@) is None,
            },
    {
        let mut i: usize = rows.len();
        assert(rows@.take(i as int) =~= rows@);
        while i > 0
            invariant
                i <= rows@.len(),
                stored_value(rows@, key@) == stored_value(rows@.take(i as int), key@),
            decreases i,
        {
            assert(rows@.take(i as int).drop_last() =~= rows@.take(i - 1));
            if str_equals(rows[i - 1].0.as_str(), key) {
                return Some(&rows[i - 1].1);
            }
            i = i - 1;
        }
        None
    }

    /// The settings held by stored key-value rows; a setting that is absent or unreadable
    /// keeps its default.
    pub fn load_config(rows: &Vec<(String, String)>) -> (r: AppConfig)
        ensures
            r.log_level == match stored_value(rows@, "LOG_LEVEL"@) {
                Some(v) => match level_of_text(v) {
                    Some(l) => l,
                    None => LogLevel::Info,
                },
                None => LogLevel::Info,
            },
            r.language == match stored_value(rows@, "LANGUAGE"@) {
                Some(v) => if v == "en-us"@ { Lang::EnUs } else { Lang::ZhCn },
                None => Lang::ZhCn,
            },
            r.check_update == match stored_value(rows@, "CHECK_UPDATE"@) {
                Some(v) => v != "false"@,
                None => true,
            },
    {
        let mut config = AppConfig::default();
        if let Some(v) = Self::stored(rows, ConfigItem::LogLevel.as_str()) {
            if let Some(l) = LogLevel::parse(v.as_str()) {
                config.log_level = l;
            }
        }
        if let Some(v) = Self::stored(rows, ConfigItem::Language.as_str()) {
            if let Some(l) = Lang::parse(v.as_str()) {
                config.language = l;
            }
        }
        if let Some(v) = Self::stored(rows, ConfigItem::CheckUpdate.as_str()) {
            proof {
                reveal_strlit("false");
                reveal_strlit("true");
            }
            if str_equals(v.as_str(), "false") {
                config.check_update = false;
            }
        }
        config
    }

    /// The key-value rows that store the settings.
    pub fn save_config(config: &AppConfig) -> (r: Vec<(String, String)>)
        ensures
            r@.len() == 3,
            r@[0].0@ == "LOG_LEVEL"@ && r@[0].1@ == level_name(config.log_level),
            r@[1].0@ == "LANGUAGE"@ && r@[1].1@ == lang_code(config.language),
            r@[2].0@ == "CHECK_UPDATE"@ && r@[2].1@ == (if config.check_update { "true"@ } else { "false"@ }),
    {
        let mut r: Vec<(String, String)> = Vec::new();
        r.push((ConfigItem::LogLevel.as_str().to_owned(), config.log_level.as_str().to_owned()));
        r.push((ConfigItem::Language.as_str().to_owned(), config.language.as_str().to_owned()));
        let flag = if config.check_update { "true" } else { "false" };
        r.push((ConfigItem::CheckUpdate.as_str().to_owned(), flag.to_owned()));
        r
    }
}

} // verus!
