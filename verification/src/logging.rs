//! Logging configuration.
use vstd::prelude::*;

use crate::text::{ascii_lower_seq, ascii_lowercase, concat, str_eq};

verus! {

/// The severity threshold of log output, from least to most verbose.
#[allow(non_camel_case_types)]
#[derive(Debug, Clone, Copy, PartialEq, Eq, Structural)]
pub enum Level {
    ERROR,
    WARN,
    INFO,
    DEBUG,
    TRACE,
}

/// Log output format options.
#[derive(Debug, Clone, Copy, PartialEq, Eq, Structural)]
pub enum LogFormat {
    /// Human-readable format for CLI usage.
    Human,
    /// JSON format for programmatic use-cases.
    Json,
}

impl Default for LogFormat {
    fn default() -> (r: Self)
        ensures
            r == LogFormat::Human,
    {
        LogFormat::Human
    }
}

/// Logging configuration.
#[derive(Debug, Clone, Copy)]
pub struct LogConfig {
    /// Log level filter.
    pub level: Level,
    /// Output format.
    pub format: LogFormat,
    /// Whether to show target module names.
    pub show_target: bool,
    /// Whether to show timestamps.
    pub show_time: bool,
    /// Whether to show thread names.
    pub show_thread_names: bool,
}

impl Default for LogConfig {
    /// Info level, human format, no target, time or thread names.
    fn default() -> (r: Self)
        ensures
            r == (LogConfig {
                level: Level::INFO,
                format: LogFormat::Human,
                show_target: false,
                show_time: false,
                show_thread_names: false,
            }),
    {
        LogConfig {
            level: Level::INFO,
            format: LogFormat::Human,
            show_target: false,
            show_time: false,
            show_thread_names: false,
        }
    }
}

impl LogConfig {
    /// The default configuration with the given level.
    pub fn new(level: Level) -> (r: Self)
        ensures
            r == (LogConfig {
                level,
                format: LogFormat::Human,
                show_target: false,
                show_time: false,
                show_thread_names: false,
            }),
    {
        LogConfig { level, ..Default::default() }
    }

    /// Sets the output format.
    pub fn with_format(self, format: LogFormat) -> (r: Self)
        ensures
            r == (LogConfig { format, ..self }),
    {
        let mut s = self;
        s.format = format;
        s
    }

    /// Enables target module names in output.
    pub fn with_target(self) -> (r: Self)
        ensures
            r == (LogConfig { show_target: true, ..self }),
    {
        let mut s = self;
        s.show_target = true;
        s
    }

    /// Enables timestamps in output.
    pub fn with_time(self) -> (r: Self)
        ensures
            r == (LogConfig { show_time: true, ..self }),
    {
        let mut s = self;
        s.show_time = true;
        s
    }

    /// Enables thread names in output.
    pub fn with_thread_names(self) -> (r: Self)
        ensures
            r == (LogConfig { show_thread_names: true, ..self }),
    {
        let mut s = self;
        s.show_thread_names = true;
        s
    }

    /// Errors only.
    pub fn quiet() -> (r: Self)
        ensures
            r == LogConfig::spec_new(Level::ERROR),
    {
        Self::new(Level::ERROR)
    }

    /// Debug level, with target module names.
    pub fn verbose() -> (r: Self)
        ensures
            r == (LogConfig { show_target: true, ..LogConfig::spec_new(Level::DEBUG) }),
    {
        Self::new(Level::DEBUG).with_target()
    }

    /// Maximum verbosity, with target module names and timestamps.
    pub fn trace() -> (r: Self)
        ensures
            r == (LogConfig { show_target: true, show_time: true, ..LogConfig::spec_new(Level::TRACE) }),
    {
        Self::new(Level::TRACE).with_target().with_time()
    }

    /// The default configuration with the given level.
    pub open spec fn spec_new(level: Level) -> LogConfig {
        LogConfig {
            level,
            format: LogFormat::Human,
            show_target: false,
            show_time: false,
            show_thread_names: false,
        }
    }
}

/// The level that a lower-case name denotes.
pub open spec fn level_named(name: Seq<char>) -> Option<Level> {
    if name == "error"@ {
        Some(Level::ERROR)
    } else if name == "warn"@ || name == "warning"@ {
        Some(Level::WARN)
    } else if name == "info"@ {
        Some(Level::INFO)
    } else if name == "debug"@ {
        Some(Level::DEBUG)
    } else if name == "trace"@ {
        Some(Level::TRACE)
    } else {
        None
    }
}

/// The format that a lower-case name denotes.
pub open spec fn format_named(name: Seq<char>) -> Option<LogFormat> {
    if name == "human"@ || name == "text"@ {
        Some(LogFormat::Human)
    } else if name == "json"@ {
        Some(LogFormat::Json)
    } else {
        None
    }
}

/// The canonical name of a level.
pub open spec fn level_name(level: Level) -> Seq<char> {
    match level {
        Level::ERROR => "error"@,
        Level::WARN => "warn"@,
        Level::INFO => "info"@,
        Level::DEBUG => "debug"@,
        Level::TRACE => "trace"@,
    }
}

/// Parses a level name, ignoring case.
pub fn parse_log_level(level: &str) -> (r: Result<Level, String>)
    ensures
        level_named(ascii_lower_seq(level@)) matches Some(l) ==> r == Ok::<Level, String>(l),
        level_named(ascii_lower_seq(level@)) is None ==> (r matches Err(m) && m@ == "Invalid log level: "@ + level@),
{
    let lower = ascii_lowercase(level);
    proof {
        reveal_strlit("error");
        reveal_strlit("warn");
        reveal_strlit("warning");
        reveal_strlit("info");
        reveal_strlit("debug");
        reveal_strlit("trace");
        reveal_strlit("Invalid log level: ");
    }
    if str_eq(lower.as_str(), "error") {
        Ok(Level::ERROR)
    } else if str_eq(lower.as_str(), "warn") || str_eq(lower.as_str(), "warning") {
        Ok(Level::WARN)
    } else if str_eq(lower.as_str(), "info") {
        Ok(Level::INFO)
    } else if str_eq(lower.as_str(), "debug") {
        Ok(Level::DEBUG)
    } else if str_eq(lower.as_str(), "trace") {
        Ok(Level::TRACE)
    } else {
        Err(concat("Invalid log level: ", level))
    }
}

/// Parses a format name, ignoring case.
pub fn parse_log_format(format: &str) -> (r: Result<LogFormat, String>)
    ensures
        format_named(ascii_lower_seq(format@)) matches Some(f) ==> r == Ok::<LogFormat, String>(f),
        format_named(ascii_lower_seq(format@)) is None ==> (r matches Err(m) && m@ == "Invalid log format: "@ + format@),
{
    let lower = ascii_lowercase(format);
    proof {
        reveal_strlit("human");
        reveal_strlit("text");
        reveal_strlit("json");
        reveal_strlit("Invalid log format: ");
    }
    if str_eq(lower.as_str(), "human") || str_eq(lower.as_str(), "text") {
        Ok(LogFormat::Human)
    } else if str_eq(lower.as_str(), "json") {
        Ok(LogFormat::Json)
    } else {
        Err(concat("Invalid log format: ", format))
    }
}

/// Lower-casing a lower-case name changes nothing.
proof fn lemma_lower_fixed(s: Seq<char>)
    requires
        forall|i: int| 0 <= i < s.len() ==> 'a' <= #[trigger] s[i] <= 'z',
    ensures
        ascii_lower_seq(s) == s,
{
    assert(ascii_lower_seq(s) =~= s);
}

/// Every level parses back from its canonical name.
pub proof fn lemma_level_name_roundtrip(level: Level)
    ensures
        level_named(ascii_lower_seq(level_name(level))) == Some(level),
{
    reveal_strlit("error");
    reveal_strlit("warn");
    reveal_strlit("info");
    reveal_strlit("debug");
    reveal_strlit("trace");
    reveal_strlit("warning");
    lemma_lower_fixed(level_name(level));
    let n = level_name(level);
    assert(ascii_lower_seq(n) == n);
    match level {
        Level::ERROR => {},
        Level::WARN => {
            assert(n != "error"@) by { assert(n.len() != "error"@.len()); }
        },
        Level::INFO => {
            assert(n != "error"@) by { assert(n.len() != "error"@.len()); }
            assert(n != "warn"@) by { assert(n[0] != "warn"@[0]); }
            assert(n != "warning"@) by { assert(n.len() != "warning"@.len()); }
        },
        Level::DEBUG => {
            assert(n != "error"@) by { assert(n[0] != "error"@[0]); }
            assert(n != "warn"@) by { assert(n.len() != "warn"@.len()); }
            assert(n != "warning"@) by { assert(n.len() != "warning"@.len()); }
            assert(n != "info"@) by { assert(n.len() != "info"@.len()); }
        },
        Level::TRACE => {
            assert(n != "error"@) by { assert(n[0] != "error"@[0]); }
            assert(n != "warn"@) by { assert(n.len() != "warn"@.len()); }
            assert(n != "warning"@) by { assert(n.len() != "warning"@.len()); }
            assert(n != "info"@) by { assert(n.len() != "info"@.len()); }
            assert(n != "debug"@) by { assert(n[0] != "debug"@[0]); }
        },
    }
}

/// Level names are read without regard to ASCII case.
pub proof fn lemma_level_case_insensitive(a: Seq<char>, b: Seq<char>)
    requires
        ascii_lower_seq(a) == ascii_lower_seq(b),
    ensures
        level_named(ascii_lower_seq(a)) == level_named(ascii_lower_seq(b)),
{
}

} // verus!
