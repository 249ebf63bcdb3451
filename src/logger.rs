//! Severity levels and the rendering of diagnostic lines.

use vstd::prelude::*;

verus! {

/// Severity of a diagnostic, from the most to the least important.
#[derive(Debug, Clone, Copy, PartialEq, Eq, Structural)]
pub enum LogLevel {
    Info,
    Warn,
    Error,
    Found,
    NotFound,
    Debug,
    Request,
    Response,
}

/// Position of a level in the order of importance (0 is the most important).
pub open spec fn rank_of(level: LogLevel) -> nat {
    match level {
        LogLevel::Info => 0,
        LogLevel::Warn => 1,
        LogLevel::Error => 2,
        LogLevel::Found => 3,
        LogLevel::NotFound => 4,
        LogLevel::Debug => 5,
        LogLevel::Request => 6,
        LogLevel::Response => 7,
    }
}

/// The coloured tag shown for a level.
pub open spec fn label_of(level: LogLevel) -> Seq<char> {
    match level {
        LogLevel::Info => "\x1b[32mINF\x1b[0m"@,
        LogLevel::Warn => "\x1b[33mWARN\x1b[0m"@,
        LogLevel::Error => "\x1b[31mERR\x1b[0m"@,
        LogLevel::Debug => "\x1b[34mDBG\x1b[0m"@,
        LogLevel::Found => "\x1b[92mFOUND\x1b[0m"@,
        LogLevel::NotFound => "\x1b[91m!FOUND\x1b[0m"@,
        LogLevel::Request => "\x1b[36mREQ\x1b[0m"@,
        LogLevel::Response => "\x1b[95mRES\x1b[0m"@,
    }
}

/// The level that a verbosity setting selects: 1 to 7 name a level, anything else
/// selects the most verbose one.
pub open spec fn level_for_verbosity(value: u8) -> LogLevel {
    if value == 1 {
        LogLevel::Info
    } else if value == 2 {
        LogLevel::Warn
    } else if value == 3 {
        LogLevel::Error
    } else if value == 4 {
        LogLevel::Found
    } else if value == 5 {
        LogLevel::NotFound
    } else if value == 6 {
        LogLevel::Debug
    } else if value == 7 {
        LogLevel::Request
    } else {
        LogLevel::Response
    }
}

/// The line written for a message: `[ <tag> ] <message>`, the tag in bold when asked.
pub open spec fn line_of(level: LogLevel, message: Seq<char>, bold: bool) -> Seq<char> {
    let key = if bold {
        "\x1b[1m"@ + label_of(level) + "\x1b[0m"@
    } else {
        label_of(level)
    };
    "[ "@ + key + " ] "@ + message
}

/// What a logger set to `threshold` emits for a message: the line when the level
/// is at least as important as the threshold, nothing otherwise.
pub open spec fn emitted(threshold: LogLevel, level: LogLevel, message: Seq<char>, bold: bool) -> Option<
    Seq<char>,
> {
    if rank_of(level) <= rank_of(threshold) {
        Some(line_of(level, message, bold))
    } else {
        None
    }
}

pub open spec fn view_of(line: Option<String>) -> Option<Seq<char>> {
    match line {
        Some(s) => Some(s@),
        None => None,
    }
}

impl LogLevel {
    pub fn rank(&self) -> (r: u8)
        ensures
            r as nat == rank_of(*self),
    {
        match self {
            LogLevel::Info => 0,
            LogLevel::Warn => 1,
            LogLevel::Error => 2,
            LogLevel::Found => 3,
            LogLevel::NotFound => 4,
            LogLevel::Debug => 5,
            LogLevel::Request => 6,
            LogLevel::Response => 7,
        }
    }

    pub fn as_str(&self) -> (r: &'static str)
        ensures
            r@ == label_of(*self),
    {
        match self {
            LogLevel::Info => "\x1b[32mINF\x1b[0m",
            LogLevel::Warn => "\x1b[33mWARN\x1b[0m",
            LogLevel::Error => "\x1b[31mERR\x1b[0m",
            LogLevel::Debug => "\x1b[34mDBG\x1b[0m",
            LogLevel::Found => "\x1b[92mFOUND\x1b[0m",
            LogLevel::NotFound => "\x1b[91m!FOUND\x1b[0m",
            LogLevel::Request => "\x1b[36mREQ\x1b[0m",
            LogLevel::Response => "\x1b[95mRES\x1b[0m",
        }
    }
}

impl From<u8> for LogLevel {
    fn from(value: u8) -> (r: LogLevel)
        ensures
            r == level_for_verbosity(value),
    {
        match value {
            1 => LogLevel::Info,
            2 => LogLevel::Warn,
            3 => LogLevel::Error,
            4 => LogLevel::Found,
            5 => LogLevel::NotFound,
            6 => LogLevel::Debug,
            7 => LogLevel::Request,
            _ => LogLevel::Response,
        }
    }
}

impl vstd::std_specs::convert::FromSpecImpl<u8> for LogLevel {
    open spec fn obeys_from_spec() -> bool {
        true
    }

    open spec fn from_spec(v: u8) -> LogLevel {
        level_for_verbosity(v)
    }
}

/// Decides which diagnostics are shown and renders them. Writing the rendered
/// line is left to the caller.
pub struct Logger {
    pub level: LogLevel,
}

impl Logger {
    pub fn new(level: LogLevel) -> (r: Logger)
        ensures
            r.level == level,
    {
        Logger { level }
    }

    /// The line to write for `message` at `level`, or `None` when the level is
    /// less important than the logger's threshold.
    pub fn log(&self, level: LogLevel, message: &str, bold: bool) -> (r: Option<String>)
        ensures
            view_of(r) == emitted(self.level, level, message@, bold),
    {
        if level.rank() <= self.level.rank() {
            let key = if bold {
                let mut k = String::from_str("\x1b[1m");
                k.append(level.as_str());
                k.append("\x1b[0m");
                k
            } else {
                String::from_str(level.as_str())
            };
            let mut line = String::from_str("[ ");
            line.append(key.as_str());
            line.append(" ] ");
            line.append(message);
            Some(line)
        } else {
            None
        }
    }

    pub fn inf(&self, message: &str, bold: bool) -> (r: Option<String>)
        ensures
            view_of(r) == emitted(self.level, LogLevel::Info, message@, bold),
    {
        self.log(LogLevel::Info, message, bold)
    }

    pub fn warn(&self, message: &str, bold: bool) -> (r: Option<String>)
        ensures
            view_of(r) == emitted(self.level, LogLevel::Warn, message@, bold),
    {
        self.log(LogLevel::Warn, message, bold)
    }

    pub fn err(&self, message: &str, bold: bool) -> (r: Option<String>)
        ensures
            view_of(r) == emitted(self.level, LogLevel::Error, message@, bold),
    {
        self.log(LogLevel::Error, message, bold)
    }

    pub fn dbg(&self, message: &str, bold: bool) -> (r: Option<String>)
        ensures
            view_of(r) == emitted(self.level, LogLevel::Debug, message@, bold),
    {
        self.log(LogLevel::Debug, message, bold)
    }

    pub fn fnd(&self, message: &str, bold: bool) -> (r: Option<String>)
        ensures
            view_of(r) == emitted(self.level, LogLevel::Found, message@, bold),
    {
        self.log(LogLevel::Found, message, bold)
    }

    pub fn nfnd(&self, message: &str, bold: bool) -> (r: Option<String>)
        ensures
            view_of(r) == emitted(self.level, LogLevel::NotFound, message@, bold),
    {
        self.log(LogLevel::NotFound, message, bold)
    }

    pub fn req(&self, message: &str, bold: bool) -> (r: Option<String>)
        ensures
            view_of(r) == emitted(self.level, LogLevel::Request, message@, bold),
    {
        self.log(LogLevel::Request, message, bold)
    }

    pub fn res(&self, message: &str, bold: bool) -> (r: Option<String>)
        ensures
            view_of(r) == emitted(self.level, LogLevel::Response, message@, bold),
    {
        self.log(LogLevel::Response, message, bold)
    }
}

} // verus!
