use vstd::prelude::*;
use vstd::string::StringExecFns;
use crate::print::{GColor, TermPrint, color_escape};
use crate::text::{decimal, push_decimal, str_eq};

verus! {

/// Whether a new logger keeps `Info` messages: off in this build.
pub const LOG_INFO: bool = false;
/// Whether a new logger keeps `Warn` messages: off in this build.
pub const LOG_WARN: bool = false;
/// Whether a new logger keeps `Error` messages: off in this build.
pub const LOG_ERROR: bool = false;
/// Whether a new logger keeps `Debug` messages: off in this build.
pub const LOG_DEBUG: bool = false;

/// Which levels a logger keeps: one switch per level.
#[derive(Debug, Clone, Copy, PartialEq, Eq, Structural)]
pub struct LogLevels {
    pub info: bool,
    pub warn: bool,
    pub error: bool,
    pub debug: bool,
}

/// How serious a log message is.
#[derive(Debug, Clone, Copy, PartialEq, Eq, Structural)]
pub enum LogLevel {
    Info,
    Warn,
    Error,
    Debug,
}

/// A message's level, or a label of its own.
#[derive(Debug, Clone, Copy)]
pub enum LogType<'a> {
    Level(LogLevel),
    Str(&'a str),
}

/// The name of a level.
pub open spec fn level_name(l: LogLevel) -> Seq<char> {
    match l {
        LogLevel::Info => "Info"@,
        LogLevel::Warn => "Warn"@,
        LogLevel::Error => "Error"@,
        LogLevel::Debug => "Debug"@,
    }
}

/// The colour a level's label is shown in.
pub open spec fn level_color(l: LogLevel) -> GColor {
    match l {
        LogLevel::Info => GColor::Cyan,
        LogLevel::Warn => GColor::Yellow,
        LogLevel::Error => GColor::Red,
        LogLevel::Debug => GColor::Green,
    }
}

/// Whether the switches `sw` keep messages of level `l`.
pub open spec fn level_enabled(sw: LogLevels, l: LogLevel) -> bool {
    match l {
        LogLevel::Info => sw.info,
        LogLevel::Warn => sw.warn,
        LogLevel::Error => sw.error,
        LogLevel::Debug => sw.debug,
    }
}

/// The level named `s` ("Err" is short for "Error"), or `s` itself as a
/// label.
pub open spec fn log_type_of(s: Seq<char>) -> Option<LogLevel> {
    if s == "Info"@ { Some(LogLevel::Info) }
    else if s == "Warn"@ { Some(LogLevel::Warn) }
    else if s == "Error"@ || s == "Err"@ { Some(LogLevel::Error) }
    else if s == "Debug"@ { Some(LogLevel::Debug) }
    else { None }
}

impl LogLevel {
    fn as_string(&self) -> (r: &'static str)
        ensures
            r@ == level_name(*self),
    {
        match self {
            LogLevel::Info => "Info",
            LogLevel::Warn => "Warn",
            LogLevel::Error => "Error",
            LogLevel::Debug => "Debug",
        }
    }

    /// The level named `str` ("Err" also names the error level); any other
    /// text is a label of its own.
    pub fn from_string(str: &str) -> (r: LogType<'_>)
        ensures
            log_type_of(str@) matches Some(l) ==> r == LogType::Level(l),
            log_type_of(str@) is None ==> r == LogType::Str(str),
    {
        if str_eq(str, "Info") {
            LogType::Level(LogLevel::Info)
        } else if str_eq(str, "Warn") {
            LogType::Level(LogLevel::Warn)
        } else if str_eq(str, "Error") || str_eq(str, "Err") {
            LogType::Level(LogLevel::Error)
        } else if str_eq(str, "Debug") {
            LogType::Level(LogLevel::Debug)
        } else {
            LogType::Str(str)
        }
    }
}

/// A level's name reads back as that level.
pub proof fn lemma_level_name_round_trip(l: LogLevel)
    ensures
        log_type_of(level_name(l)) == Some(l),
{
    reveal_strlit("Info");
    reveal_strlit("Warn");
    reveal_strlit("Error");
    reveal_strlit("Err");
    reveal_strlit("Debug");
    assert("Warn"@[0] != "Info"@[0]);
    assert("Error"@[0] != "Info"@[0] && "Error"@[0] != "Warn"@[0]);
    assert("Debug"@[0] != "Info"@[0] && "Debug"@[0] != "Warn"@[0] && "Debug"@[0] != "Error"@[0]
        && "Debug"@[0] != "Err"@[0]);
}

/// One log line: the time in milliseconds, the label in its colour, a
/// colour reset, where it was logged from (path and line) and the message.
pub open spec fn log_entry(
    timestamp: nat,
    label: Seq<char>,
    color: GColor,
    path: Seq<char>,
    line: nat,
    msg: Seq<char>,
) -> Seq<char> {
    decimal(timestamp) + ":"@ + color_escape(GColor::Default, "48"@) + color_escape(color, "38"@) + label
        + "\x1b[0m:"@ + path + ":"@ + decimal(line) + ":"@ + msg
}

/// The text of each line.
pub open spec fn lines_of(v: Seq<String>) -> Seq<Seq<char>> {
    Seq::new(v.len(), |i: int| v[i]@)
}

/// What is left of `s` once its ANSI escape sequences are stripped, as the
/// `strip_ansi_escapes` crate computes it.
pub uninterp spec fn ansi_stripped(s: Seq<char>) -> Seq<char>;

/// Calls `strip_ansi_escapes::strip_str`: the result is the crate's
/// stripping of `s`. What the stripping removes is not stated here.
#[verifier::external_body]
fn strip_ansi(s: &str) -> (r: String)
    ensures
        r@ == ansi_stripped(s@),
{
    strip_ansi_escapes::strip_str(s)
}

/// The messages logged so far, the file they are saved to, if any, and the
/// levels that are kept.
pub struct Logger {
    pub logs: Vec<String>,
    pub log_path: Option<String>,
    pub levels: LogLevels,
}

impl Logger {
    /// No message yet; the levels kept are the build's (`LOG_INFO` and the
    /// others).
    pub fn new(path: Option<String>) -> (r: Self)
        ensures
            r.logs@ == Seq::<String>::empty(),
            r.log_path == path,
            r.levels == (LogLevels { info: LOG_INFO, warn: LOG_WARN, error: LOG_ERROR, debug: LOG_DEBUG }),
    {
        Logger {
            logs: Vec::new(),
            log_path: path,
            levels: LogLevels { info: LOG_INFO, warn: LOG_WARN, error: LOG_ERROR, debug: LOG_DEBUG },
        }
    }

    /// Keeps the levels switched on in `levels` from now on.
    pub fn set_levels(&mut self, levels: LogLevels)
        ensures
            final(self).levels == levels,
            final(self).logs@ == old(self).logs@,
            final(self).log_path == old(self).log_path,
    {
        self.levels = levels;
    }

    /// Logs `msg` from `path` at `line`, `timestamp` milliseconds after the
    /// game started. A message with a level is kept only if its level is
    /// switched on; one with a label of its own always is.
    pub fn log(&mut self, level: LogType, path: &str, msg: &str, line: u32, timestamp: u128)
        ensures
            final(self).log_path == old(self).log_path,
            final(self).levels == old(self).levels,
            match level {
                LogType::Level(l) => if level_enabled(old(self).levels, l) {
                    lines_of(final(self).logs@) == lines_of(old(self).logs@).push(
                        log_entry(timestamp as nat, level_name(l), level_color(l), path@, line as nat, msg@))
                } else {
                    final(self).logs@ == old(self).logs@
                },
                LogType::Str(s) => lines_of(final(self).logs@) == lines_of(old(self).logs@).push(
                    log_entry(timestamp as nat, s@, GColor::DarkGrey, path@, line as nat, msg@)),
            },
    {
        let label = match level {
            LogType::Level(l) => {
                let enabled = match l {
                    LogLevel::Info => self.levels.info,
                    LogLevel::Warn => self.levels.warn,
                    LogLevel::Error => self.levels.error,
                    LogLevel::Debug => self.levels.debug,
                };
                if !enabled {
                    return;
                }
                let color = match l {
                    LogLevel::Info => GColor::Cyan,
                    LogLevel::Warn => GColor::Yellow,
                    LogLevel::Error => GColor::Red,
                    LogLevel::Debug => GColor::Green,
                };
                TermPrint::new(l.as_string(), GColor::Default, color)
            },
            LogType::Str(s) => TermPrint::new(s, GColor::Default, GColor::DarkGrey),
        };
        let mut entry = String::new();
        push_decimal(&mut entry, timestamp);
        proof {
            reveal_strlit(":");
            reveal_strlit("\x1b[0m:");
        }
        entry.append(":");
        let shown = label.render();
        entry.append(shown.as_str());
        entry.append("\x1b[0m:");
        entry.append(path);
        entry.append(":");
        push_decimal(&mut entry, line as u128);
        entry.append(":");
        entry.append(msg);
        let ghost before = self.logs@;
        self.logs.push(entry);
        proof {
            let e = match level {
                LogType::Level(l) => log_entry(timestamp as nat, level_name(l), level_color(l), path@, line as nat, msg@),
                LogType::Str(s) => log_entry(timestamp as nat, s@, GColor::DarkGrey, path@, line as nat, msg@),
            };
            assert(entry@ =~= e);
            assert(lines_of(self.logs@) =~= lines_of(before).push(e));
        }
    }

    pub fn set_path(&mut self, path: Option<String>)
        ensures
            final(self).log_path == path,
            final(self).logs@ == old(self).logs@,
            final(self).levels == old(self).levels,
    {
        self.log_path = path;
    }

    /// The logged lines with their ANSI escape sequences stripped, for
    /// saving to a file.
    pub fn stripped_logs(&self) -> (r: Vec<String>)
        ensures
            lines_of(r@) == Seq::new(self.logs@.len(), |i: int| ansi_stripped(self.logs@[i]@)),
    {
        let mut r: Vec<String> = Vec::new();
        let mut i: usize = 0;
        while i < self.logs.len()
            invariant
                i <= self.logs@.len(),
                r@.len() == i,
                lines_of(r@) == Seq::new(i as nat, |j: int| ansi_stripped(self.logs@[j]@)),
            decreases self.logs@.len() - i,
        {
            let s = strip_ansi(self.logs[i].as_str());
            let ghost before = r@;
            let ghost sv = s@;
            assert(sv == ansi_stripped(self.logs@[i as int]@));
            r.push(s);
            assert(r@[i as int]@ == sv);
            assert(forall|j: int| 0 <= j < i ==> r@[j] == before[j]);
            assert(lines_of(before) == Seq::new(i as nat, |j: int| ansi_stripped(self.logs@[j]@)));
            assert forall|j: int| 0 <= j < i implies r@[j]@ == ansi_stripped(self.logs@[j]@) by {
                assert(lines_of(before)[j] == before[j]@);
            }
            assert(lines_of(r@) =~= Seq::new((i + 1) as nat, |j: int| ansi_stripped(self.logs@[j]@)));
            i = i + 1;
        }
        r
    }
}

/// The name of the file logs are saved to on attempt `tries`: `path.log`,
/// then `path.1.log`, `path.2.log` and so on.
pub fn log_file_name(path: &str, tries: u32) -> (r: String)
    ensures
        r@ == path@ + (if tries == 0 { Seq::empty() } else { "."@ + decimal(tries as nat) }) + ".log"@,
{
    let mut r = String::new();
    r.append(path);
    proof {
        reveal_strlit(".");
        reveal_strlit(".log");
    }
    if tries != 0 {
        r.append(".");
        push_decimal(&mut r, tries as u128);
    }
    r.append(".log");
    r
}


/// Each level is kept or dropped by its own switch alone: two sets of
/// switches that agree on a level's switch treat its messages alike, and a
/// level is kept exactly when its switch is on.
pub proof fn lemma_each_level_has_its_own_switch(sw: LogLevels, other: LogLevels)
    ensures
        level_enabled(sw, LogLevel::Info) == sw.info,
        level_enabled(sw, LogLevel::Warn) == sw.warn,
        level_enabled(sw, LogLevel::Error) == sw.error,
        level_enabled(sw, LogLevel::Debug) == sw.debug,
        sw.info == other.info ==> level_enabled(sw, LogLevel::Info) == level_enabled(other, LogLevel::Info),
        sw.warn == other.warn ==> level_enabled(sw, LogLevel::Warn) == level_enabled(other, LogLevel::Warn),
        sw.error == other.error ==> level_enabled(sw, LogLevel::Error) == level_enabled(other, LogLevel::Error),
        sw.debug == other.debug ==> level_enabled(sw, LogLevel::Debug) == level_enabled(other, LogLevel::Debug),
{
}

} // verus!
