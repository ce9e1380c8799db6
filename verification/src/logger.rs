//! The logger's decisions: levels, the bounded in-memory line cache, the
//! log line layout, and the keep-recent-half clamp of the rolling file.
//! The file itself, and the event emission, live with the caller.

use vstd::prelude::*;

verus! {

use crate::strutil::str_eq;
use vstd::string::StringExecFns;

/// The rolling file's size cap in bytes.
pub const MAX_LOG_BYTES: u64 = 0x400000;

/// How many lines the in-memory cache keeps.
pub const MAX_CACHE_LINES: usize = 4000;

/// Severity, ordered from chattiest to gravest.
#[derive(Clone, Copy, Debug, PartialEq, Eq, Structural)]
pub enum LogLevel {
    Trace,
    Debug,
    Info,
    Warn,
    Error,
}

/// Numeric rank of a level.
pub open spec fn level_rank(l: LogLevel) -> int {
    match l {
        LogLevel::Trace => 0,
        LogLevel::Debug => 1,
        LogLevel::Info => 2,
        LogLevel::Warn => 3,
        LogLevel::Error => 4,
    }
}

/// The level a name denotes, case-insensitively: the ASCII-lowercased
/// text is matched against the five names, and anything else is `Info`.
pub open spec fn spec_level_from(s: Seq<char>) -> LogLevel {
    let low = crate::store::spec_ascii_lower(s);
    if low == "trace"@ {
        LogLevel::Trace
    } else if low == "debug"@ {
        LogLevel::Debug
    } else if low == "info"@ {
        LogLevel::Info
    } else if low == "warn"@ {
        LogLevel::Warn
    } else if low == "error"@ {
        LogLevel::Error
    } else {
        LogLevel::Info
    }
}

/// The level's display name.
pub open spec fn spec_level_name(l: LogLevel) -> Seq<char> {
    match l {
        LogLevel::Trace => "TRACE"@,
        LogLevel::Debug => "DEBUG"@,
        LogLevel::Info => "INFO"@,
        LogLevel::Warn => "WARN"@,
        LogLevel::Error => "ERROR"@,
    }
}

impl LogLevel {
    /// Parse a level name case-insensitively; anything unknown is `Info`.
    pub fn from_str(s: &str) -> (r: LogLevel)
        ensures
            r == spec_level_from(s@),
    {
        let low = crate::store::ascii_lower(s);
        if str_eq(low.as_str(), "trace") {
            LogLevel::Trace
        } else if str_eq(low.as_str(), "debug") {
            LogLevel::Debug
        } else if str_eq(low.as_str(), "info") {
            LogLevel::Info
        } else if str_eq(low.as_str(), "warn") {
            LogLevel::Warn
        } else if str_eq(low.as_str(), "error") {
            LogLevel::Error
        } else {
            LogLevel::Info
        }
    }

    /// The level's display name.
    pub fn as_str(&self) -> (r: &'static str)
        ensures
            r@ == spec_level_name(*self),
    {
        match self {
            LogLevel::Trace => "TRACE",
            LogLevel::Debug => "DEBUG",
            LogLevel::Info => "INFO",
            LogLevel::Warn => "WARN",
            LogLevel::Error => "ERROR",
        }
    }
}

/// Parsing a level's display name restores the level: the display names
/// differ from the stored names only in case, and parsing folds case.
pub proof fn lemma_level_name_round_trip(l: LogLevel)
    ensures
        spec_level_from(spec_level_name(l)) == l,
{
    reveal_strlit("TRACE");
    reveal_strlit("trace");
    reveal_strlit("DEBUG");
    reveal_strlit("debug");
    reveal_strlit("INFO");
    reveal_strlit("info");
    reveal_strlit("WARN");
    reveal_strlit("warn");
    reveal_strlit("ERROR");
    reveal_strlit("error");
    lemma_upper_name_lowers("TRACE"@, "trace"@);
    lemma_upper_name_lowers("DEBUG"@, "debug"@);
    lemma_upper_name_lowers("INFO"@, "info"@);
    lemma_upper_name_lowers("WARN"@, "warn"@);
    lemma_upper_name_lowers("ERROR"@, "error"@);
    assert("trace"@ != "info"@ && "trace"@ != "warn"@);
    assert("debug"@ != "trace"@) by {
        assert(("debug"@)[0] != ("trace"@)[0]);
    }
    assert("info"@ != "trace"@ && "info"@ != "debug"@);
    assert("warn"@ != "trace"@ && "warn"@ != "debug"@ && "warn"@ != "info"@) by {
        assert(("warn"@)[0] != ("info"@)[0]);
    }
    assert("error"@ != "trace"@ && "error"@ != "debug"@ && "error"@ != "info"@ && "error"@
        != "warn"@) by {
        assert(("error"@)[0] != ("trace"@)[0]);
        assert(("error"@)[0] != ("debug"@)[0]);
    }
}

/// An all-uppercase name lowercases to its all-lowercase form, shown
/// character by character.
proof fn lemma_upper_name_lowers(upper: Seq<char>, lower: Seq<char>)
    requires
        upper.len() == lower.len(),
        forall|i: int|
            0 <= i < upper.len() ==> crate::store::spec_lower_char(#[trigger] upper[i]) == lower[i],
    ensures
        crate::store::spec_ascii_lower(upper) == lower,
{
    assert(crate::store::spec_ascii_lower(upper) =~= lower);
}

/// Whether a message at `level` passes the configured threshold.
pub fn should_log(level: LogLevel, threshold: LogLevel) -> (r: bool)
    ensures
        r == (level_rank(level) >= level_rank(threshold)),
{
    let lr: u8 = match level {
        LogLevel::Trace => 0,
        LogLevel::Debug => 1,
        LogLevel::Info => 2,
        LogLevel::Warn => 3,
        LogLevel::Error => 4,
    };
    let tr: u8 = match threshold {
        LogLevel::Trace => 0,
        LogLevel::Debug => 1,
        LogLevel::Info => 2,
        LogLevel::Warn => 3,
        LogLevel::Error => 4,
    };
    lr >= tr
}

/// One formatted log line: `ts [LEVEL] target: message`.
pub fn format_line(ts: &str, level: LogLevel, target: &str, msg: &str) -> (r: String)
    ensures
        r@ == ts@ + " ["@ + spec_level_name(level) + "] "@ + target@ + ": "@ + msg@,
{
    let mut out = ts.to_owned();
    out.append(" [");
    out.append(level.as_str());
    out.append("] ");
    out.append(target);
    out.append(": ");
    out.append(msg);
    out
}

/// The in-memory line cache and the configured threshold.
pub struct Logger {
    pub threshold: LogLevel,
    pub cache: Vec<String>,
}

/// Logger invariant: the cache never exceeds its cap.
pub open spec fn logger_wf(lg: Logger) -> bool {
    lg.cache@.len() <= MAX_CACHE_LINES
}

impl Logger {
    /// A fresh logger at the `Info` threshold.
    pub fn new() -> (r: Logger)
        ensures
            logger_wf(r),
            r.threshold == LogLevel::Info,
            r.cache@.len() == 0,
    {
        Logger { threshold: LogLevel::Info, cache: Vec::new() }
    }

    /// Set the threshold from its settings name.
    pub fn set_level_str(&mut self, s: &str)
        requires
            logger_wf(*old(self)),
        ensures
            logger_wf(*final(self)),
            final(self).cache == old(self).cache,
            final(self).threshold == spec_level_from(s@),
    {
        self.threshold = LogLevel::from_str(s);
    }

    /// Keep a line in the cache, dropping the oldest past the cap.
    pub fn push_cache(&mut self, line: String)
        requires
            logger_wf(*old(self)),
        ensures
            logger_wf(*final(self)),
            final(self).cache@.len() > 0,
            final(self).cache@.last() == line,
            final(self).threshold == old(self).threshold,
            final(self).cache@ == (old(self).cache@ + seq![line]).skip(
                old(self).cache@.len() + 1 - final(self).cache@.len(),
            ),
    {
        let ghost target = self.cache@ + seq![line];
        if self.cache.len() >= MAX_CACHE_LINES {
            let _dropped = self.cache.remove(0);
            proof {
                assert(self.cache@ + seq![line] =~= target.skip(1));
            }
        }
        let ghost drop_n = target.len() - (self.cache@.len() + 1);
        self.cache.push(line);
        proof {
            assert(self.cache@ =~= target.skip(drop_n));
        }
    }

    /// The most recent `n` cached lines, oldest first.
    pub fn tail(&self, n: usize) -> (r: Vec<String>)
        ensures
            r@.len() == if n <= self.cache@.len() {
                n as int
            } else {
                self.cache@.len() as int
            },
            forall|j: int|
                0 <= j < r@.len() ==> #[trigger] r@[j] == self.cache@[self.cache@.len() - r@.len()
                    + j],
    {
        let len: usize = self.cache.len();
        let start: usize = if n <= len {
            len - n
        } else {
            0
        };
        let mut out: Vec<String> = Vec::new();
        let mut k: usize = start;
        while k < len
            invariant
                len == self.cache@.len(),
                start <= k <= len,
                out@.len() == k - start,
                forall|j: int| 0 <= j < out@.len() ==> #[trigger] out@[j] == self.cache@[start + j],
            decreases len - k,
        {
            out.push(self.cache[k].clone());
            k += 1;
        }
        out
    }

    /// Drop every cached line.
    pub fn clear(&mut self)
        ensures
            logger_wf(*final(self)),
            final(self).cache@.len() == 0,
            final(self).threshold == old(self).threshold,
    {
        self.cache.clear();
    }
}


/// Record one message: when the level passes the threshold, the formatted
/// line is cached and returned for the caller to append to the file and
/// emit; below the threshold nothing happens.
pub fn log(lg: &mut Logger, level: LogLevel, ts: &str, target: &str, msg: &str) -> (r: Option<
    String,
>)
    requires
        logger_wf(*old(lg)),
    ensures
        logger_wf(*final(lg)),
        r is Some <==> level_rank(level) >= level_rank(old(lg).threshold),
        r matches Some(line) ==> {
            &&& line@ == ts@ + " ["@ + spec_level_name(level) + "] "@ + target@ + ": "@ + msg@
            &&& final(lg).cache@.len() > 0
            &&& final(lg).cache@.last()@ == line@
        },
        r is None ==> *final(lg) == *old(lg),
        final(lg).threshold == old(lg).threshold,
{
    if !should_log(level, lg.threshold) {
        return None;
    }
    let line = format_line(ts, level, target, msg);
    lg.push_cache(line.clone());
    Some(line)
}

/// Record a trace-level message.
pub fn trace(lg: &mut Logger, ts: &str, target: &str, msg: &str) -> (r: Option<String>)
    requires
        logger_wf(*old(lg)),
    ensures
        logger_wf(*final(lg)),
        r is Some <==> level_rank(LogLevel::Trace) >= level_rank(old(lg).threshold),
        r matches Some(line) ==> {
            &&& line@ == ts@ + " ["@ + spec_level_name(LogLevel::Trace) + "] "@ + target@
                + ": "@ + msg@
            &&& final(lg).cache@.len() > 0
            &&& final(lg).cache@.last()@ == line@
        },
        r is None ==> *final(lg) == *old(lg),
        final(lg).threshold == old(lg).threshold,
{
    log(lg, LogLevel::Trace, ts, target, msg)
}

/// Record a debug-level message.
pub fn debug(lg: &mut Logger, ts: &str, target: &str, msg: &str) -> (r: Option<String>)
    requires
        logger_wf(*old(lg)),
    ensures
        logger_wf(*final(lg)),
        r is Some <==> level_rank(LogLevel::Debug) >= level_rank(old(lg).threshold),
        r matches Some(line) ==> {
            &&& line@ == ts@ + " ["@ + spec_level_name(LogLevel::Debug) + "] "@ + target@
                + ": "@ + msg@
            &&& final(lg).cache@.len() > 0
            &&& final(lg).cache@.last()@ == line@
        },
        r is None ==> *final(lg) == *old(lg),
        final(lg).threshold == old(lg).threshold,
{
    log(lg, LogLevel::Debug, ts, target, msg)
}

/// Record an info-level message.
pub fn info(lg: &mut Logger, ts: &str, target: &str, msg: &str) -> (r: Option<String>)
    requires
        logger_wf(*old(lg)),
    ensures
        logger_wf(*final(lg)),
        r is Some <==> level_rank(LogLevel::Info) >= level_rank(old(lg).threshold),
        r matches Some(line) ==> {
            &&& line@ == ts@ + " ["@ + spec_level_name(LogLevel::Info) + "] "@ + target@
                + ": "@ + msg@
            &&& final(lg).cache@.len() > 0
            &&& final(lg).cache@.last()@ == line@
        },
        r is None ==> *final(lg) == *old(lg),
        final(lg).threshold == old(lg).threshold,
{
    log(lg, LogLevel::Info, ts, target, msg)
}

/// Record a warning.
pub fn warn(lg: &mut Logger, ts: &str, target: &str, msg: &str) -> (r: Option<String>)
    requires
        logger_wf(*old(lg)),
    ensures
        logger_wf(*final(lg)),
        r is Some <==> level_rank(LogLevel::Warn) >= level_rank(old(lg).threshold),
        r matches Some(line) ==> {
            &&& line@ == ts@ + " ["@ + spec_level_name(LogLevel::Warn) + "] "@ + target@
                + ": "@ + msg@
            &&& final(lg).cache@.len() > 0
            &&& final(lg).cache@.last()@ == line@
        },
        r is None ==> *final(lg) == *old(lg),
        final(lg).threshold == old(lg).threshold,
{
    log(lg, LogLevel::Warn, ts, target, msg)
}

/// Record an error message.
pub fn error(lg: &mut Logger, ts: &str, target: &str, msg: &str) -> (r: Option<String>)
    requires
        logger_wf(*old(lg)),
    ensures
        logger_wf(*final(lg)),
        r is Some <==> level_rank(LogLevel::Error) >= level_rank(old(lg).threshold),
        r matches Some(line) ==> {
            &&& line@ == ts@ + " ["@ + spec_level_name(LogLevel::Error) + "] "@ + target@
                + ": "@ + msg@
            &&& final(lg).cache@.len() > 0
            &&& final(lg).cache@.last()@ == line@
        },
        r is None ==> *final(lg) == *old(lg),
        final(lg).threshold == old(lg).threshold,
{
    log(lg, LogLevel::Error, ts, target, msg)
}

/// The clamp decision for the rolling log file: when the file exceeds the
/// cap, keep its most recent half (by byte offset); otherwise leave it.
pub fn clamp_keep_range(file_len: u64) -> (r: Option<(u64, u64)>)
    ensures
        match r {
            None => file_len <= MAX_LOG_BYTES,
            Some((start, keep)) => file_len > MAX_LOG_BYTES && keep == MAX_LOG_BYTES / 2 && start
                == file_len - keep,
        },
{
    if file_len <= MAX_LOG_BYTES {
        None
    } else {
        let keep: u64 = MAX_LOG_BYTES / 2;
        Some((file_len - keep, keep))
    }
}

} // verus!
