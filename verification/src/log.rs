//! The diagnostic sink that the device layer writes to.
use vstd::prelude::*;
use vstd::string::StringExecFns;

verus! {

/// How grave a message is; a sink passes on the messages of its own level and
/// of the levels before it.
#[derive(Clone, Copy, Debug, PartialEq, Eq, Structural)]
pub enum LogLevel {
    Off,
    Fatal,
    Error,
    Warn,
    Info,
    Debug,
    Trace,
}

impl LogLevel {
    /// Position of the level, from 0 for `Off` to 6 for `Trace`.
    pub open spec fn spec_rank(self) -> nat {
        match self {
            LogLevel::Off => 0,
            LogLevel::Fatal => 1,
            LogLevel::Error => 2,
            LogLevel::Warn => 3,
            LogLevel::Info => 4,
            LogLevel::Debug => 5,
            LogLevel::Trace => 6,
        }
    }

    /// Position of the level, from 0 for `Off` to 6 for `Trace`.
    pub fn rank(self) -> (r: u8)
        ensures
            r == self.spec_rank(),
    {
        match self {
            LogLevel::Off => 0,
            LogLevel::Fatal => 1,
            LogLevel::Error => 2,
            LogLevel::Warn => 3,
            LogLevel::Info => 4,
            LogLevel::Debug => 5,
            LogLevel::Trace => 6,
        }
    }

    /// The name that the level is printed under.
    pub open spec fn spec_name(self) -> Seq<char> {
        match self {
            LogLevel::Off => "PL_LOG_NONE"@,
            LogLevel::Fatal => "PL_LOG_FATAL"@,
            LogLevel::Error => "PL_LOG_ERR"@,
            LogLevel::Warn => "PL_LOG_WARN"@,
            LogLevel::Info => "PL_LOG_INFO"@,
            LogLevel::Debug => "PL_LOG_DEBUG"@,
            LogLevel::Trace => "PL_LOG_TRACE"@,
        }
    }

    /// The name that the level is printed under.
    pub fn name(self) -> (s: &'static str)
        ensures
            s@ == self.spec_name(),
    {
        match self {
            LogLevel::Off => "PL_LOG_NONE",
            LogLevel::Fatal => "PL_LOG_FATAL",
            LogLevel::Error => "PL_LOG_ERR",
            LogLevel::Warn => "PL_LOG_WARN",
            LogLevel::Info => "PL_LOG_INFO",
            LogLevel::Debug => "PL_LOG_DEBUG",
            LogLevel::Trace => "PL_LOG_TRACE",
        }
    }
}

/// The line that is printed for a message `msg` of level `level`.
pub open spec fn spec_log_line(level: LogLevel, msg: Seq<char>) -> Seq<char> {
    "[libplacebo] ["@ + level.spec_name() + "] "@ + msg
}

/// The line that is printed for a message `msg` of level `level`.
pub fn log_line(level: LogLevel, msg: &str) -> (line: String)
    ensures
        line@ == spec_log_line(level, msg@),
{
    let mut line = String::from_str("[libplacebo] [");
    line.append(level.name());
    line.append("] ");
    line.append(msg);
    line
}

/// How a sink is set up.
#[derive(Clone, Copy, Debug, PartialEq, Eq, Structural)]
pub struct LogParams {
    /// The last level whose messages are passed on.
    pub log_level: LogLevel,
}

impl Default for LogParams {
    /// A sink that passes on errors and nothing less grave.
    fn default() -> (r: Self)
        ensures
            r.log_level == LogLevel::Error,
    {
        LogParams { log_level: LogLevel::Error }
    }
}

/// A diagnostic sink of the device layer.
#[derive(Debug, PartialEq, Eq)]
pub struct Log {
    handle: usize,
    params: LogParams,
}

impl Log {
    /// The handle the device layer knows the sink by.
    pub closed spec fn spec_handle(self) -> usize {
        self.handle
    }

    pub closed spec fn spec_params(self) -> LogParams {
        self.params
    }

    /// The sink behind `handle`, which was set up with `params`; `None` for
    /// the null handle, which stands for no sink.
    #[must_use]
    pub fn new(handle: usize, params: LogParams) -> (r: Option<Self>)
        ensures
            r.is_some() <==> handle != 0,
            r.is_some() ==> r.unwrap().spec_handle() == handle && r.unwrap().spec_params()
                == params,
    {
        if handle == 0 {
            None
        } else {
            Some(Log { handle, params })
        }
    }

    #[must_use]
    pub fn as_ptr(&self) -> (r: usize)
        ensures
            r == self.spec_handle(),
    {
        self.handle
    }

    /// The last level whose messages the sink passes on.
    #[must_use]
    pub fn log_level(&self) -> (r: LogLevel)
        ensures
            r == self.spec_params().log_level,
    {
        self.params.log_level
    }

    /// Whether the sink passes on a message of `level`.
    pub fn passes(&self, level: LogLevel) -> (b: bool)
        ensures
            b <==> 0 < level.spec_rank() <= self.spec_params().log_level.spec_rank(),
    {
        let r: u8 = level.rank();
        0 < r && r <= self.params.log_level.rank()
    }
}

} // verus!
