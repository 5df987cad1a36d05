//! A logging sink that prepares log records for an operating system's
//! debug-output channel: it filters records against a severity threshold,
//! renders each record as a single line of text, and encodes that line in
//! the null-terminated wide-character form the channel expects.

use vstd::prelude::*;

pub mod codecvt;
pub mod format;

use crate::codecvt::{has_nul, is_c_wstr, str_to_c_wstr, wide_units};
use crate::format::{format_body, spec_body, Record};

verus! {

/// Severity of a log record. `Error` is the most severe; a smaller rank
/// means a more severe level, so a threshold of `Trace` admits everything.
#[derive(Clone, Copy, PartialEq, Eq, Structural, Debug)]
pub enum Level {
    Error,
    Warn,
    Info,
    Debug,
    Trace,
}

impl Level {
    /// The numeric rank of the level: `Error` is 1, `Trace` is 5.
    pub open spec fn rank(self) -> int {
        match self {
            Level::Error => 1,
            Level::Warn => 2,
            Level::Info => 3,
            Level::Debug => 4,
            Level::Trace => 5,
        }
    }

    /// The rank as a machine integer, for threshold comparisons.
    pub fn as_u32(&self) -> (n: u32)
        ensures
            n == self.rank(),
    {
        match self {
            Level::Error => 1,
            Level::Warn => 2,
            Level::Info => 3,
            Level::Debug => 4,
            Level::Trace => 5,
        }
    }
}

/// Prepares the body of one record for the debug-output channel: resolves
/// the category, renders the body line and encodes it as a null-terminated
/// wide string. Fails exactly when the body holds an embedded null, in
/// which case nothing is to be emitted.
pub fn log(record: &Record) -> (r: Option<Vec<u16>>)
    ensures
        match r {
            Some(v) => {
                &&& !has_nul(spec_body(*record))
                &&& v@ == wide_units(spec_body(*record)) + seq![0u16]
                &&& is_c_wstr(v@)
            },
            None => has_nul(spec_body(*record)),
        },
{
    let body = format_body(record);
    str_to_c_wstr(body.as_str())
}

/// The sink itself: a severity threshold, fixed at construction.
#[derive(Debug)]
pub struct WinDebugLogger {
    pub level: Level,
}

impl WinDebugLogger {
    /// A record of this severity passes the threshold: its level is at
    /// most as verbose as the configured one.
    pub open spec fn spec_enabled(self, level: Level) -> bool {
        level.rank() <= self.level.rank()
    }

    /// Whether a record of the given severity is emitted at all.
    pub fn enabled(&self, level: Level) -> (r: bool)
        ensures
            r == self.spec_enabled(level),
    {
        level.as_u32() <= self.level.as_u32()
    }

    /// Filters one record against the threshold and, when it passes,
    /// prepares its encoded body line. Yields nothing for a filtered
    /// record, and nothing for a body that cannot be encoded: in either
    /// case no debug-output call is to be made.
    pub fn log(&self, record: &Record) -> (r: Option<Vec<u16>>)
        ensures
            !self.spec_enabled(record.level) ==> r is None,
            self.spec_enabled(record.level) ==> match r {
                Some(v) => {
                    &&& !has_nul(spec_body(*record))
                    &&& v@ == wide_units(spec_body(*record)) + seq![0u16]
                    &&& is_c_wstr(v@)
                },
                None => has_nul(spec_body(*record)),
            },
    {
        if !self.enabled(record.level) {
            return None;
        }
        log(record)
    }

    /// The sink buffers nothing, so there is nothing to flush.
    pub fn flush(&self) {
    }
}

/// The failure of an initialization entry point: a logger is already
/// registered for this process.
#[derive(Debug, PartialEq, Eq, Structural)]
pub struct SetLoggerError;

/// The process-wide one-shot registration state: whether a logger has
/// already been installed.
pub struct LoggerRegistry {
    initialized: bool,
}

impl LoggerRegistry {
    /// Whether a logger has been installed through this registry.
    pub closed spec fn is_initialized(self) -> bool {
        self.initialized
    }

    /// A fresh registry: no logger installed yet.
    pub fn new() -> (r: Self)
        ensures
            !r.is_initialized(),
    {
        LoggerRegistry { initialized: false }
    }
}

/// Installs the sink with the given severity threshold. Succeeds and
/// yields the logger to register exactly when no logger was installed
/// before; a second initialization fails and changes nothing.
pub fn init_with_level(registry: &mut LoggerRegistry, level: Level) -> (r: Result<
    WinDebugLogger,
    SetLoggerError,
>)
    ensures
        old(registry).is_initialized() ==> r is Err && *final(registry) == *old(registry),
        !old(registry).is_initialized() ==> {
            &&& (r matches Ok(l) && l.level == level)
            &&& final(registry).is_initialized()
        },
{
    if registry.initialized {
        return Err(SetLoggerError);
    }
    registry.initialized = true;
    Ok(WinDebugLogger { level })
}

/// Installs the sink with the most verbose threshold, so that every
/// record is emitted. Succeeds exactly when no logger was installed
/// before; a second initialization fails and changes nothing.
pub fn init(registry: &mut LoggerRegistry) -> (r: Result<WinDebugLogger, SetLoggerError>)
    ensures
        old(registry).is_initialized() ==> r is Err && *final(registry) == *old(registry),
        !old(registry).is_initialized() ==> {
            &&& (r matches Ok(l) && l.level == Level::Trace)
            &&& final(registry).is_initialized()
        },
{
    init_with_level(registry, Level::Trace)
}

} // verus!
