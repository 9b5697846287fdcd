//! Logging options: how verbose the log is, how it is laid out, and which
//! moments of a span's life are logged at a given verbosity.

use vstd::prelude::*;

verus! {

/// Layout of the log lines on standard error.
#[derive(Clone, Copy, Debug, PartialEq, Eq, PartialOrd, Ord, Structural)]
pub enum LogFormat {
    Compact,
    Pretty,
    JSON,
}

/// How much is logged, from least to most.
#[derive(Clone, Copy, Debug, PartialEq, Eq, Structural)]
pub enum Verbosity {
    Error,
    Warn,
    Info,
    Debug,
    Trace,
}

/// Which moments of a span's life are logged.
#[derive(Clone, Copy, Debug, PartialEq, Eq, Structural)]
pub enum SpanEvents {
    /// When a span is created and when it is closed.
    NewAndClose,
    /// Also every time a span is entered or left.
    Full,
}

/// The logging options.
#[derive(Clone, Copy, Debug, PartialEq, Eq, Structural)]
pub struct LogArgs {
    /// Verbosity logging level
    pub verbosity: Verbosity,
    /// Log format type on stderr.
    pub log_format: LogFormat,
}

impl Default for LogArgs {
    /// Warnings and errors, in the compact layout.
    fn default() -> (args: LogArgs)
        ensures
            args.verbosity == Verbosity::Warn,
            args.log_format == LogFormat::Compact,
    {
        LogArgs { verbosity: Verbosity::Warn, log_format: LogFormat::Compact }
    }
}

impl LogArgs {
    /// The span events for a verbosity: entering and leaving spans is
    /// logged only when debugging or tracing.
    pub open spec fn span_events_spec(&self) -> SpanEvents {
        match self.verbosity {
            Verbosity::Debug => SpanEvents::Full,
            Verbosity::Trace => SpanEvents::Full,
            _ => SpanEvents::NewAndClose,
        }
    }

    /// Which span events the logger is to be set up with.
    #[verifier::when_used_as_spec(span_events_spec)]
    pub fn span_events(&self) -> (events: SpanEvents)
        ensures
            events == self.span_events_spec(),
    {
        match self.verbosity {
            Verbosity::Error => SpanEvents::NewAndClose,
            Verbosity::Warn => SpanEvents::NewAndClose,
            Verbosity::Info => SpanEvents::NewAndClose,
            Verbosity::Debug => SpanEvents::Full,
            Verbosity::Trace => SpanEvents::Full,
        }
    }
}

} // verus!
