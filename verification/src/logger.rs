//! The message-sink capability handed to a resolution run.
//!
//! The resolver itself is pure: it only reports its accumulated diagnostics
//! through a [`Logger`] at the end of a run, never mid-algorithm. Sinks that
//! write to a console live outside this crate; [`NullLogger`] is the sink
//! that discards everything.

use vstd::prelude::*;

use crate::diag::DiagnosticResult;
use crate::model::Diagnostic;
use crate::model::Severity;

verus! {

/// A leveled message sink with presentation affordances.
pub trait Logger {
    /// Logs a trace message (only with debug enabled).
    fn trace(&self, message: &str);

    /// Logs an info message.
    fn info(&self, message: &str);

    /// Logs a warning message.
    fn warn(&self, message: &str);

    /// Logs an error message.
    fn error(&self, message: &str);

    /// Logs a success message.
    fn success(&self, message: &str);

    /// Logs a newline.
    fn newline(&self, count: usize);

    /// Indents the logger.
    fn indent(&self, count: usize);

    /// Stops a loading message.
    fn done(&self);

    /// Adds a style to the logger.
    fn add_style(&self, name: &str, styles: Vec<&'static str>) -> &Self;

    /// Logs a loading message with a spinner.
    fn loading(&self, message: &str);

    /// Forces the logger to not print a newline for the next message.
    fn same(&self) -> &Self;

    /// Logs a message without icon.
    fn log(&self, message: &str);
}

/// A logger that does not log anything.
#[derive(Default, Clone)]
pub struct NullLogger {}

impl NullLogger {
    /// Creates a new logger.
    #[must_use]
    pub fn new() -> (r: Self)
        ensures
            r == (NullLogger {  }),
    {
        NullLogger {  }
    }
}

impl Logger for NullLogger {
    fn trace(&self, _message: &str) {
    }

    fn info(&self, _message: &str) {
    }

    fn warn(&self, _message: &str) {
    }

    fn error(&self, _message: &str) {
    }

    fn success(&self, _message: &str) {
    }

    fn newline(&self, _count: usize) {
    }

    fn indent(&self, _count: usize) {
    }

    fn done(&self) {
    }

    fn add_style(&self, _name: &str, _styles: Vec<&'static str>) -> &Self {
        self
    }

    fn loading(&self, _message: &str) {
    }

    fn same(&self) -> &Self {
        self
    }

    fn log(&self, _message: &str) {
    }
}

/// Reports every accumulated diagnostic of a finished run through the given
/// sink: warnings through its warning level, errors through its error
/// level, in accumulation order. This is the one place resolution output
/// meets a sink.
pub fn report_diagnostics<L: Logger>(logger: &L, result: &DiagnosticResult<Diagnostic>) {
    let mut i: usize = 0;
    while i < result.messages.len()
        decreases result.messages@.len() - i,
    {
        let d = &result.messages[i];
        let text = d.message();
        match d.severity {
            Severity::Warning => logger.warn(text.as_str()),
            Severity::Error => logger.error(text.as_str()),
        }
        i = i + 1;
    }
}

} // verus!
