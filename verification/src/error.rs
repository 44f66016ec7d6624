//! Errors of a node's lifecycle phases, with the moment they were captured.

use vstd::prelude::*;

verus! {

/// Nanoseconds in a second.
pub const NANOS_PER_SECOND: u64 = 1_000_000_000;

/// A point on a monotonic clock, in nanoseconds since the clock started.
#[derive(Clone, Copy, Debug, PartialEq, Eq, Structural)]
pub struct Moment {
    pub nanos: u64,
}

/// Why an update of a node failed.
#[derive(Clone, Debug, PartialEq)]
pub enum UpdateError {
    /// A file could not be read or is missing.
    IoError(String),
    /// Shader or expression text is not well formed.
    ParseError(String),
    /// The render backend rejected a shader that was parsed.
    CompileError(String),
}

impl UpdateError {
    /// The text of the error.
    pub open spec fn message_spec(self) -> String {
        match self {
            UpdateError::IoError(m) => m,
            UpdateError::ParseError(m) => m,
            UpdateError::CompileError(m) => m,
        }
    }

    /// The text of the error.
    pub fn message(&self) -> (r: String)
        ensures
            r == self.message_spec(),
    {
        match self {
            UpdateError::IoError(m) => m.clone(),
            UpdateError::ParseError(m) => m.clone(),
            UpdateError::CompileError(m) => m.clone(),
        }
    }
}

/// An error of one phase of a node, with the moment it was captured.
///
/// The engine never ages an error out: it stays until the next outcome of
/// the same phase replaces it. `elapsed` and `is_recent` serve whoever
/// presents it.
#[derive(Clone, Debug, PartialEq)]
pub struct NodeError {
    pub text: String,
    pub when: Moment,
}

/// Nanoseconds from `when` to `now`; zero where `now` is not later.
pub open spec fn elapsed_nanos(when: Moment, now: Moment) -> int {
    if now.nanos >= when.nanos {
        now.nanos - when.nanos
    } else {
        0
    }
}

impl NodeError {
    /// An error captured at `when`.
    pub fn new(text: String, when: Moment) -> (r: Self)
        ensures
            r.text == text,
            r.when == when,
    {
        NodeError { text, when }
    }

    /// The error that records a failed update at `when`.
    pub fn from_update(error: &UpdateError, when: Moment) -> (r: Self)
        ensures
            r.text == error.message_spec(),
            r.when == when,
    {
        NodeError { text: error.message(), when }
    }

    /// Nanoseconds since the error was captured.
    pub fn elapsed(&self, now: Moment) -> (r: u64)
        ensures
            r == elapsed_nanos(self.when, now),
    {
        if now.nanos >= self.when.nanos {
            now.nanos - self.when.nanos
        } else {
            0
        }
    }

    /// Whether the error was captured less than a second ago.
    pub fn is_recent(&self, now: Moment) -> (r: bool)
        ensures
            r == (elapsed_nanos(self.when, now) < NANOS_PER_SECOND),
    {
        self.elapsed(now) < NANOS_PER_SECOND
    }
}

} // verus!
