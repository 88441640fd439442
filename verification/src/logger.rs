//! Indentation and verbosity state for a line-oriented tree printer.
//!
//! The printing itself is I/O and lives with the caller; this type only
//! tracks the verbosity threshold and the current indentation, which grows
//! and shrinks as the decoder enters and leaves containers.

use vstd::prelude::*;

verus! {

pub type LogLevel = u32;

pub const LOG_LEVEL_NONE: LogLevel = 0;

pub const LOG_LEVEL_INFO: LogLevel = 1;

pub const LOG_LEVEL_DEBUG: LogLevel = 2;

pub const LOG_LEVEL_TRACE: LogLevel = 3;

/// Printer state: a verbosity threshold and the current indentation width
/// in spaces.
#[derive(Debug, Clone, Copy, PartialEq, Eq, Structural)]
pub struct Logger {
    pub verbosity: LogLevel,
    pub indent: usize,
}

impl Logger {
    pub fn new(verbosity: LogLevel) -> (r: Self)
        ensures
            r.verbosity == verbosity,
            r.indent == 4,
    {
        Self { verbosity, indent: 4 }
    }

    /// One level deeper: four more columns.
    pub fn increase_indent(&mut self)
        requires
            old(self).indent + 4 <= usize::MAX,
        ensures
            final(self).indent == old(self).indent + 4,
            final(self).verbosity == old(self).verbosity,
    {
        self.indent = self.indent + 4;
    }

    /// One level back out: four fewer columns.
    pub fn decrease_indent(&mut self)
        requires
            old(self).indent >= 4,
        ensures
            final(self).indent == old(self).indent - 4,
            final(self).verbosity == old(self).verbosity,
    {
        self.indent = self.indent - 4;
    }
}

} // verus!
