//! Verbose diagnostics: whether they are on, and the line written for a message.
use vstd::prelude::*;

use crate::error::concat;

verus! {

/// Whether verbose diagnostics are written.
#[derive(Debug, Clone, Copy)]
pub struct Diagnostics {
    verbose: bool,
}

impl Diagnostics {
    /// Diagnostics that are written exactly when `verbose` holds.
    pub fn new(verbose: bool) -> (r: Self)
        ensures
            r.is_verbose() == verbose,
    {
        Diagnostics { verbose }
    }

    /// Whether diagnostics are written.
    pub closed spec fn is_verbose(self) -> bool {
        self.verbose
    }

    /// Whether diagnostics are written.
    pub fn verbose(&self) -> (r: bool)
        ensures
            r == self.is_verbose(),
    {
        self.verbose
    }

    /// The line written to standard error for `message`: `[verbose] ` and the
    /// message when diagnostics are on, nothing when they are off.
    pub fn log_line(&self, message: &str) -> (r: Option<String>)
        ensures
            self.is_verbose() ==> r is Some && r->0@ == "[verbose] "@ + message@,
            !self.is_verbose() ==> r is None,
    {
        if self.verbose {
            Some(concat("[verbose] ", message))
        } else {
            None
        }
    }
}

} // verus!
