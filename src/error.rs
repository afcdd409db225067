//! The failures that the resolution engine and the render scheduler report.
use vstd::prelude::*;

verus! {

/// Every failure surfaces to the caller; none is swallowed.
#[derive(Debug, PartialEq, Eq)]
pub enum Error {
    /// No search root held an entry matching the query, which is named here.
    NotFound(String),
    /// The path has no base name to take a stem from (empty, or `..`).
    NoBaseName(String),
    /// A path component is not valid text.
    NonTextPath(String),
    /// The external process could not be started.
    LaunchFailure(String),
    /// Reading the operator's answer failed.
    InputFailure(String),
    /// The channel between the interrupt handler and the scheduler was severed.
    HandoffFailure,
    /// The engines file is not a valid document; the parser's message.
    BadEngineFile(String),
    /// An engine setting, named here, lacks its value or names no known kind.
    BadEngineSetting(String),
    /// The autoload file could not be read; the reader's message.
    BadAutoloadFile(String),
}

} // verus!
