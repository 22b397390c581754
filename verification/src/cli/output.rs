//! How results are printed.

use vstd::prelude::*;

verus! {

/// How results are printed.
#[derive(Debug, Clone, Copy, PartialEq, Eq, Structural)]
pub enum OutputMode {
    Human,
    Verbose,
    Json,
}

/// The mode that the flags of the command line ask for. JSON is for programs to read, and has no
/// verbose form.
pub open spec fn mode_of(json: bool, verbose: bool) -> OutputMode {
    if json {
        OutputMode::Json
    } else if verbose {
        OutputMode::Verbose
    } else {
        OutputMode::Human
    }
}

impl OutputMode {
    /// The mode that the flags of the command line ask for.
    pub fn from_flags(json: bool, verbose: bool) -> (mode: OutputMode)
        ensures
            mode == mode_of(json, verbose),
    {
        if json {
            OutputMode::Json
        } else if verbose {
            OutputMode::Verbose
        } else {
            OutputMode::Human
        }
    }
}

} // verus!
