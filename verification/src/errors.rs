//! The launcher's failure taxonomy.  Every failure aborts the whole
//! invocation; there is no local recovery anywhere in the core.

use vstd::prelude::*;

verus! {

/// A fatal launcher-level failure.
#[derive(Debug, PartialEq, Eq)]
pub enum LaunchError {
    /// A command-line token began with the system-option prefix but matched
    /// no recognized option, or a token that must be followed by a value
    /// stood last.  Carries the offending token.
    UnsupportedOption(String),
    /// No runtime executable could be discovered on the search path and no
    /// fallback environment variable pointed at one.
    RuntimeNotFound,
    /// Neither the dedicated configuration variables nor any home-directory
    /// fallback was set.
    EnvironmentUnresolved,
    /// The external resolver process exited with a non-zero status; carries
    /// that status.
    ResolutionFailed(i32),
    /// The resolver exited successfully but did not write the mandatory
    /// classpath artifact: a contract violation by the resolver.
    ResolutionIncomplete,
}

} // verus!
