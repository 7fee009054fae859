//! Options that shape the user-visible output of a run.

use vstd::prelude::*;

verus! {

/// Output format for the outdated-action messages.
#[derive(Copy, Clone, Debug, PartialEq, Eq, Structural)]
pub enum OutputFormat {
    /// Plain one-line reports.
    Standard,
    /// Messages in the source host's warning syntax.
    GithubWarning,
}

impl Default for OutputFormat {
    fn default() -> (r: Self)
        ensures
            r is Standard,
    {
        OutputFormat::Standard
    }
}

} // verus!
