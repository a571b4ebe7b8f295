use vstd::prelude::*;

verus! {

/// Why a run ends without having done what was asked of it.
#[derive(Clone, Copy, Debug, PartialEq, Eq, Structural)]
pub enum Failure {
    /// The display server could not be queried.
    DisplayUnavailable,
    /// The display server reports no connected output.
    NoOutputs,
    /// No output is primary, and the run was to report the primary one.
    NoPrimary,
    /// The selection could not be read.
    InputUnreadable,
    /// The selection is no number of a listed output.
    InvalidSelection,
    /// The display server did not make the chosen output primary.
    ApplyFailed,
}

} // verus!
