//! Cancelling a run.

use vstd::prelude::*;

verus! {

/// Whether the user has cancelled the run that is under way. A run puts the flag
/// down when it starts, and looks at it when a command has ended, when the
/// installation of a plugin has ended, and before each plugin: once it is up, no
/// further plugin is started.
pub struct CancelFlag {
    pub cancelled: bool,
}

/// Puts the flag up.
pub fn mark_cancelled(flag: &mut CancelFlag)
    ensures
        final(flag).cancelled,
{
    flag.cancelled = true;
}

} // verus!
