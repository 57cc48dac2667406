//! The first-run audio notice's outcome: with no output device, everything
//! but playback still works, and the user may look for one again.

use vstd::prelude::*;

verus! {

/// What the user decided about a missing output device.
#[derive(Clone, Copy, Debug, PartialEq, Eq, Structural)]
pub enum Decision {
    /// Look for an output device again.
    Retry,
    /// Carry on without playback. Not asked again this session.
    Continue,
}

} // verus!
