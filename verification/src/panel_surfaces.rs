//! The panel's two layer-shell surfaces (rail and content) open together
//! or not at all.

use vstd::prelude::*;

verus! {

/// Outcome of opening the rail after the content surface opened.
#[derive(Debug, Clone, Copy, PartialEq, Eq, Structural)]
pub enum TwoSurfaceOpen {
    /// Both surfaces are up: keep both handles.
    CommitBoth,
    /// The rail failed: close the content surface again.
    RollbackContent,
}

/// Never one surface without the other.
pub fn two_surface_open_outcome(rail_opened: bool) -> (r: TwoSurfaceOpen)
    ensures
        r == (if rail_opened {
            TwoSurfaceOpen::CommitBoth
        } else {
            TwoSurfaceOpen::RollbackContent
        }),
{
    if rail_opened {
        TwoSurfaceOpen::CommitBoth
    } else {
        TwoSurfaceOpen::RollbackContent
    }
}

} // verus!
