//! Hover "peek" of the panel: opened by hover, it closes on mouse-leave after
//! a debounce unless pinned, mid-drag, or re-entered meanwhile.

use vstd::prelude::*;

verus! {

/// The peek-related part of the panel state.
#[derive(Debug, Clone, Copy, PartialEq, Eq)]
pub struct PeekState {
    /// Opened by hotkey/bar click (stays) rather than by hover (peek).
    pub pinned: bool,
    /// A resize drag is active.
    pub resizing: bool,
    /// Bumped on every hover-enter; a pending close fires only if unchanged.
    pub generation: u64,
}

/// The generation after one hover-enter (wrapping at `u64::MAX`).
pub open spec fn next_generation(g: u64) -> u64 {
    if g == u64::MAX {
        0
    } else {
        (g + 1) as u64
    }
}

impl PeekState {
    /// A closed, unpinned panel with no drag and generation zero.
    pub fn new() -> (r: PeekState)
        ensures
            !r.pinned,
            !r.resizing,
            r.generation == 0,
    {
        PeekState { pinned: false, resizing: false, generation: 0 }
    }

    /// Should a peek-leave request close the panel? Never while pinned, and
    /// never during a resize drag (a destroyed surface would break the
    /// hover strip's enter events).
    pub fn should_close_on_peek_leave(&self) -> (r: bool)
        ensures
            r == (!self.pinned && !self.resizing),
    {
        !self.pinned && !self.resizing
    }

    /// Cursor entered the strip or the panel: cancels any pending close.
    pub fn hold(&mut self)
        ensures
            final(self).generation == next_generation(old(self).generation),
            final(self).pinned == old(self).pinned,
            final(self).resizing == old(self).resizing,
    {
        self.generation = self.generation.wrapping_add(1);
    }

    /// Cursor left: the ticket a delayed close carries.
    pub fn release_ticket(&self) -> (r: u64)
        ensures
            r == self.generation,
    {
        self.generation
    }

    /// When the debounce of `ticket` ends: close only if no hover-enter came
    /// since and the panel may close on leave.
    pub fn release_due(&self, ticket: u64) -> (r: bool)
        ensures
            r == (self.generation == ticket && !self.pinned && !self.resizing),
    {
        self.generation == ticket && self.should_close_on_peek_leave()
    }
}

/// A hover-enter after a leave cancels that leave's close: one `hold`
/// moves the generation away from every ticket taken before it.
pub proof fn lemma_hold_cancels_release(g: u64)
    ensures
        next_generation(g) != g,
{
}

} // verus!
