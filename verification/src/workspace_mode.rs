//! The shell's workspace mode, which picks the default rail.

use vstd::prelude::*;

verus! {

#[derive(Debug, Clone, Copy, PartialEq, Eq, Hash, Structural)]
pub enum WorkspaceMode {
    Developer,
    Gamer,
}

/// Developer ⇄ Gamer.
pub open spec fn other_mode(m: WorkspaceMode) -> WorkspaceMode {
    match m {
        WorkspaceMode::Developer => WorkspaceMode::Gamer,
        WorkspaceMode::Gamer => WorkspaceMode::Developer,
    }
}

impl WorkspaceMode {
    /// The mode the rail's mode button switches to.
    pub fn other(self) -> (r: WorkspaceMode)
        ensures
            r == other_mode(self),
    {
        match self {
            WorkspaceMode::Developer => WorkspaceMode::Gamer,
            WorkspaceMode::Gamer => WorkspaceMode::Developer,
        }
    }
}

/// Two clicks of the mode button come back to the starting mode, and one
/// click always changes it.
pub proof fn lemma_other_twice(m: WorkspaceMode)
    ensures
        other_mode(other_mode(m)) == m,
        other_mode(m) != m,
{
}

} // verus!
