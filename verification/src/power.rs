//! Power actions offered by the launcher's power row.

use vstd::prelude::*;

verus! {

#[derive(Debug, Clone, Copy, PartialEq, Eq, Hash, Structural)]
pub enum PowerAction {
    Lock,
    LogOut,
    Sleep,
    Hibernate,
    Restart,
    Shutdown,
}

} // verus!
