//! Panel header — the active window title.

use vstd::prelude::*;

use crate::text;

verus! {

/// The focused window as the compositor reports it.
#[derive(Debug, Clone, PartialEq, Eq, Default)]
pub struct ActiveWindow {
    pub title: String,
    pub class: String,
    pub address: String,
}

/// Shown when no window has focus. Never a faked window class.
pub open spec fn no_active_window() -> Seq<char> {
    "Desktop"@
}

/// The title the header renders: the focused window's own title (even when
/// empty — its class is never used instead), or `Desktop` without focus.
pub fn pick_title(active: Option<&ActiveWindow>) -> (r: String)
    ensures
        r@ == match active {
            Some(w) => w.title@,
            None => no_active_window(),
        },
{
    match active {
        Some(w) => w.title.clone(),
        None => text::owned("Desktop"),
    }
}

} // verus!
