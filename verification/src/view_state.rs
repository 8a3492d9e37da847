//! Decisions of the panel's content view that do not depend on pixel
//! widths: what a rail icon click does, and which tab stays active when the
//! mode's tab set changes. Applying widths is the caller's.

use vstd::prelude::*;

use crate::tabs::PanelTab;

verus! {

/// What a rail icon click does to the content.
#[derive(Debug, Clone, Copy, PartialEq, Eq, Structural)]
pub enum TabSelect {
    /// Another tab while docked: switch, keep the pinned width.
    Switch,
    /// Another tab: switch and open at that tab's width.
    SwitchAndOpen,
    /// The active tab while content is open: collapse to the rail; the
    /// tab's remembered width is kept.
    Collapse,
    /// The active tab while collapsed: re-open at the tab's width.
    Reopen,
}

/// The action of a click on `clicked` while `active` is shown.
pub open spec fn tab_select_spec(active: PanelTab, clicked: PanelTab, dock_content: bool, content_open: bool) -> TabSelect {
    if clicked != active {
        if dock_content {
            TabSelect::Switch
        } else {
            TabSelect::SwitchAndOpen
        }
    } else if content_open {
        TabSelect::Collapse
    } else {
        TabSelect::Reopen
    }
}

/// Decide what a rail icon click does: a different tab is switched to
/// (and opened unless docked); the active tab collapses when open and
/// re-opens when collapsed, docked or not.
pub fn tab_select(active: PanelTab, clicked: PanelTab, dock_content: bool, content_open: bool) -> (r:
    TabSelect)
    ensures
        r == tab_select_spec(active, clicked, dock_content, content_open),
{
    if clicked != active {
        if dock_content {
            TabSelect::Switch
        } else {
            TabSelect::SwitchAndOpen
        }
    } else if content_open {
        TabSelect::Collapse
    } else {
        TabSelect::Reopen
    }
}

/// Clicking the active tab twice returns the content to where it was:
/// open → collapsed → re-opened, and collapsed → re-opened → collapsed.
pub proof fn lemma_same_tab_toggles(tab: PanelTab, dock_content: bool, content_open: bool)
    ensures
        tab_select_spec(tab, tab, dock_content, content_open) == (if content_open {
            TabSelect::Collapse
        } else {
            TabSelect::Reopen
        }),
        tab_select_spec(tab, tab, dock_content, !content_open) == (if content_open {
            TabSelect::Reopen
        } else {
            TabSelect::Collapse
        }),
{
}

/// The tab that stays active after the mode's tab set changed: the
/// current one when the set still has it, else System. The flag tells
/// whether it changed.
pub fn resolve_active_tab(active: PanelTab, all_tabs: &[PanelTab]) -> (r: (PanelTab, bool))
    ensures
        all_tabs@.contains(active) ==> r == (active, false),
        !all_tabs@.contains(active) ==> r == (PanelTab::System, true),
{
    let mut i: usize = 0;
    while i < all_tabs.len()
        invariant
            i <= all_tabs.len(),
            forall|j: int| 0 <= j < i ==> all_tabs@[j] != active,
        decreases all_tabs.len() - i,
    {
        if all_tabs[i] == active {
            assert(all_tabs@[i as int] == active);
            return (active, false);
        }
        i = i + 1;
    }
    (PanelTab::System, true)
}

} // verus!
