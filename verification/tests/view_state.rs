use side_panel_right::tabs::PanelTab;
use side_panel_right::view_state::{resolve_active_tab, tab_select, TabSelect};
use side_panel_right::workspace_mode::WorkspaceMode;

#[test]
fn different_tab_switches_and_opens_unless_docked() {
    assert_eq!(tab_select(PanelTab::System, PanelTab::Files, false, false), TabSelect::SwitchAndOpen);
    assert_eq!(tab_select(PanelTab::System, PanelTab::Files, false, true), TabSelect::SwitchAndOpen);
    assert_eq!(tab_select(PanelTab::System, PanelTab::Files, true, true), TabSelect::Switch);
}

#[test]
fn same_tab_collapses_then_reopens_even_docked() {
    for dock in [false, true] {
        assert_eq!(tab_select(PanelTab::Preview, PanelTab::Preview, dock, true), TabSelect::Collapse);
        assert_eq!(tab_select(PanelTab::Preview, PanelTab::Preview, dock, false), TabSelect::Reopen);
    }
}

#[test]
fn active_tab_falls_back_to_system_outside_the_mode() {
    let gamer = PanelTab::for_mode(WorkspaceMode::Gamer);
    assert_eq!(resolve_active_tab(PanelTab::Files, &gamer), (PanelTab::System, true));
    assert_eq!(resolve_active_tab(PanelTab::Library, &gamer), (PanelTab::Library, false));
}
