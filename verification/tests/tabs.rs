use side_panel_right::tabs::PanelTab;
use side_panel_right::workspace_mode::WorkspaceMode;

#[test]
fn all_has_nineteen_tabs_in_fixed_order() {
    assert_eq!(PanelTab::ALL.len(), 19);
    assert_eq!(PanelTab::ALL[0], PanelTab::System);
    assert_eq!(PanelTab::ALL[1], PanelTab::Updates);
    assert_eq!(PanelTab::ALL[2], PanelTab::Files);
    assert_eq!(PanelTab::ALL[3], PanelTab::Editor);
    assert_eq!(PanelTab::ALL[4], PanelTab::Terminal);
    assert_eq!(PanelTab::ALL[5], PanelTab::Preview);
    assert_eq!(PanelTab::ALL[6], PanelTab::Inspector);
    assert_eq!(PanelTab::ALL[7], PanelTab::Build);
    assert_eq!(PanelTab::ALL[8], PanelTab::SourceControl);
    assert_eq!(PanelTab::ALL[9], PanelTab::Library);
    assert_eq!(PanelTab::ALL[10], PanelTab::Scenes);
    assert_eq!(PanelTab::ALL[11], PanelTab::Captures);
    assert_eq!(PanelTab::ALL[12], PanelTab::AcpSettings);
    assert_eq!(PanelTab::ALL[13], PanelTab::McpSettings);
    assert_eq!(PanelTab::ALL[14], PanelTab::LspSettings);
    assert_eq!(PanelTab::ALL[15], PanelTab::ApiProviders);
    assert_eq!(PanelTab::ALL[16], PanelTab::EditorSettings);
    assert_eq!(PanelTab::ALL[17], PanelTab::HyprlandBinds);
    assert_eq!(PanelTab::ALL[18], PanelTab::Display);
}

#[test]
fn product_cut_labels_are_renamed() {
    assert_eq!(PanelTab::Preview.label(), "Editor");
    assert_eq!(PanelTab::AcpSettings.label(), "ACP agents");
    assert_eq!(PanelTab::EditorSettings.label(), "System settings");
    assert_eq!(PanelTab::HyprlandBinds.label(), "Hyprland binds");
}

#[test]
fn every_tab_has_a_non_empty_label() {
    for tab in PanelTab::ALL {
        assert!(!tab.label().is_empty(), "{tab:?} has an empty label");
    }
}

#[test]
fn every_tab_has_a_distinct_icon_path() {
    let paths: Vec<&str> = PanelTab::ALL.iter().map(|t| t.icon_path()).collect();
    let mut sorted = paths.clone();
    sorted.sort_unstable();
    sorted.dedup();
    assert_eq!(sorted.len(), paths.len(), "two tabs share an icon path");
}

#[test]
fn system_is_the_default_active_tab() {
    assert_eq!(PanelTab::default(), PanelTab::System);
}

#[test]
fn developer_and_gamer_sets_are_nonempty_with_system_first() {
    let dev = PanelTab::for_mode(WorkspaceMode::Developer);
    let gamer = PanelTab::for_mode(WorkspaceMode::Gamer);
    assert!(!dev.is_empty());
    assert!(!gamer.is_empty());
    assert_eq!(dev[0], PanelTab::System);
    assert_eq!(gamer[0], PanelTab::System);
}

#[test]
fn acp_settings_precedes_system_settings_in_both_modes() {
    for mode in [WorkspaceMode::Developer, WorkspaceMode::Gamer] {
        let tabs = PanelTab::for_mode(mode);
        assert_eq!(tabs[0], PanelTab::System, "{mode:?}: System must be first");
        let acp_idx = tabs.iter().position(|t| *t == PanelTab::AcpSettings);
        let sys_settings_idx = tabs.iter().position(|t| *t == PanelTab::EditorSettings);
        match (acp_idx, sys_settings_idx) {
            (Some(a), Some(s)) => assert!(
                a < s,
                "{mode:?}: ACP agents must precede System settings, got acp={a} sys={s}"
            ),
            _ => panic!("{mode:?}: both AcpSettings and EditorSettings must be present"),
        }
    }
}

#[test]
fn scene_override_wins_over_mode_default() {
    let tabs = PanelTab::resolve_for_mode(
        WorkspaceMode::Developer,
        Some(&["system".into(), "terminal".into()]),
    );
    assert_eq!(tabs, vec![PanelTab::System, PanelTab::Terminal]);
}

#[test]
fn unknown_override_names_are_skipped() {
    let tabs = PanelTab::resolve_for_mode(
        WorkspaceMode::Developer,
        Some(&["system".into(), "nope".into(), "files".into()]),
    );
    assert_eq!(tabs, vec![PanelTab::System, PanelTab::Files]);
}

#[test]
fn all_unknown_override_falls_back_to_mode() {
    let tabs = PanelTab::resolve_for_mode(
        WorkspaceMode::Gamer,
        Some(&["garbage".into(), "also-bad".into()]),
    );
    assert_eq!(tabs, PanelTab::for_mode(WorkspaceMode::Gamer));
}

#[test]
fn parse_id_is_case_insensitive() {
    assert_eq!(PanelTab::parse_id("System"), Some(PanelTab::System));
    assert_eq!(PanelTab::parse_id("ACPSETTINGS"), Some(PanelTab::AcpSettings));
    assert_eq!(PanelTab::parse_id("acp_settings"), Some(PanelTab::AcpSettings));
    assert_eq!(PanelTab::parse_id("???"), None);
}

#[test]
fn parse_id_updates_round_trip() {
    assert_eq!(PanelTab::parse_id("updates"), Some(PanelTab::Updates));
    assert_eq!(PanelTab::parse_id("UPDATES"), Some(PanelTab::Updates));
    assert_eq!(PanelTab::parse_id("Updates"), Some(PanelTab::Updates));
    assert_eq!(PanelTab::parse_id(PanelTab::Updates.id()), Some(PanelTab::Updates));
    assert_eq!(PanelTab::Updates.id(), "updates");
    assert_eq!(PanelTab::Updates.label(), "Updates");
}

#[test]
fn parse_id_round_trip_for_new_work_tools() {
    for tab in [
        PanelTab::Preview,
        PanelTab::Inspector,
        PanelTab::Build,
        PanelTab::SourceControl,
    ] {
        assert_eq!(
            PanelTab::parse_id(tab.id()),
            Some(tab),
            "{tab:?} round-trip via id() failed"
        );
    }
}

#[test]
fn parse_id_accepts_underscore_and_camel_for_new_tabs() {
    assert_eq!(PanelTab::parse_id("preview"), Some(PanelTab::Preview));
    assert_eq!(PanelTab::parse_id("PREVIEW"), Some(PanelTab::Preview));
    assert_eq!(PanelTab::parse_id("Preview"), Some(PanelTab::Preview));
    assert_eq!(PanelTab::parse_id("inspector"), Some(PanelTab::Inspector));
    assert_eq!(PanelTab::parse_id("INSPECTOR"), Some(PanelTab::Inspector));
    assert_eq!(PanelTab::parse_id("build"), Some(PanelTab::Build));
    assert_eq!(PanelTab::parse_id("BUILD"), Some(PanelTab::Build));
    assert_eq!(
        PanelTab::parse_id("source_control"),
        Some(PanelTab::SourceControl)
    );
    assert_eq!(
        PanelTab::parse_id("source-control"),
        Some(PanelTab::SourceControl)
    );
    assert_eq!(
        PanelTab::parse_id("sourcecontrol"),
        Some(PanelTab::SourceControl)
    );
    assert_eq!(
        PanelTab::parse_id("SOURCECONTROL"),
        Some(PanelTab::SourceControl)
    );
}

#[test]
fn parse_id_round_trip_for_gamer_hub_tools() {
    for tab in [PanelTab::Library, PanelTab::Scenes, PanelTab::Captures] {
        assert_eq!(
            PanelTab::parse_id(tab.id()),
            Some(tab),
            "{tab:?} round-trip via id() failed"
        );
    }
}

#[test]
fn parse_id_accepts_case_and_hyphen_variants_for_gamer_hub_tools() {
    assert_eq!(PanelTab::parse_id("library"), Some(PanelTab::Library));
    assert_eq!(PanelTab::parse_id("LIBRARY"), Some(PanelTab::Library));
    assert_eq!(PanelTab::parse_id("Library"), Some(PanelTab::Library));
    assert_eq!(PanelTab::parse_id("scenes"), Some(PanelTab::Scenes));
    assert_eq!(PanelTab::parse_id("SCENES"), Some(PanelTab::Scenes));
    assert_eq!(PanelTab::parse_id("Scenes"), Some(PanelTab::Scenes));
    assert_eq!(PanelTab::parse_id("captures"), Some(PanelTab::Captures));
    assert_eq!(PanelTab::parse_id("CAPTURES"), Some(PanelTab::Captures));
    assert_eq!(PanelTab::parse_id("Captures"), Some(PanelTab::Captures));
}

#[test]
fn parse_id_rejects_unknown_names_including_new_ones() {
    for bogus in [
        "previewz",
        "inspectorrr",
        "buildit",
        "git",
        "scm",
        "",
        "lib",
        "scene",
        "capture",
        "games",
        "librarys",
    ] {
        assert_eq!(
            PanelTab::parse_id(bogus),
            None,
            "{bogus:?} unexpectedly parsed as a known tab"
        );
    }
}

#[test]
fn developer_rail_is_eight_product_tabs() {
    let dev = PanelTab::for_mode(WorkspaceMode::Developer);
    assert_eq!(
        dev,
        vec![
            PanelTab::System,
            PanelTab::Updates,
            PanelTab::Files,
            PanelTab::Preview,
            PanelTab::HyprlandBinds,
            PanelTab::AcpSettings,
            PanelTab::Display,
            PanelTab::EditorSettings,
        ]
    );
    for absent in [
        PanelTab::Editor,
        PanelTab::Terminal,
        PanelTab::Inspector,
        PanelTab::Build,
        PanelTab::SourceControl,
        PanelTab::McpSettings,
        PanelTab::LspSettings,
        PanelTab::ApiProviders,
        PanelTab::Library,
        PanelTab::Scenes,
        PanelTab::Captures,
    ] {
        assert!(
            !dev.contains(&absent),
            "Developer rail must not include cut tab {absent:?}"
        );
    }
}

#[test]
fn gamer_rail_is_eight_product_tabs() {
    let gamer = PanelTab::for_mode(WorkspaceMode::Gamer);
    assert_eq!(
        gamer,
        vec![
            PanelTab::System,
            PanelTab::Updates,
            PanelTab::Library,
            PanelTab::Captures,
            PanelTab::AcpSettings,
            PanelTab::Display,
            PanelTab::EditorSettings,
            PanelTab::HyprlandBinds,
        ]
    );
    for absent in [
        PanelTab::Files,
        PanelTab::Editor,
        PanelTab::Terminal,
        PanelTab::Preview,
        PanelTab::Inspector,
        PanelTab::Build,
        PanelTab::SourceControl,
        PanelTab::Scenes,
        PanelTab::McpSettings,
        PanelTab::LspSettings,
        PanelTab::ApiProviders,
    ] {
        assert!(
            !gamer.contains(&absent),
            "Gamer rail must not include cut tab {absent:?}"
        );
    }
}

#[test]
fn every_new_tab_has_a_distinct_icon_path() {
    let paths = [
        PanelTab::Preview.icon_path(),
        PanelTab::Inspector.icon_path(),
        PanelTab::Build.icon_path(),
        PanelTab::SourceControl.icon_path(),
    ];
    let mut sorted: Vec<&str> = paths.to_vec();
    sorted.sort_unstable();
    sorted.dedup();
    assert_eq!(sorted.len(), paths.len(), "new tabs share an icon path");
    for p in paths {
        assert!(
            p.starts_with("icons/") && p.ends_with(".svg"),
            "icon path does not look like icons/rail-*.svg: {p}"
        );
    }
}

#[test]
fn gamer_hub_tabs_have_distinct_icon_paths() {
    let paths = [
        PanelTab::Library.icon_path(),
        PanelTab::Scenes.icon_path(),
        PanelTab::Captures.icon_path(),
    ];
    let mut sorted: Vec<&str> = paths.to_vec();
    sorted.sort_unstable();
    sorted.dedup();
    assert_eq!(sorted.len(), paths.len(), "gamer hub tabs share an icon path");
    for p in paths {
        assert!(
            p.starts_with("icons/") && p.ends_with(".svg"),
            "icon path does not look like icons/rail-*.svg: {p}"
        );
    }
}


#[test]
fn every_id_parses_back_to_its_tab() {
    for tab in PanelTab::ALL {
        assert_eq!(PanelTab::parse_id(tab.id()), Some(tab));
        assert_eq!(PanelTab::parse_id(&format!("  {}\t", tab.id().to_uppercase().replace('_', "-"))), Some(tab));
    }
}

#[test]
fn ids_are_distinct() {
    let mut ids: Vec<&str> = PanelTab::ALL.iter().map(|t| t.id()).collect();
    ids.sort_unstable();
    ids.dedup();
    assert_eq!(ids.len(), PanelTab::ALL.len());
}

#[test]
fn only_preview_is_resizable() {
    for tab in PanelTab::ALL {
        assert_eq!(tab.resizable(), tab == PanelTab::Preview);
    }
}

#[test]
fn override_repeats_are_kept_once_in_first_position() {
    let tabs = PanelTab::resolve_for_mode(
        WorkspaceMode::Gamer,
        Some(&["files".into(), "SYSTEM".into(), "files".into(), "source-control".into()]),
    );
    assert_eq!(tabs, vec![PanelTab::Files, PanelTab::System, PanelTab::SourceControl]);
}

#[test]
fn no_override_is_the_mode_default() {
    assert_eq!(
        PanelTab::resolve_for_mode(WorkspaceMode::Developer, None),
        PanelTab::for_mode(WorkspaceMode::Developer)
    );
    let empty: [String; 0] = [];
    assert_eq!(
        PanelTab::resolve_for_mode(WorkspaceMode::Developer, Some(&empty)),
        PanelTab::for_mode(WorkspaceMode::Developer)
    );
}

#[test]
fn mode_button_is_not_a_panel_tab() {
    // The workspace-mode control is a rail button, not a reorderable tab.
    assert!(
        PanelTab::ALL.iter().all(|t| t.id() != "workspace_mode"),
        "workspace_mode must not leak into PanelTab::ALL"
    );
}

#[test]
fn mode_button_click_toggles_mode() {
    assert_eq!(WorkspaceMode::Developer.other(), WorkspaceMode::Gamer);
    assert_eq!(WorkspaceMode::Gamer.other(), WorkspaceMode::Developer);
}
