use side_panel_right::panels_config::{
    cached, resolve_grouped, update_cache, ConfigCache, PanelLayoutConfig, RailConfig, RailGroups,
    RightConfig,
};
use side_panel_right::tabs::PanelTab;
use side_panel_right::workspace_mode::WorkspaceMode;

#[test]
fn default_has_editor_settings_in_bottom_for_both_modes() {
    let cfg = PanelLayoutConfig::default();
    let dev = &cfg.right.rail.developer;
    let gamer = &cfg.right.rail.gamer;

    assert!(
        dev.bottom.contains(&"editor_settings".into()),
        "Developer default must have editor_settings in bottom: {:?}",
        dev.bottom
    );
    assert!(
        gamer.bottom.contains(&"editor_settings".into()),
        "Gamer default must have editor_settings in bottom: {:?}",
        gamer.bottom
    );
}

#[test]
fn sanitize_appends_missing_mode_tab() {
    let cfg = PanelLayoutConfig {
        right: RightConfig {
            rail: RailConfig {
                developer: RailGroups {
                    top: vec!["files".into()],
                    bottom: vec!["editor_settings".into()],
                },
                ..Default::default()
            },
        },
        ..Default::default()
    };
    let s = cfg.sanitized();
    let dev = &s.right.rail.developer;
    assert!(
        dev.top.contains(&"system".into()),
        "system must be appended: {:?}",
        dev.top
    );
}

#[test]
fn sanitize_empty_falls_back_to_mode_defaults() {
    let cfg = PanelLayoutConfig {
        right: RightConfig {
            rail: RailConfig {
                developer: RailGroups {
                    top: vec!["garbage".into()],
                    bottom: vec!["also-bad".into()],
                },
                ..Default::default()
            },
        },
        ..Default::default()
    };
    let s = cfg.sanitized();
    let dev = &s.right.rail.developer;
    assert!(!dev.top.is_empty(), "fallback top must not be empty");
    assert!(!dev.bottom.is_empty(), "fallback bottom must not be empty");
    assert_eq!(dev.bottom, vec!["editor_settings"]);
}

#[test]
fn move_within_top_group_swaps() {
    let mut cfg = PanelLayoutConfig::default();
    assert!(cfg.move_tab(WorkspaceMode::Developer, PanelTab::Files, -1));
    let top: Vec<&str> = cfg
        .right
        .rail
        .developer
        .top
        .iter()
        .map(|s| s.as_str())
        .collect();
    assert_eq!(top[0], "system");
    assert_eq!(top[1], "updates");
    assert_eq!(top[2], "files");
    assert_eq!(top[3], "notifications");
}

#[test]
fn move_first_in_top_crosses_to_bottom() {
    let mut cfg = PanelLayoutConfig::default();
    assert!(cfg.move_tab(WorkspaceMode::Developer, PanelTab::System, -1));
    let dev = &cfg.right.rail.developer;
    assert!(
        !dev.top.contains(&"system".into()),
        "system must leave top: {:?}",
        dev.top
    );
    assert_eq!(dev.bottom.last().unwrap(), "system");
}

#[test]
fn move_last_in_bottom_crosses_to_top() {
    let mut cfg = PanelLayoutConfig::default();
    assert!(cfg.move_tab(
        WorkspaceMode::Developer,
        PanelTab::EditorSettings,
        1
    ));
    let dev = &cfg.right.rail.developer;
    assert!(
        !dev.bottom.contains(&"editor_settings".into()),
        "editor_settings must leave bottom: {:?}",
        dev.bottom
    );
    assert_eq!(dev.top[0], "editor_settings");
}

#[test]
fn move_tab_not_in_config_is_noop() {
    let mut cfg = PanelLayoutConfig::default();
    assert!(!cfg.move_tab(WorkspaceMode::Developer, PanelTab::Terminal, 1));
}

#[test]
fn resolve_grouped_empty_falls_back() {
    let cfg = PanelLayoutConfig {
        right: RightConfig {
            rail: RailConfig {
                developer: RailGroups {
                    top: vec![],
                    bottom: vec![],
                },
                ..Default::default()
            },
        },
        ..Default::default()
    };
    let (top, bottom) = resolve_grouped(WorkspaceMode::Developer, &cfg);
    assert!(!top.is_empty());
    assert_eq!(bottom, vec![PanelTab::EditorSettings]);
}

#[test]
fn resolve_grouped_deduplicates() {
    let cfg = PanelLayoutConfig {
        right: RightConfig {
            rail: RailConfig {
                developer: RailGroups {
                    top: vec!["system".into(), "system".into(), "files".into()],
                    bottom: vec!["editor_settings".into()],
                },
                ..Default::default()
            },
        },
        ..Default::default()
    };
    let (top, _) = resolve_grouped(WorkspaceMode::Developer, &cfg);
    assert_eq!(top.len(), 2);
    assert_eq!(top[0], PanelTab::System);
    assert_eq!(top[1], PanelTab::Files);
}

#[test]
fn move_within_bottom_group_swaps() {
    let mut cfg = PanelLayoutConfig {
        right: RightConfig {
            rail: RailConfig {
                gamer: RailGroups {
                    top: vec!["system".into()],
                    bottom: vec![
                        "editor_settings".into(),
                        "hyprland_binds".into(),
                        "acp_settings".into(),
                    ],
                },
                ..Default::default()
            },
        },
        ..Default::default()
    };
    assert!(cfg.move_tab(
        WorkspaceMode::Gamer,
        PanelTab::EditorSettings,
        1
    ));
    let bottom = &cfg.right.rail.gamer.bottom;
    assert_eq!(bottom[0], "hyprland_binds");
    assert_eq!(bottom[1], "editor_settings");
}


fn messy() -> PanelLayoutConfig {
    PanelLayoutConfig {
        version: 3,
        right: RightConfig {
            rail: RailConfig {
                developer: RailGroups {
                    top: vec!["Files".into(), "bogus".into(), "files".into(), "system".into()],
                    bottom: vec!["system".into(), "EDITOR-SETTINGS".into()],
                },
                gamer: RailGroups { top: vec![], bottom: vec!["nope".into()] },
            },
        },
    }
}

#[test]
fn sanitize_is_idempotent() {
    let once = messy().sanitized();
    let twice = once.sanitized();
    assert_eq!(once, twice);
    assert_eq!(once.version, 3);
}

#[test]
fn sanitize_canonicalizes_and_covers_mode() {
    let s = messy().sanitized();
    let dev = &s.right.rail.developer;
    assert_eq!(
        dev.top,
        vec!["files", "system", "updates", "preview", "hyprland_binds", "acp_settings", "display"]
    );
    assert_eq!(dev.bottom, vec!["editor_settings"]);
    let gamer = &s.right.rail.gamer;
    assert_eq!(
        gamer.top,
        vec!["system", "updates", "library", "captures", "acp_settings", "display", "hyprland_binds"]
    );
    assert_eq!(gamer.bottom, vec!["editor_settings"]);
}

#[test]
fn move_then_move_back_restores_sanitized_layout() {
    let base = PanelLayoutConfig::default().sanitized();
    for tab in PanelTab::ALL {
        for delta in [-1isize, 1] {
            let mut cfg = base.clone();
            if cfg.move_tab(WorkspaceMode::Developer, tab, delta) {
                assert!(cfg.move_tab(WorkspaceMode::Developer, tab, -delta));
                assert_eq!(cfg, base, "{tab:?} {delta}");
            }
        }
    }
}

#[test]
fn move_far_past_the_end_crosses_to_bottom_start() {
    let mut cfg = PanelLayoutConfig::default();
    assert!(cfg.move_tab(WorkspaceMode::Developer, PanelTab::System, isize::MAX));
    let dev = &cfg.right.rail.developer;
    assert_eq!(dev.bottom[0], "system");
    assert!(!dev.top.contains(&"system".to_string()));
}

#[test]
fn move_tab_in_both_groups_is_noop() {
    let mut cfg = PanelLayoutConfig {
        right: RightConfig {
            rail: RailConfig {
                developer: RailGroups { top: vec!["system".into()], bottom: vec!["System".into()] },
                ..Default::default()
            },
        },
        ..Default::default()
    };
    let before = cfg.clone();
    assert!(!cfg.move_tab(WorkspaceMode::Developer, PanelTab::System, 1));
    assert_eq!(cfg, before);
}

#[test]
fn move_leaves_other_mode_alone() {
    let mut cfg = PanelLayoutConfig::default();
    let gamer = cfg.right.rail.gamer.clone();
    assert!(cfg.move_tab(WorkspaceMode::Developer, PanelTab::Files, 1));
    assert_eq!(cfg.right.rail.gamer, gamer);
}

#[test]
fn cache_read_gives_back_what_was_written() {
    let mut cache = ConfigCache::new();
    assert_eq!(cached(&cache), PanelLayoutConfig::default());
    let cfg = messy().sanitized();
    update_cache(&mut cache, cfg.clone());
    assert_eq!(cached(&cache), cfg);
}

#[test]
fn resolve_grouped_dedups_each_group_separately() {
    let cfg = PanelLayoutConfig {
        right: RightConfig {
            rail: RailConfig {
                gamer: RailGroups {
                    top: vec!["library".into(), "bad".into()],
                    bottom: vec!["library".into(), "display".into(), "display".into()],
                },
                ..Default::default()
            },
        },
        ..Default::default()
    };
    let (top, bottom) = resolve_grouped(WorkspaceMode::Gamer, &cfg);
    assert_eq!(top, vec![PanelTab::Library]);
    assert_eq!(bottom, vec![PanelTab::Library, PanelTab::Display]);
}

#[test]
fn move_by_zero_changes_nothing() {
    let mut cfg = PanelLayoutConfig::default();
    assert!(!cfg.move_tab(WorkspaceMode::Developer, PanelTab::Files, 0));
    assert_eq!(cfg, PanelLayoutConfig::default());
}

#[test]
fn move_onto_an_equal_name_changes_nothing() {
    let mut cfg = PanelLayoutConfig::default();
    cfg.right.rail.developer.top = vec!["files".to_string(), "files".to_string(), "system".to_string()];
    let before = cfg.clone();
    assert!(!cfg.move_tab(WorkspaceMode::Developer, PanelTab::Files, 1));
    assert_eq!(cfg, before);
    assert!(cfg.move_tab(WorkspaceMode::Developer, PanelTab::Files, 2));
    assert_eq!(cfg.right.rail.developer.top, vec!["system", "files", "files"]);
}
