use std::path::PathBuf;

use side_panel_right::hypr_binds::{parse_binds, parse_group};

const KITCHEN_SNIPPET: &str = r#"
local M = os.getenv("HOME") .. "/.config/hypr/modules"
mainMod = "SUPER"
hi = "ignored line"
hl.bind(mainMod .. " + E",     app(thunar))                          -- thunar
hl.bind(mainMod .. " + Q",     hl.dsp.window.close())                -- close window
hl.bind("XF86AudioLowerVolume", hl.dsp.exec_cmd("wpctl set-volume @DEFAULT_AUDIO_SINK@ 5%-"))
-- hl.bind("SUPER + COMMENTED", ignore_me()) -- commented-out bind is skipped
"#;

const CHRONOS_SNIPPET: &str = r#"
local mainMod = mainMod or "SUPER"
hl.bind(mainMod .. " + L",     hl.dsp.exec_cmd("chronos-ipc toggle-launcher"))  -- ChronOS launcher
hl.bind(mainMod .. " + SHIFT + T", hl.dsp.exec_cmd("chronos-ipc toggle-theme"))  -- ChronOS theme
"#;

fn p() -> PathBuf {
    PathBuf::from("/tmp/chronos-test.lua")
}

#[test]
fn parses_literal_key_and_line_number() {
    let rows = parse_binds(KITCHEN_SNIPPET, "Kitchen", &p());
    let media = rows.iter().find(|r| r.keys == "XF86AudioLowerVolume").expect("media bind");
    assert_eq!(media.action, "hl.dsp.exec_cmd(\"wpctl set-volume @DEFAULT_AUDIO_SINK@ 5%-\")");
    assert_eq!(media.line, 7, "literal bind is on line 7 of the snippet");
    assert_eq!(media.source, "Kitchen");
}

#[test]
fn resolves_main_mod_concat_to_super() {
    let rows = parse_binds(KITCHEN_SNIPPET, "Kitchen", &p());
    assert!(rows.iter().any(|r| r.keys == "SUPER + E"), "E bind resolves via mainMod");
    assert!(rows.iter().any(|r| r.keys == "SUPER + Q"), "Q bind resolves via mainMod");
}

#[test]
fn uses_super_default_when_no_assignment_seen() {
    let src = "hl.bind(mainMod .. \" + A\", app(menu, \"--show drun\"))\n";
    let rows = parse_binds(src, "X", &p());
    assert_eq!(rows.len(), 1);
    assert_eq!(rows[0].keys, "SUPER + A");
}

#[test]
fn parses_local_mainmod_or_assignment() {
    let rows = parse_binds(CHRONOS_SNIPPET, "ChronOS", &p());
    assert!(rows.iter().any(|r| r.keys == "SUPER + L"));
    assert!(rows.iter().any(|r| r.keys == "SUPER + SHIFT + T"));
}

#[test]
fn strips_comment_and_closing_paren_from_action() {
    let rows = parse_binds(CHRONOS_SNIPPET, "ChronOS", &p());
    let l = rows.iter().find(|r| r.keys == "SUPER + L").expect("L bind");
    assert_eq!(l.action, "hl.dsp.exec_cmd(\"chronos-ipc toggle-launcher\")");
    assert!(!l.action.contains("--"), "comment must be stripped: {}", l.action);
}

#[test]
fn skips_unknown_and_commented_lines() {
    let rows = parse_binds(KITCHEN_SNIPPET, "Kitchen", &p());
    assert!(!rows.iter().any(|r| r.keys.contains("COMMENTED")), "commented bind skipped");
    for r in &rows {
        assert!(!r.keys.contains("MOD"));
    }
}

#[test]
fn empty_source_yields_empty() {
    assert!(parse_binds("", "X", &p()).is_empty());
    assert!(parse_binds("-- nothing here\nlocal x = 1\n", "X", &p()).is_empty());
}

#[test]
fn group_metadata_comment_is_used_as_source_label() {
    let src = "-- # group = \"Apps & Media\"\nhl.bind(mainMod .. \" + E\", app(thunar))\n";
    let rows = parse_binds(src, &parse_group(src), &p());
    assert_eq!(rows.len(), 1);
    assert_eq!(rows[0].source, "Apps & Media");
}

#[test]
fn missing_metadata_falls_back_to_custom() {
    let src = KITCHEN_SNIPPET;
    assert_eq!(parse_group(src), "Custom");
    assert!(!parse_group(src).contains("kitchen"));

    let rows = parse_binds(src, &parse_group(src), &p());
    assert!(!rows.is_empty());
    for r in &rows {
        assert_eq!(r.source, "Custom", "no metadata → Custom, not a filename");
    }
}

#[test]
fn group_ignored_in_code_but_read_in_comment() {
    let src = "group = \"NotThis\"\n-- group = \"This\"\nhl.bind(mainMod .. \" + A\", app(x))\n";
    assert_eq!(parse_group(src), "This");
}

#[test]
fn group_missing_when_unquoted() {
    let src = "-- group = unquoted\nhl.bind(mainMod .. \" + A\", app(x))\n";
    assert_eq!(parse_group(src), "Custom");
}

#[test]
fn crlf_lines_and_path_are_kept() {
    let src = "mainMod = \"ALT\"\r\nhl.bind(mainMod .. \" + X\", app(x)) -- note\r\n";
    let rows = parse_binds(src, "G", &p());
    assert_eq!(rows.len(), 1);
    assert_eq!(rows[0].keys, "ALT + X");
    assert_eq!(rows[0].action, "app(x)");
    assert_eq!(rows[0].line, 2);
    assert_eq!(rows[0].path, p());
}

#[test]
fn bind_without_action_or_comma_is_skipped() {
    assert!(parse_binds("hl.bind(\"A\")\n", "X", &p()).is_empty());
    assert!(parse_binds("hl.bind(\"A\", )\n", "X", &p()).is_empty());
    let rows = parse_binds("hl.bind(Other .. \"-1\", f())\n", "X", &p());
    assert_eq!(rows[0].keys, "Other-1");
}
