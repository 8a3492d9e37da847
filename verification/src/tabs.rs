//! Tab identity, full catalog, and mode-driven rail composition.
//!
//! `ALL` is the complete catalog of every tab the shell knows about. Mode
//! composition uses `for_mode` / `resolve_for_mode`; `ALL` is never replaced
//! with a mode subset.

use vstd::prelude::*;

use crate::text;
use crate::workspace_mode::WorkspaceMode;

verus! {

#[derive(Debug, Clone, Copy, PartialEq, Eq, Hash, Structural)]
pub enum PanelTab {
    System,
    Updates,
    Files,
    Editor,
    Terminal,
    Preview,
    Inspector,
    Build,
    SourceControl,
    Library,
    Scenes,
    Captures,
    AcpSettings,
    McpSettings,
    LspSettings,
    ApiProviders,
    EditorSettings,
    Display,
    HyprlandBinds,
}

impl Default for PanelTab {
    /// System is the tab a fresh panel shows.
    fn default() -> (r: Self)
        ensures
            r == PanelTab::System,
    {
        PanelTab::System
    }
}

/// Stable id of a tab (`scenes.toml` `rail_tabs`, `panels.toml`).
pub open spec fn tab_id(t: PanelTab) -> Seq<char> {
    match t {
        PanelTab::System => "system"@,
        PanelTab::Updates => "updates"@,
        PanelTab::Files => "files"@,
        PanelTab::Editor => "editor"@,
        PanelTab::Terminal => "terminal"@,
        PanelTab::Preview => "preview"@,
        PanelTab::Inspector => "inspector"@,
        PanelTab::Build => "build"@,
        PanelTab::SourceControl => "source_control"@,
        PanelTab::Library => "library"@,
        PanelTab::Scenes => "scenes"@,
        PanelTab::Captures => "captures"@,
        PanelTab::AcpSettings => "acp_settings"@,
        PanelTab::McpSettings => "mcp_settings"@,
        PanelTab::LspSettings => "lsp_settings"@,
        PanelTab::ApiProviders => "api_providers"@,
        PanelTab::EditorSettings => "editor_settings"@,
        PanelTab::Display => "display"@,
        PanelTab::HyprlandBinds => "hyprland_binds"@,
    }
}

/// Rail label of a tab.
pub open spec fn tab_label(t: PanelTab) -> Seq<char> {
    match t {
        PanelTab::System => "System"@,
        PanelTab::Updates => "Updates"@,
        PanelTab::Files => "Files"@,
        PanelTab::Editor => "Editor"@,
        PanelTab::Terminal => "Terminal"@,
        PanelTab::Preview => "Editor"@,
        PanelTab::Inspector => "Inspector"@,
        PanelTab::Build => "Build"@,
        PanelTab::SourceControl => "Source control"@,
        PanelTab::Library => "Library"@,
        PanelTab::Scenes => "Scenes"@,
        PanelTab::Captures => "Captures"@,
        PanelTab::AcpSettings => "ACP agents"@,
        PanelTab::McpSettings => "MCP settings"@,
        PanelTab::LspSettings => "LSP settings"@,
        PanelTab::ApiProviders => "API providers"@,
        PanelTab::EditorSettings => "System settings"@,
        PanelTab::Display => "Display"@,
        PanelTab::HyprlandBinds => "Hyprland binds"@,
    }
}

/// Rail icon asset of a tab.
pub open spec fn tab_icon(t: PanelTab) -> Seq<char> {
    match t {
        PanelTab::System => "icons/rail-system.svg"@,
        PanelTab::Updates => "icons/arrow-up.svg"@,
        PanelTab::Files => "icons/folder.svg"@,
        PanelTab::Editor => "icons/rail-editor.svg"@,
        PanelTab::Terminal => "icons/rail-terminal.svg"@,
        PanelTab::Preview => "icons/rail-preview.svg"@,
        PanelTab::Inspector => "icons/rail-inspector.svg"@,
        PanelTab::Build => "icons/rail-build.svg"@,
        PanelTab::SourceControl => "icons/rail-source-control.svg"@,
        PanelTab::Library => "icons/rail-library.svg"@,
        PanelTab::Scenes => "icons/rail-scenes.svg"@,
        PanelTab::Captures => "icons/rail-captures.svg"@,
        PanelTab::AcpSettings => "icons/rail-acp.svg"@,
        PanelTab::McpSettings => "icons/rail-mcp.svg"@,
        PanelTab::LspSettings => "icons/rail-lsp.svg"@,
        PanelTab::ApiProviders => "icons/rail-api.svg"@,
        PanelTab::EditorSettings => "icons/rail-editor-settings.svg"@,
        PanelTab::Display => "icons/rail-display.svg"@,
        PanelTab::HyprlandBinds => "icons/rail-binds.svg"@,
    }
}

/// The tab a normalized key names, if any.
pub open spec fn tab_for_key(k: Seq<char>) -> Option<PanelTab> {
    if k == "system"@ {
        Some(PanelTab::System)
    } else if k == "updates"@ {
        Some(PanelTab::Updates)
    } else if k == "files"@ {
        Some(PanelTab::Files)
    } else if k == "editor"@ {
        Some(PanelTab::Editor)
    } else if k == "terminal"@ {
        Some(PanelTab::Terminal)
    } else if k == "preview"@ {
        Some(PanelTab::Preview)
    } else if k == "inspector"@ {
        Some(PanelTab::Inspector)
    } else if k == "build"@ {
        Some(PanelTab::Build)
    } else if k == "library"@ {
        Some(PanelTab::Library)
    } else if k == "scenes"@ {
        Some(PanelTab::Scenes)
    } else if k == "captures"@ {
        Some(PanelTab::Captures)
    } else if k == "source_control"@ || k == "sourcecontrol"@ {
        Some(PanelTab::SourceControl)
    } else if k == "acp_settings"@ || k == "acpsettings"@ {
        Some(PanelTab::AcpSettings)
    } else if k == "mcp_settings"@ || k == "mcpsettings"@ {
        Some(PanelTab::McpSettings)
    } else if k == "lsp_settings"@ || k == "lspsettings"@ {
        Some(PanelTab::LspSettings)
    } else if k == "api_providers"@ || k == "apiproviders"@ {
        Some(PanelTab::ApiProviders)
    } else if k == "editor_settings"@ || k == "editorsettings"@ {
        Some(PanelTab::EditorSettings)
    } else if k == "display"@ {
        Some(PanelTab::Display)
    } else if k == "hyprland_binds"@ || k == "hyprlandbinds"@ {
        Some(PanelTab::HyprlandBinds)
    } else {
        None
    }
}

/// `-` replaced by `_`.
pub open spec fn hyphen_to_underscore(s: Seq<char>) -> Seq<char> {
    s.map_values(|c: char| if c == '-' { '_' } else { c })
}

/// The key a scene/config id is matched by: trimmed, ASCII-lowercased,
/// hyphens read as underscores.
pub open spec fn normalize_key(s: Seq<char>) -> Seq<char> {
    hyphen_to_underscore(text::lower_seq(text::trim_seq(s)))
}

/// The tab a scene/config id names.
pub open spec fn parse_tab(s: Seq<char>) -> Option<PanelTab> {
    tab_for_key(normalize_key(s))
}

/// Default rail of a workspace mode.
pub open spec fn mode_tabs(mode: WorkspaceMode) -> Seq<PanelTab> {
    match mode {
        WorkspaceMode::Developer => seq![
            PanelTab::System,
            PanelTab::Updates,
            PanelTab::Files,
            PanelTab::Preview,
            PanelTab::HyprlandBinds,
            PanelTab::AcpSettings,
            PanelTab::Display,
            PanelTab::EditorSettings,
        ],
        WorkspaceMode::Gamer => seq![
            PanelTab::System,
            PanelTab::Updates,
            PanelTab::Library,
            PanelTab::Captures,
            PanelTab::AcpSettings,
            PanelTab::Display,
            PanelTab::EditorSettings,
            PanelTab::HyprlandBinds,
        ],
    }
}

/// Tabs named by `names`, in order, skipping unknown names and any tab
/// already in `seen` or named earlier.
pub open spec fn parse_unique(names: Seq<Seq<char>>, seen: Seq<PanelTab>) -> Seq<PanelTab>
    decreases names.len(),
{
    if names.len() == 0 {
        Seq::empty()
    } else {
        let prev = parse_unique(names.drop_last(), seen);
        match parse_tab(names.last()) {
            Some(t) => if seen.contains(t) || prev.contains(t) {
                prev
            } else {
                prev.push(t)
            },
            None => prev,
        }
    }
}

/// Views of a slice of owned strings.
pub open spec fn views(names: Seq<String>) -> Seq<Seq<char>> {
    names.map_values(|s: String| s@)
}

/// Rail of a mode given an optional scene override.
pub open spec fn resolved_tabs(mode: WorkspaceMode, names: Option<Seq<Seq<char>>>) -> Seq<PanelTab> {
    match names {
        None => mode_tabs(mode),
        Some(ns) => {
            let tabs = parse_unique(ns, Seq::empty());
            if tabs.len() == 0 {
                mode_tabs(mode)
            } else {
                tabs
            }
        },
    }
}

/// No tab occurs twice.
pub open spec fn no_dups(s: Seq<PanelTab>) -> bool {
    forall|i: int, j: int| 0 <= i < j < s.len() ==> s[i] != s[j]
}

/// Every tab's id parses back to that tab.
pub proof fn lemma_parse_id_round_trip(t: PanelTab)
    ensures
        parse_tab(tab_id(t)) == Some(t),
{
    lemma_id_is_key(t);
    lemma_key_names_tab(t);
}

/// An id is already a normalized key.
pub proof fn lemma_id_is_key(t: PanelTab)
    ensures
        normalize_key(tab_id(t)) == tab_id(t),
{
    let s = tab_id(t);
    reveal_strlit("system");
    reveal_strlit("updates");
    reveal_strlit("files");
    reveal_strlit("editor");
    reveal_strlit("terminal");
    reveal_strlit("preview");
    reveal_strlit("inspector");
    reveal_strlit("build");
    reveal_strlit("source_control");
    reveal_strlit("library");
    reveal_strlit("scenes");
    reveal_strlit("captures");
    reveal_strlit("acp_settings");
    reveal_strlit("mcp_settings");
    reveal_strlit("lsp_settings");
    reveal_strlit("api_providers");
    reveal_strlit("editor_settings");
    reveal_strlit("display");
    reveal_strlit("hyprland_binds");
    reveal_strlit("sourcecontrol");
    reveal_strlit("acpsettings");
    reveal_strlit("mcpsettings");
    reveal_strlit("lspsettings");
    reveal_strlit("apiproviders");
    reveal_strlit("editorsettings");
    reveal_strlit("hyprlandbinds");
    assert(s.len() > 0);
    assert(!text::is_ws(s[0]) && !text::is_ws(s.last()));
    text::lemma_trim_noop(s);
    assert(forall|i: int| 0 <= i < s.len() ==> ('a' <= #[trigger] s[i] <= 'z' || s[i] == '_'));
    assert(text::lower_seq(s) =~= s);
    assert(hyphen_to_underscore(s) =~= s);
}

/// Each id is matched by its own tab.
pub proof fn lemma_key_names_tab(t: PanelTab)
    ensures
        tab_for_key(tab_id(t)) == Some(t),
{
    reveal_strlit("system");
    reveal_strlit("updates");
    reveal_strlit("files");
    reveal_strlit("editor");
    reveal_strlit("terminal");
    reveal_strlit("preview");
    reveal_strlit("inspector");
    reveal_strlit("build");
    reveal_strlit("source_control");
    reveal_strlit("library");
    reveal_strlit("scenes");
    reveal_strlit("captures");
    reveal_strlit("acp_settings");
    reveal_strlit("mcp_settings");
    reveal_strlit("lsp_settings");
    reveal_strlit("api_providers");
    reveal_strlit("editor_settings");
    reveal_strlit("display");
    reveal_strlit("hyprland_binds");
    reveal_strlit("sourcecontrol");
    reveal_strlit("acpsettings");
    reveal_strlit("mcpsettings");
    reveal_strlit("lspsettings");
    reveal_strlit("apiproviders");
    reveal_strlit("editorsettings");
    reveal_strlit("hyprlandbinds");
    assert("system"@ =~= seq!['s', 'y', 's', 't', 'e', 'm']);
    assert("updates"@ =~= seq!['u', 'p', 'd', 'a', 't', 'e', 's']);
    assert("files"@ =~= seq!['f', 'i', 'l', 'e', 's']);
    assert("editor"@ =~= seq!['e', 'd', 'i', 't', 'o', 'r']);
    assert("terminal"@ =~= seq!['t', 'e', 'r', 'm', 'i', 'n', 'a', 'l']);
    assert("preview"@ =~= seq!['p', 'r', 'e', 'v', 'i', 'e', 'w']);
    assert("inspector"@ =~= seq!['i', 'n', 's', 'p', 'e', 'c', 't', 'o', 'r']);
    assert("build"@ =~= seq!['b', 'u', 'i', 'l', 'd']);
    assert("source_control"@ =~= seq!['s', 'o', 'u', 'r', 'c', 'e', '_', 'c', 'o', 'n', 't', 'r', 'o', 'l']);
    assert("library"@ =~= seq!['l', 'i', 'b', 'r', 'a', 'r', 'y']);
    assert("scenes"@ =~= seq!['s', 'c', 'e', 'n', 'e', 's']);
    assert("captures"@ =~= seq!['c', 'a', 'p', 't', 'u', 'r', 'e', 's']);
    assert("acp_settings"@ =~= seq!['a', 'c', 'p', '_', 's', 'e', 't', 't', 'i', 'n', 'g', 's']);
    assert("mcp_settings"@ =~= seq!['m', 'c', 'p', '_', 's', 'e', 't', 't', 'i', 'n', 'g', 's']);
    assert("lsp_settings"@ =~= seq!['l', 's', 'p', '_', 's', 'e', 't', 't', 'i', 'n', 'g', 's']);
    assert("api_providers"@ =~= seq!['a', 'p', 'i', '_', 'p', 'r', 'o', 'v', 'i', 'd', 'e', 'r', 's']);
    assert("editor_settings"@ =~= seq!['e', 'd', 'i', 't', 'o', 'r', '_', 's', 'e', 't', 't', 'i', 'n', 'g', 's']);
    assert("display"@ =~= seq!['d', 'i', 's', 'p', 'l', 'a', 'y']);
    assert("hyprland_binds"@ =~= seq!['h', 'y', 'p', 'r', 'l', 'a', 'n', 'd', '_', 'b', 'i', 'n', 'd', 's']);
    assert("sourcecontrol"@ =~= seq!['s', 'o', 'u', 'r', 'c', 'e', 'c', 'o', 'n', 't', 'r', 'o', 'l']);
    assert("acpsettings"@ =~= seq!['a', 'c', 'p', 's', 'e', 't', 't', 'i', 'n', 'g', 's']);
    assert("mcpsettings"@ =~= seq!['m', 'c', 'p', 's', 'e', 't', 't', 'i', 'n', 'g', 's']);
    assert("lspsettings"@ =~= seq!['l', 's', 'p', 's', 'e', 't', 't', 'i', 'n', 'g', 's']);
    assert("apiproviders"@ =~= seq!['a', 'p', 'i', 'p', 'r', 'o', 'v', 'i', 'd', 'e', 'r', 's']);
    assert("editorsettings"@ =~= seq!['e', 'd', 'i', 't', 'o', 'r', 's', 'e', 't', 't', 'i', 'n', 'g', 's']);
    assert("hyprlandbinds"@ =~= seq!['h', 'y', 'p', 'r', 'l', 'a', 'n', 'd', 'b', 'i', 'n', 'd', 's']);
}

/// Ids tell tabs apart.
pub proof fn lemma_ids_distinct(a: PanelTab, b: PanelTab)
    ensures
        tab_id(a) == tab_id(b) ==> a == b,
{
    lemma_parse_id_round_trip(a);
    lemma_parse_id_round_trip(b);
}

/// No two tabs share an icon.
pub proof fn lemma_icons_distinct(a: PanelTab, b: PanelTab)
    ensures
        tab_icon(a) == tab_icon(b) ==> a == b,
{
    reveal_strlit("icons/rail-system.svg");
    assert("icons/rail-system.svg"@ =~= seq!['i', 'c', 'o', 'n', 's', '/', 'r', 'a', 'i', 'l', '-', 's', 'y', 's', 't', 'e', 'm', '.', 's', 'v', 'g']);
    reveal_strlit("icons/arrow-up.svg");
    assert("icons/arrow-up.svg"@ =~= seq!['i', 'c', 'o', 'n', 's', '/', 'a', 'r', 'r', 'o', 'w', '-', 'u', 'p', '.', 's', 'v', 'g']);
    reveal_strlit("icons/folder.svg");
    assert("icons/folder.svg"@ =~= seq!['i', 'c', 'o', 'n', 's', '/', 'f', 'o', 'l', 'd', 'e', 'r', '.', 's', 'v', 'g']);
    reveal_strlit("icons/rail-editor.svg");
    assert("icons/rail-editor.svg"@ =~= seq!['i', 'c', 'o', 'n', 's', '/', 'r', 'a', 'i', 'l', '-', 'e', 'd', 'i', 't', 'o', 'r', '.', 's', 'v', 'g']);
    reveal_strlit("icons/rail-terminal.svg");
    assert("icons/rail-terminal.svg"@ =~= seq!['i', 'c', 'o', 'n', 's', '/', 'r', 'a', 'i', 'l', '-', 't', 'e', 'r', 'm', 'i', 'n', 'a', 'l', '.', 's', 'v', 'g']);
    reveal_strlit("icons/rail-preview.svg");
    assert("icons/rail-preview.svg"@ =~= seq!['i', 'c', 'o', 'n', 's', '/', 'r', 'a', 'i', 'l', '-', 'p', 'r', 'e', 'v', 'i', 'e', 'w', '.', 's', 'v', 'g']);
    reveal_strlit("icons/rail-inspector.svg");
    assert("icons/rail-inspector.svg"@ =~= seq!['i', 'c', 'o', 'n', 's', '/', 'r', 'a', 'i', 'l', '-', 'i', 'n', 's', 'p', 'e', 'c', 't', 'o', 'r', '.', 's', 'v', 'g']);
    reveal_strlit("icons/rail-build.svg");
    assert("icons/rail-build.svg"@ =~= seq!['i', 'c', 'o', 'n', 's', '/', 'r', 'a', 'i', 'l', '-', 'b', 'u', 'i', 'l', 'd', '.', 's', 'v', 'g']);
    reveal_strlit("icons/rail-source-control.svg");
    assert("icons/rail-source-control.svg"@ =~= seq!['i', 'c', 'o', 'n', 's', '/', 'r', 'a', 'i', 'l', '-', 's', 'o', 'u', 'r', 'c', 'e', '-', 'c', 'o', 'n', 't', 'r', 'o', 'l', '.', 's', 'v', 'g']);
    reveal_strlit("icons/rail-library.svg");
    assert("icons/rail-library.svg"@ =~= seq!['i', 'c', 'o', 'n', 's', '/', 'r', 'a', 'i', 'l', '-', 'l', 'i', 'b', 'r', 'a', 'r', 'y', '.', 's', 'v', 'g']);
    reveal_strlit("icons/rail-scenes.svg");
    assert("icons/rail-scenes.svg"@ =~= seq!['i', 'c', 'o', 'n', 's', '/', 'r', 'a', 'i', 'l', '-', 's', 'c', 'e', 'n', 'e', 's', '.', 's', 'v', 'g']);
    reveal_strlit("icons/rail-captures.svg");
    assert("icons/rail-captures.svg"@ =~= seq!['i', 'c', 'o', 'n', 's', '/', 'r', 'a', 'i', 'l', '-', 'c', 'a', 'p', 't', 'u', 'r', 'e', 's', '.', 's', 'v', 'g']);
    reveal_strlit("icons/rail-acp.svg");
    assert("icons/rail-acp.svg"@ =~= seq!['i', 'c', 'o', 'n', 's', '/', 'r', 'a', 'i', 'l', '-', 'a', 'c', 'p', '.', 's', 'v', 'g']);
    reveal_strlit("icons/rail-mcp.svg");
    assert("icons/rail-mcp.svg"@ =~= seq!['i', 'c', 'o', 'n', 's', '/', 'r', 'a', 'i', 'l', '-', 'm', 'c', 'p', '.', 's', 'v', 'g']);
    reveal_strlit("icons/rail-lsp.svg");
    assert("icons/rail-lsp.svg"@ =~= seq!['i', 'c', 'o', 'n', 's', '/', 'r', 'a', 'i', 'l', '-', 'l', 's', 'p', '.', 's', 'v', 'g']);
    reveal_strlit("icons/rail-api.svg");
    assert("icons/rail-api.svg"@ =~= seq!['i', 'c', 'o', 'n', 's', '/', 'r', 'a', 'i', 'l', '-', 'a', 'p', 'i', '.', 's', 'v', 'g']);
    reveal_strlit("icons/rail-editor-settings.svg");
    assert("icons/rail-editor-settings.svg"@ =~= seq!['i', 'c', 'o', 'n', 's', '/', 'r', 'a', 'i', 'l', '-', 'e', 'd', 'i', 't', 'o', 'r', '-', 's', 'e', 't', 't', 'i', 'n', 'g', 's', '.', 's', 'v', 'g']);
    reveal_strlit("icons/rail-display.svg");
    assert("icons/rail-display.svg"@ =~= seq!['i', 'c', 'o', 'n', 's', '/', 'r', 'a', 'i', 'l', '-', 'd', 'i', 's', 'p', 'l', 'a', 'y', '.', 's', 'v', 'g']);
    reveal_strlit("icons/rail-binds.svg");
    assert("icons/rail-binds.svg"@ =~= seq!['i', 'c', 'o', 'n', 's', '/', 'r', 'a', 'i', 'l', '-', 'b', 'i', 'n', 'd', 's', '.', 's', 'v', 'g']);
}

/// Every tab has a non-empty label.
pub proof fn lemma_labels_nonempty(t: PanelTab)
    ensures
        tab_label(t).len() > 0,
{
    reveal_strlit("System");
    assert("System"@.len() > 0);
    reveal_strlit("Updates");
    assert("Updates"@.len() > 0);
    reveal_strlit("Files");
    assert("Files"@.len() > 0);
    reveal_strlit("Editor");
    assert("Editor"@.len() > 0);
    reveal_strlit("Terminal");
    assert("Terminal"@.len() > 0);
    reveal_strlit("Source control");
    assert("Source control"@.len() > 0);
    reveal_strlit("Inspector");
    assert("Inspector"@.len() > 0);
    reveal_strlit("Build");
    assert("Build"@.len() > 0);
    reveal_strlit("Library");
    assert("Library"@.len() > 0);
    reveal_strlit("Scenes");
    assert("Scenes"@.len() > 0);
    reveal_strlit("Captures");
    assert("Captures"@.len() > 0);
    reveal_strlit("ACP agents");
    assert("ACP agents"@.len() > 0);
    reveal_strlit("MCP settings");
    assert("MCP settings"@.len() > 0);
    reveal_strlit("LSP settings");
    assert("LSP settings"@.len() > 0);
    reveal_strlit("API providers");
    assert("API providers"@.len() > 0);
    reveal_strlit("System settings");
    assert("System settings"@.len() > 0);
    reveal_strlit("Display");
    assert("Display"@.len() > 0);
    reveal_strlit("Hyprland binds");
    assert("Hyprland binds"@.len() > 0);
}

/// `parse_unique` yields distinct tabs, none of them in `seen`, each named
/// by some entry of `names`.
pub proof fn lemma_parse_unique(names: Seq<Seq<char>>, seen: Seq<PanelTab>)
    ensures
        no_dups(parse_unique(names, seen)),
        forall|t: PanelTab| #[trigger] parse_unique(names, seen).contains(t) ==> !seen.contains(t),
        forall|t: PanelTab|
            #[trigger] parse_unique(names, seen).contains(t) ==> exists|i: int|
                0 <= i < names.len() && parse_tab(#[trigger] names[i]) == Some(t),
        parse_unique(names, seen).len() <= names.len(),
    decreases names.len(),
{
    if names.len() > 0 {
        let prev = parse_unique(names.drop_last(), seen);
        lemma_parse_unique(names.drop_last(), seen);
        assert forall|t: PanelTab| #[trigger] parse_unique(names, seen).contains(t) implies !seen.contains(t) by {
            if !prev.contains(t) {
                assert(parse_tab(names[names.len() - 1]) == Some(t));
            }
        }
        assert forall|t: PanelTab| #[trigger] parse_unique(names, seen).contains(t) implies exists|i: int|
            0 <= i < names.len() && parse_tab(#[trigger] names[i]) == Some(t) by {
            if prev.contains(t) {
                let i = choose|i: int| 0 <= i < names.drop_last().len() && parse_tab(#[trigger] names.drop_last()[i]) == Some(t);
                assert(names[i] == names.drop_last()[i]);
            } else {
                assert(parse_tab(names[names.len() - 1]) == Some(t));
            }
        }
    }
}

/// Any tab named by `names` and not in `seen` ends up in `parse_unique`.
pub proof fn lemma_parse_unique_complete(names: Seq<Seq<char>>, seen: Seq<PanelTab>, i: int)
    requires
        0 <= i < names.len(),
        parse_tab(names[i]) is Some,
        !seen.contains(parse_tab(names[i])->0),
    ensures
        parse_unique(names, seen).contains(parse_tab(names[i])->0),
    decreases names.len(),
{
    let prev = parse_unique(names.drop_last(), seen);
    if i < names.len() - 1 {
        assert(names.drop_last()[i] == names[i]);
        lemma_parse_unique_complete(names.drop_last(), seen, i);
        let t = parse_tab(names[i])->0;
        let k = choose|k: int| 0 <= k < prev.len() && prev[k] == t;
        assert(parse_unique(names, seen)[k] == t);
    } else {
        let t = parse_tab(names[i])->0;
        if prev.contains(t) {
            let k = choose|k: int| 0 <= k < prev.len() && prev[k] == t;
            assert(parse_unique(names, seen)[k] == t);
        } else {
            assert(parse_unique(names, seen) == prev.push(t));
            assert(parse_unique(names, seen)[prev.len() as int] == t);
        }
    }
}

/// The key a name normalizes to is unchanged by any character map that
/// keeps white space white and agrees with the identity up to ASCII case
/// and `-`/`_`.
pub proof fn lemma_normalize_key_map(s: Seq<char>, f: spec_fn(char) -> char)
    requires
        forall|c: char| #[trigger] text::is_ws(f(c)) == text::is_ws(c),
        forall|c: char| #[trigger] key_char(f(c)) == key_char(c),
    ensures
        normalize_key(s.map_values(f)) == normalize_key(s),
{
    text::lemma_trim_map(s, f);
    let t = text::trim_seq(s);
    assert(normalize_key(s.map_values(f)) =~= normalize_key(s)) by {
        assert forall|i: int| 0 <= i < t.len() implies hyphen_to_underscore(
            text::lower_seq(t.map_values(f)),
        )[i] == hyphen_to_underscore(text::lower_seq(t))[i] by {
            assert(key_char(f(t[i])) == key_char(t[i]));
        }
    }
}

/// How a character reads in a key: lower-cased, `-` as `_`.
pub open spec fn key_char(c: char) -> char {
    let l = text::lower_char(c);
    if l == '-' {
        '_'
    } else {
        l
    }
}

/// `parse_id` ignores ASCII case: upper- or lower-casing a name does not
/// change the tab it names.
pub proof fn lemma_parse_id_ignores_case(s: Seq<char>)
    ensures
        parse_tab(s.map_values(|c: char| text::upper_char(c))) == parse_tab(s),
        parse_tab(s.map_values(|c: char| text::lower_char(c))) == parse_tab(s),
{
    let up = |c: char| text::upper_char(c);
    let low = |c: char| text::lower_char(c);
    assert forall|c: char| #[trigger] text::is_ws(up(c)) == text::is_ws(c) by {}
    assert forall|c: char| #[trigger] key_char(up(c)) == key_char(c) by {}
    assert forall|c: char| #[trigger] text::is_ws(low(c)) == text::is_ws(c) by {}
    assert forall|c: char| #[trigger] key_char(low(c)) == key_char(c) by {}
    lemma_normalize_key_map(s, up);
    lemma_normalize_key_map(s, low);
}

/// `parse_id` reads `-` as `_`.
pub proof fn lemma_parse_id_hyphens(s: Seq<char>)
    ensures
        parse_tab(s.map_values(|c: char| if c == '_' { '-' } else { c })) == parse_tab(s),
        parse_tab(s.map_values(|c: char| if c == '-' { '_' } else { c })) == parse_tab(s),
{
    let to_h = |c: char| if c == '_' { '-' } else { c };
    let to_u = |c: char| if c == '-' { '_' } else { c };
    assert forall|c: char| #[trigger] text::is_ws(to_h(c)) == text::is_ws(c) by {}
    assert forall|c: char| #[trigger] key_char(to_h(c)) == key_char(c) by {}
    assert forall|c: char| #[trigger] text::is_ws(to_u(c)) == text::is_ws(c) by {}
    assert forall|c: char| #[trigger] key_char(to_u(c)) == key_char(c) by {}
    lemma_normalize_key_map(s, to_h);
    lemma_normalize_key_map(s, to_u);
}

/// `ALL` is the complete catalog: every tab, each exactly once.
pub proof fn lemma_all_is_catalog(t: PanelTab)
    ensures
        PanelTab::ALL@.contains(t),
        no_dups(PanelTab::ALL@),
        PanelTab::ALL@.len() == 19,
{
    let all = PanelTab::ALL@;
    assert(all[0] == PanelTab::System);
    assert(all[1] == PanelTab::Updates);
    assert(all[2] == PanelTab::Files);
    assert(all[3] == PanelTab::Editor);
    assert(all[4] == PanelTab::Terminal);
    assert(all[5] == PanelTab::Preview);
    assert(all[6] == PanelTab::Inspector);
    assert(all[7] == PanelTab::Build);
    assert(all[8] == PanelTab::SourceControl);
    assert(all[9] == PanelTab::Library);
    assert(all[10] == PanelTab::Scenes);
    assert(all[11] == PanelTab::Captures);
    assert(all[12] == PanelTab::AcpSettings);
    assert(all[13] == PanelTab::McpSettings);
    assert(all[14] == PanelTab::LspSettings);
    assert(all[15] == PanelTab::ApiProviders);
    assert(all[16] == PanelTab::EditorSettings);
    assert(all[17] == PanelTab::HyprlandBinds);
    assert(all[18] == PanelTab::Display);
}

/// `v.contains(&t)`.
pub fn contains_tab(v: &Vec<PanelTab>, t: PanelTab) -> (r: bool)
    ensures
        r == v@.contains(t),
{
    let mut i: usize = 0;
    while i < v.len()
        invariant
            i <= v.len(),
            forall|j: int| 0 <= j < i ==> v@[j] != t,
        decreases v.len() - i,
    {
        if v[i] == t {
            assert(v@[i as int] == t);
            return true;
        }
        i = i + 1;
    }
    false
}

/// The normalized key of a scene/config id.
fn normalized_key(s: &str) -> (k: Vec<char>)
    ensures
        k@ == normalize_key(s@),
{
    let v = text::chars_of(s);
    let t = text::trim(&v);
    let l = text::lowercase(&t);
    let mut k: Vec<char> = Vec::new();
    let mut i: usize = 0;
    while i < l.len()
        invariant
            i <= l.len(),
            k@ == hyphen_to_underscore(l@.take(i as int)),
        decreases l.len() - i,
    {
        let c = l[i];
        k.push(if c == '-' { '_' } else { c });
        i = i + 1;
        assert(k@ =~= hyphen_to_underscore(l@.take(i as int)));
    }
    assert(l@.take(l.len() as int) =~= l@);
    k
}

impl PanelTab {
    /// Full catalog — every tab that exists.
    pub const ALL: [PanelTab; 19] = [
        PanelTab::System,
        PanelTab::Updates,
        PanelTab::Files,
        PanelTab::Editor,
        PanelTab::Terminal,
        PanelTab::Preview,
        PanelTab::Inspector,
        PanelTab::Build,
        PanelTab::SourceControl,
        PanelTab::Library,
        PanelTab::Scenes,
        PanelTab::Captures,
        PanelTab::AcpSettings,
        PanelTab::McpSettings,
        PanelTab::LspSettings,
        PanelTab::ApiProviders,
        PanelTab::EditorSettings,
        PanelTab::HyprlandBinds,
        PanelTab::Display,
    ];

    /// Stable id for scene overrides (`scenes.toml` `rail_tabs`).
    pub fn id(self) -> (r: &'static str)
        ensures
            r@ == tab_id(self),
    {
        match self {
            PanelTab::System => "system",
            PanelTab::Updates => "updates",
            PanelTab::Files => "files",
            PanelTab::Editor => "editor",
            PanelTab::Terminal => "terminal",
            PanelTab::Preview => "preview",
            PanelTab::Inspector => "inspector",
            PanelTab::Build => "build",
            PanelTab::SourceControl => "source_control",
            PanelTab::Library => "library",
            PanelTab::Scenes => "scenes",
            PanelTab::Captures => "captures",
            PanelTab::AcpSettings => "acp_settings",
            PanelTab::McpSettings => "mcp_settings",
            PanelTab::LspSettings => "lsp_settings",
            PanelTab::ApiProviders => "api_providers",
            PanelTab::EditorSettings => "editor_settings",
            PanelTab::Display => "display",
            PanelTab::HyprlandBinds => "hyprland_binds",
        }
    }
    /// Label shown on the rail.
    pub fn label(self) -> (r: &'static str)
        ensures
            r@ == tab_label(self),
    {
        match self {
            PanelTab::System => "System",
            PanelTab::Updates => "Updates",
            PanelTab::Files => "Files",
            PanelTab::Editor => "Editor",
            PanelTab::Terminal => "Terminal",
            PanelTab::Preview => "Editor",
            PanelTab::Inspector => "Inspector",
            PanelTab::Build => "Build",
            PanelTab::SourceControl => "Source control",
            PanelTab::Library => "Library",
            PanelTab::Scenes => "Scenes",
            PanelTab::Captures => "Captures",
            PanelTab::AcpSettings => "ACP agents",
            PanelTab::McpSettings => "MCP settings",
            PanelTab::LspSettings => "LSP settings",
            PanelTab::ApiProviders => "API providers",
            PanelTab::EditorSettings => "System settings",
            PanelTab::Display => "Display",
            PanelTab::HyprlandBinds => "Hyprland binds",
        }
    }
    /// Rail icon asset.
    pub fn icon_path(self) -> (r: &'static str)
        ensures
            r@ == tab_icon(self),
    {
        match self {
            PanelTab::System => "icons/rail-system.svg",
            PanelTab::Updates => "icons/arrow-up.svg",
            PanelTab::Files => "icons/folder.svg",
            PanelTab::Editor => "icons/rail-editor.svg",
            PanelTab::Terminal => "icons/rail-terminal.svg",
            PanelTab::Preview => "icons/rail-preview.svg",
            PanelTab::Inspector => "icons/rail-inspector.svg",
            PanelTab::Build => "icons/rail-build.svg",
            PanelTab::SourceControl => "icons/rail-source-control.svg",
            PanelTab::Library => "icons/rail-library.svg",
            PanelTab::Scenes => "icons/rail-scenes.svg",
            PanelTab::Captures => "icons/rail-captures.svg",
            PanelTab::AcpSettings => "icons/rail-acp.svg",
            PanelTab::McpSettings => "icons/rail-mcp.svg",
            PanelTab::LspSettings => "icons/rail-lsp.svg",
            PanelTab::ApiProviders => "icons/rail-api.svg",
            PanelTab::EditorSettings => "icons/rail-editor-settings.svg",
            PanelTab::Display => "icons/rail-display.svg",
            PanelTab::HyprlandBinds => "icons/rail-binds.svg",
        }
    }
    /// Parse a scene/config id into a tab. Unknown → `None`.
    pub fn parse_id(s: &str) -> (r: Option<Self>)
        ensures
            r == parse_tab(s@),
    {
        let k = normalized_key(s);
        if text::eq_str(&k, "system") {
            return Some(PanelTab::System);
        }
        if text::eq_str(&k, "updates") {
            return Some(PanelTab::Updates);
        }
        if text::eq_str(&k, "files") {
            return Some(PanelTab::Files);
        }
        if text::eq_str(&k, "editor") {
            return Some(PanelTab::Editor);
        }
        if text::eq_str(&k, "terminal") {
            return Some(PanelTab::Terminal);
        }
        if text::eq_str(&k, "preview") {
            return Some(PanelTab::Preview);
        }
        if text::eq_str(&k, "inspector") {
            return Some(PanelTab::Inspector);
        }
        if text::eq_str(&k, "build") {
            return Some(PanelTab::Build);
        }
        if text::eq_str(&k, "library") {
            return Some(PanelTab::Library);
        }
        if text::eq_str(&k, "scenes") {
            return Some(PanelTab::Scenes);
        }
        if text::eq_str(&k, "captures") {
            return Some(PanelTab::Captures);
        }
        if text::eq_str(&k, "source_control") || text::eq_str(&k, "sourcecontrol") {
            return Some(PanelTab::SourceControl);
        }
        if text::eq_str(&k, "acp_settings") || text::eq_str(&k, "acpsettings") {
            return Some(PanelTab::AcpSettings);
        }
        if text::eq_str(&k, "mcp_settings") || text::eq_str(&k, "mcpsettings") {
            return Some(PanelTab::McpSettings);
        }
        if text::eq_str(&k, "lsp_settings") || text::eq_str(&k, "lspsettings") {
            return Some(PanelTab::LspSettings);
        }
        if text::eq_str(&k, "api_providers") || text::eq_str(&k, "apiproviders") {
            return Some(PanelTab::ApiProviders);
        }
        if text::eq_str(&k, "editor_settings") || text::eq_str(&k, "editorsettings") {
            return Some(PanelTab::EditorSettings);
        }
        if text::eq_str(&k, "display") {
            return Some(PanelTab::Display);
        }
        if text::eq_str(&k, "hyprland_binds") || text::eq_str(&k, "hyprlandbinds") {
            return Some(PanelTab::HyprlandBinds);
        }
        None    }

    /// Default rail composition for a workspace mode.
    pub fn for_mode(mode: WorkspaceMode) -> (r: Vec<PanelTab>)
        ensures
            r@ == mode_tabs(mode),
    {
        match mode {
            WorkspaceMode::Developer => vec![
                PanelTab::System,
                PanelTab::Updates,
                PanelTab::Files,
                PanelTab::Preview,
                PanelTab::HyprlandBinds,
                PanelTab::AcpSettings,
                PanelTab::Display,
                PanelTab::EditorSettings,
            ],
            WorkspaceMode::Gamer => vec![
                PanelTab::System,
                PanelTab::Updates,
                PanelTab::Library,
                PanelTab::Captures,
                PanelTab::AcpSettings,
                PanelTab::Display,
                PanelTab::EditorSettings,
                PanelTab::HyprlandBinds,
            ],
        }
    }

    /// Resolve the rail set: a scene override (if any) beats the mode
    /// default. Unknown names and repeats are skipped; if nothing remains,
    /// the mode default is used so the rail never goes empty.
    pub fn resolve_for_mode(mode: WorkspaceMode, scene_override: Option<&[String]>) -> (r: Vec<
        PanelTab,
    >)
        ensures
            r@.len() > 0,
            no_dups(r@),
            r@ == resolved_tabs(
                mode,
                match scene_override {
                    Some(ns) => Some(views(ns@)),
                    None => None,
                },
            ),
    {
        let names = match scene_override {
            Some(names) => names,
            None => {
                return Self::for_mode(mode);
            },
        };
        let ghost ns = views(names@);
        let mut tabs: Vec<PanelTab> = Vec::new();
        let mut i: usize = 0;
        while i < names.len()
            invariant
                i <= names.len(),
                ns == views(names@),
                tabs@ == parse_unique(ns.take(i as int), Seq::empty()),
            decreases names.len() - i,
        {
            assert(ns.take(i + 1).drop_last() =~= ns.take(i as int));
            match Self::parse_id(names[i].as_str()) {
                Some(tab) => {
                    if !contains_tab(&tabs, tab) {
                        tabs.push(tab);
                    }
                },
                None => {},
            }
            i = i + 1;
        }
        assert(ns.take(names.len() as int) =~= ns);
        proof {
            lemma_parse_unique(ns, Seq::empty());
        }
        if tabs.len() == 0 {
            Self::for_mode(mode)
        } else {
            tabs
        }
    }

    /// May the user drag this tab's width? Only Preview stays draggable.
    pub fn resizable(self) -> (r: bool)
        ensures
            r == (self == PanelTab::Preview),
    {
        matches!(self, PanelTab::Preview)
    }
}

} // verus!
