# side_panel_right

The right side panel of a Wayland desktop shell, as a verified library:

- `tabs` — the tab catalog, stable ids and their parsing, and the rail of
  each workspace mode with scene overrides.
- `panels_config` — the `panels.toml` rail layout: defaults, sanitization,
  reordering between the top and bottom groups, resolution into tabs, and
  the in-memory cache.
- `hypr_binds` — the parser behind the Hyprland keybind list.
- `preview` — file-kind classification, the load/edit/save lifecycle of the
  preview tab, and remote-image redaction of markdown previews.
- `files` — the generation-stamped directory listing of the files tab.
- `library` — the game library: filtering and case-insensitive sorting of
  detected games, and their split into pinned, recent and "all" sections.
- `updates` — the package selection of the updates tab, and which rows may
  feed it (never AUR rows). The selection is a `Vec<String>` with an
  invariant that no name occurs twice, in place of a `HashSet<String>`:
  with `String` keys vstd's `HashSet` specification proves too little
  (not even the length after one insert).
- `peek` — the hover peek: when a mouse-leave may close the panel.
- `mpris_card`, `header`, `launcher_settings`, `power_row`, `terminal_keys`,
  `view_state`, `panel_surfaces` — the small decisions and text of the other
  tabs and surfaces.
- `text` — character-level helpers with their specifications.

Each public function states its result in `ensures` (what outside calls
return — `Path::extension`, `PathBuf` equality, `str::to_lowercase` — is
named by uninterpreted spec functions); the laws of the
library (idempotent sanitization, moves undone by the opposite move,
id round trips, case-insensitive parsing, ...) are public proof functions.

`app/` holds what the library leaves out: reading and writing the layout
file and watching it, reading the Hyprland modules, resolving album-art
paths on disk, reading files for the preview, the local time and `$SHELL`,
and the floating-point geometry of the panel.
