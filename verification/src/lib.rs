//! Verified core of the right side panel: tab catalog and ids, rail layout
//! configuration, and the text logic of its tabs.

pub mod text;
pub mod tabs;
pub mod workspace_mode;
pub mod panels_config;
pub mod launcher_settings;
pub mod library;
pub mod power;
pub mod power_row;
pub mod preview_target;
pub mod hypr_binds;
pub mod preview;
pub mod header;
pub mod mpris_card;
pub mod terminal_keys;
pub mod view_state;
pub mod panel_surfaces;
pub mod updates;
pub mod peek;
pub mod files;
