//! Kaze's browser core, independent of any toolkit or engine: the tab
//! model and its store, the settings schema and search engines, theme
//! resolution, address-bar input handling, the new-tab page, the
//! content-blocker ruleset, and the window's reactions to tab events.

pub mod adblock;
pub mod engine;
pub mod migrations;
pub mod newtab;
pub mod settings;
pub mod sidebar;
pub mod tabs;
pub mod text;
pub mod theme;
pub mod window;
