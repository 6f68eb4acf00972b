//! What the interface shows: status text, panels' state, themes.

pub mod editor;
pub mod info_panel;
pub mod shortcut_dialog;
pub mod statusbar;
pub mod theme;
pub mod toolbar_icons;
pub mod viewer;
