//! User preferences.

pub mod settings;
