//! The user's preferences. Loading and saving them as TOML is done by the
//! program.
use crate::viewer_core::shortcuts::{default_entries, ShortcutMap};
use vstd::prelude::*;

verus! {

/// The default slideshow interval, in seconds.
pub fn default_slideshow_interval_secs() -> (r: u64)
    ensures
        r == 5,
{
    5
}

/// The preferences that persist between sessions.
#[derive(Debug, Clone, PartialEq, Eq)]
pub struct Settings {
    /// Limit of the image cache, in MiB (default 512).
    pub cache_memory_limit_mb: u64,
    /// The interface theme: `"dark"` or `"light"`.
    pub theme: String,
    /// The keyboard shortcuts (default: those of `ShortcutMap::defaults`).
    pub shortcuts: ShortcutMap,
    /// The slideshow interval, in seconds (default 5).
    pub slideshow_interval_secs: u64,
}

impl Default for Settings {
    fn default() -> (r: Self)
        ensures
            r.cache_memory_limit_mb == 512,
            r.theme@ == "dark"@,
            r.shortcuts.view_entries() == default_entries(),
            r.slideshow_interval_secs == 5,
    {
        Settings {
            cache_memory_limit_mb: 512,
            theme: String::from_str("dark"),
            shortcuts: ShortcutMap::defaults(),
            slideshow_interval_secs: default_slideshow_interval_secs(),
        }
    }
}

} // verus!
