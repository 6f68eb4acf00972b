//! Image handling, navigation and the viewer's state machines.

pub mod actions;
pub mod image_cache;
pub mod lang;
pub mod image_loader;
pub mod lru;
pub mod thumbnail_cache;
pub mod thumbnail_gen;
pub mod shortcuts;
pub mod slideshow;
pub mod thumb_queue;
pub mod navigation;
pub mod preload;
pub mod edit_state;
pub mod editor;
pub mod exif;
pub mod export;
pub mod session;
