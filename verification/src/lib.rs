//! Sh_Images: the verified core of a native image viewer.
//!
//! The library holds the viewer's logic: the LRU caches of decoded images and
//! thumbnails, folder navigation and preloading, the thumbnail work queue,
//! slideshow timing, keyboard shortcuts, EXIF curation and the text shown by
//! the status bar. The program around it (windowing, decoding, disk access)
//! lives in `app/`.

pub mod cli;
pub mod config;
pub mod ui;
pub mod viewer_core;
pub mod utils;
