//! Paths, errors, text helpers and platform integration.

pub mod text;
pub mod errors;
pub mod default_app;
pub mod paths;
pub mod rounding;
pub mod float_text;
