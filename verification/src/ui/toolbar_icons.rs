//! The icons of the toolbar. Drawing them is done by the program.
use vstd::prelude::*;

verus! {

/// An icon of the toolbar.
#[derive(Debug, Clone, Copy, PartialEq, Eq, Structural)]
pub enum ToolbarIcon {
    Prev,
    Next,
    RotateCw,
    Fit,
    Fullscreen,
    Sidebar,
    Info,
    Slideshow,
    Edit,
    Settings,
}

} // verus!
