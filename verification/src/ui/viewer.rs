//! What the image view reports after a frame.
use vstd::prelude::*;

verus! {

/// Whether the user zoomed or panned the image during a frame.
#[derive(Debug)]
pub struct ViewResponse {
    pub zoomed: bool,
    pub panned: bool,
}

impl Default for ViewResponse {
    /// Neither zoomed nor panned.
    fn default() -> (r: Self)
        ensures
            !r.zoomed && !r.panned,
    {
        ViewResponse { zoomed: false, panned: false }
    }
}

} // verus!
