//! Decisions of the Windows layered-window presenter: when its DIB section
//! must be made anew, and the extent of the top-down bitmap.

use vstd::prelude::*;

verus! {

/// Whether a new DIB section is needed for a `w` x `h` frame, given the size
/// of the current one and whether there is one at all.
pub fn bitmap_outdated(current: (u32, u32), has_bitmap: bool, w: u32, h: u32) -> (outdated: bool)
    ensures
        outdated == !(current == (w, h) && has_bitmap),
{
    !(current.0 == w && current.1 == h && has_bitmap)
}

/// Width and height for the bitmap header of a `w` x `h` frame: the height is
/// negative, for rows that run from top to bottom.
pub fn dib_extent(w: u32, h: u32) -> (extent: (i32, i32))
    requires
        #[verifier::truncate] (h as i32) != i32::MIN,
    ensures
        extent.0 == #[verifier::truncate] (w as i32),
        extent.1 == -(#[verifier::truncate] (h as i32)),
{
    let hh = #[verifier::truncate] (h as i32);
    (#[verifier::truncate] (w as i32), -hh)
}

} // verus!
