//! Small numeric helpers.

use vstd::prelude::*;

verus! {

/// `v` bounded to the byte range `[min, 255]`.
pub open spec fn clip_min_spec(v: int, min: int) -> int {
    if v < min {
        min
    } else if v > 255 {
        255
    } else {
        v
    }
}

/// Saturates a signed value into the byte range `[0, 255]`.
pub fn clip(v: i16) -> (r: u8)
    ensures
        r as int == clip_min_spec(v as int, 0),
{
    if v < 0 {
        0
    } else if v > 255 {
        255
    } else {
        v as u8
    }
}

/// Saturates a signed value into the byte range `[min, 255]`.
pub fn clip_min(v: i16, min: u8) -> (r: u8)
    ensures
        r as int == clip_min_spec(v as int, min as int),
{
    if v < min as i16 {
        min
    } else if v > 255 {
        255
    } else {
        v as u8
    }
}

} // verus!
