//! What a render is asked for, and when the request is refused.

use crate::canvas::{frame_fits, frame_fits_in_memory};
use vstd::prelude::*;

verus! {

/// Why a render is refused before anything is computed.
#[derive(Clone, Copy, Debug, PartialEq, Eq, Structural)]
pub enum ConfigError {
    /// A resolution is zero: the frame has no pixel.
    EmptyFrame,
    /// The viewport's right bound is not right of its left bound, or its top
    /// bound is not above its bottom bound.
    DegenerateViewport,
    /// The frame takes more bytes than a buffer can hold.
    FrameTooLarge,
}

/// The verdict on a request: the first of the three faults that it has, or
/// none.
pub open spec fn config_verdict(
    x_resolution: u32,
    y_resolution: u32,
    has_width: bool,
    has_height: bool,
) -> Result<(), ConfigError> {
    if x_resolution == 0 || y_resolution == 0 {
        Err(ConfigError::EmptyFrame)
    } else if !has_width || !has_height {
        Err(ConfigError::DegenerateViewport)
    } else if !frame_fits(x_resolution as nat, y_resolution as nat) {
        Err(ConfigError::FrameTooLarge)
    } else {
        Ok(())
    }
}

/// Checks a request before any pixel is sampled. The viewport's bounds are
/// not integers: the caller compares them, and passes as `has_width` whether
/// right is greater than left, and as `has_height` whether top is greater
/// than bottom.
pub fn check_config(x_resolution: u32, y_resolution: u32, has_width: bool, has_height: bool) -> (verdict:
    Result<(), ConfigError>)
    ensures
        verdict == config_verdict(x_resolution, y_resolution, has_width, has_height),
{
    if x_resolution == 0 || y_resolution == 0 {
        Err(ConfigError::EmptyFrame)
    } else if !has_width || !has_height {
        Err(ConfigError::DegenerateViewport)
    } else if !frame_fits_in_memory(x_resolution, y_resolution) {
        Err(ConfigError::FrameTooLarge)
    } else {
        Ok(())
    }
}

} // verus!
