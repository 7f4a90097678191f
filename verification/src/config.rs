//! Render configuration: image size derivation and input validation.

use vstd::prelude::*;

verus! {

/// Horizontal part of the fixed 16:9 aspect ratio.
pub const ASPECT_HORIZONTAL: usize = 16;

/// Vertical part of the fixed 16:9 aspect ratio.
pub const ASPECT_VERTICAL: usize = 9;

/// Image height derived from a width at the fixed 16:9 aspect ratio,
/// truncating toward zero.
pub open spec fn spec_image_height(width: nat) -> nat {
    width * 9 / 16
}

/// Derives the image height from the image width at the fixed 16:9 aspect
/// ratio, truncating toward zero.
pub fn image_height(image_width: usize) -> (r: usize)
    requires
        image_width * 9 <= usize::MAX,
    ensures
        r == spec_image_height(image_width as nat),
{
    image_width * ASPECT_VERTICAL / ASPECT_HORIZONTAL
}

/// A validated render configuration.
#[derive(Clone, Copy, Debug, PartialEq, Eq, Structural)]
pub struct Config {
    /// Width of the output image in pixels.
    pub image_width: usize,
    /// Height of the output image in pixels, derived from the width.
    pub image_height: usize,
    /// Number of jittered primary rays drawn per pixel.
    pub samples_per_pixel: usize,
    /// Maximum number of recursive bounces per ray path.
    pub bounce_budget: usize,
}

impl Config {
    /// Validates the raw configuration values and derives the image height.
    ///
    /// The width and the sample count must be positive: zero samples would
    /// make the per-pixel average divide by zero, and a zero-width image has
    /// no pixels to address. A bounce budget of zero is allowed.
    pub fn new(image_width: usize, samples_per_pixel: usize, bounce_budget: usize) -> (r: Option<
        Config,
    >)
        ensures
            r is Some <==> 1 <= image_width && image_width * 9 <= usize::MAX && 1
                <= samples_per_pixel,
            r matches Some(c) ==> c == (Config {
                image_width,
                image_height: spec_image_height(image_width as nat) as usize,
                samples_per_pixel,
                bounce_budget,
            }),
    {
        if image_width == 0 || samples_per_pixel == 0 {
            return None;
        }
        if image_width > usize::MAX / ASPECT_VERTICAL {
            return None;
        }
        Some(
            Config {
                image_width,
                image_height: image_height(image_width),
                samples_per_pixel,
                bounce_budget,
            },
        )
    }
}

} // verus!
