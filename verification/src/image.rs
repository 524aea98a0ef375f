//! The pixel dimensions of a rendered image.

use vstd::prelude::*;

verus! {

/// Width and height of an image, in pixels.
///
/// The render loop produces exactly `width * height` colours, one per pixel,
/// in row-major order.
#[derive(Clone, Copy, Debug, PartialEq, Eq, Structural)]
pub struct ImageSize {
    pub height: usize,
    pub width: usize,
}

impl ImageSize {
    pub fn new(width: usize, height: usize) -> (size: Self)
        ensures
            size.width == width,
            size.height == height,
    {
        Self { width, height }
    }

    /// Total number of pixels in the image grid.
    pub fn get_pixel_count(&self) -> (count: usize)
        requires
            self.width * self.height <= usize::MAX,
        ensures
            count == self.width * self.height,
    {
        self.width * self.height
    }
}

impl Default for ImageSize {
    fn default() -> (size: Self)
        ensures
            size.width == 1200,
            size.height == 800,
    {
        Self { width: 1200, height: 800 }
    }
}

} // verus!
