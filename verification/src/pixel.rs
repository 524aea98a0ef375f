//! Row-major pixel scheduling for the render loop.
//!
//! Rendering distributes one task per pixel across a worker pool. Each task
//! derives everything that distinguishes it from its neighbours from the
//! pixel's linear index alone: the index selects the task's output slot in
//! the flat colour buffer, and it names the random stream the task seeds, so
//! a pixel's colour is a pure function of the scene and its index, however
//! the workers are scheduled. The functions here compute that mapping and
//! the lemmas pin down that it is a bijection between coordinates and
//! indices: no two pixels share a slot or a stream.

use vstd::prelude::*;

use vstd::arithmetic::div_mod::lemma_fundamental_div_mod;
use vstd::arithmetic::div_mod::lemma_fundamental_div_mod_converse;
use vstd::arithmetic::div_mod::lemma_multiply_divide_lt;
use vstd::arithmetic::mul::lemma_mul_inequality;

use crate::image::ImageSize;

verus! {

/// Linear index of the pixel at column `x`, row `y`: its output slot and the
/// identity of its random stream.
pub fn pixel_index(size: &ImageSize, x: usize, y: usize) -> (n: usize)
    requires
        x < size.width,
        y < size.height,
        size.width * size.height <= usize::MAX,
    ensures
        n == y * size.width + x,
        n < size.width * size.height,
{
    proof {
        lemma_mul_inequality(y + 1, size.height as int, size.width as int);
        assert((y + 1) * size.width == y * size.width + size.width) by (nonlinear_arith);
        assert(size.height * size.width == size.width * size.height) by (nonlinear_arith);
    }
    y * size.width + x
}

/// Column and row of the pixel with linear index `n`.
pub fn pixel_coordinates(size: &ImageSize, n: usize) -> (xy: (usize, usize))
    requires
        size.width > 0,
        n < size.width * size.height,
    ensures
        xy.0 == n % size.width,
        xy.1 == n / size.width,
        xy.0 < size.width,
        xy.1 < size.height,
        n == xy.1 * size.width + xy.0,
{
    proof {
        lemma_fundamental_div_mod(n as int, size.width as int);
        lemma_multiply_divide_lt(n as int, size.width as int, size.height as int);
        assert(size.width * (n / size.width) == (n / size.width) * size.width)
            by (nonlinear_arith);
    }
    (n % size.width, n / size.width)
}

/// The index map is left-inverse to the coordinate map: the pixel at column
/// `x`, row `y` of an image `width` pixels wide is the one its index says it
/// is. Together with [`lemma_pixel_slots_disjoint`] this makes the
/// coordinate/index correspondence a bijection, which is what lets every
/// render task run independently: its random stream and its output slot
/// follow from its coordinates alone.
pub proof fn lemma_pixel_index_roundtrip(width: int, x: int, y: int)
    requires
        0 <= x < width,
        0 <= y,
    ensures
        (y * width + x) % width == x,
        (y * width + x) / width == y,
{
    lemma_fundamental_div_mod_converse(y * width + x, width, y, x);
}

/// Distinct pixels own distinct linear indices, hence disjoint output slots
/// and distinct random streams: rendering the same scene with the same
/// sample count gives every pixel the same colour whatever the number of
/// workers or the order they run in.
pub proof fn lemma_pixel_slots_disjoint(width: int, x1: int, y1: int, x2: int, y2: int)
    requires
        0 <= x1 < width,
        0 <= x2 < width,
        0 <= y1,
        0 <= y2,
        y1 * width + x1 == y2 * width + x2,
    ensures
        x1 == x2,
        y1 == y2,
{
    lemma_pixel_index_roundtrip(width, x1, y1);
    lemma_pixel_index_roundtrip(width, x2, y2);
}

} // verus!
