//! The checkerboard lattice test.

use vstd::prelude::*;

use vstd::arithmetic::div_mod::lemma_add_mod_noop;
use vstd::arithmetic::div_mod::lemma_add_mod_noop_right;
use vstd::arithmetic::div_mod::lemma_mod_multiples_vanish;
use vstd::math::abs;

verus! {

/// Whether the checker lattice cell with floored coordinates `(x, y, z)` is
/// an "even" cell. A checker texture scales the point being shaded, floors
/// each coordinate, and colours the cell by the parity of their sum.
///
/// The sum is folded through `% 2` term by term, so the answer is exact even
/// where `x + y + z` would not fit in the machine word.
pub fn lattice_parity(x: u64, y: u64, z: u64) -> (even: bool)
    ensures
        even <==> (x + y + z) % 2 == 0,
{
    let r: u64 = ((x % 2) + (y % 2) + (z % 2)) % 2;
    proof {
        let s = (x % 2) + (y % 2);
        lemma_add_mod_noop_right(s, z as int, 2);
        lemma_add_mod_noop(s, z as int, 2);
        lemma_add_mod_noop(x as int, y as int, 2);
        lemma_add_mod_noop((x + y) as int, z as int, 2);
        assert(r == (x + y + z) % 2);
    }
    r == 0
}

/// A cell's floored coordinates can be negative, and the caller folds each
/// sign away before handing the magnitudes to [`lattice_parity`]. That fold
/// is sound: over the integers, `|a| + |b| + |c|` has the same parity as
/// `a + b + c`, so no cell changes colour.
pub proof fn lemma_abs_sum_parity(a: int, b: int, c: int)
    ensures
        (abs(a) + abs(b) + abs(c)) % 2 == (a + b + c) % 2,
{
    let k = (if a < 0 {
        -a
    } else {
        0
    }) + (if b < 0 {
        -b
    } else {
        0
    }) + (if c < 0 {
        -c
    } else {
        0
    });
    assert(abs(a) + abs(b) + abs(c) == 2 * k + (a + b + c));
    lemma_mod_multiples_vanish(k, a + b + c, 2);
}

} // verus!
