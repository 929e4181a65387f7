//! The one piece of food on the board.

use rand::Rng;
use vstd::prelude::*;

verus! {

#[derive(Clone, Copy, Debug, PartialEq, Eq, Structural)]
pub struct Food {
    pub x: usize,
    pub y: usize,
}

/// Calls `gen_range(0..n)` of the `rand` crate on the generator that
/// `rand::thread_rng()` hands out. The result differs from call to call;
/// all that is claimed is that it lies below `n`, which the crate documents
/// for a half-open range. An empty range makes it panic, so `n` must be
/// positive. It also panics where the operating system gives the thread's
/// generator no seed, which no argument can prevent.
#[verifier::external_body]
fn random_below(n: usize) -> (r: usize)
    requires
        n > 0,
    ensures
        r < n,
{
    rand::thread_rng().gen_range(0..n)
}

impl Food {
    /// Food on the cell `(x, y)`.
    pub fn at(x: usize, y: usize) -> (r: Self)
        ensures
            r.x == x,
            r.y == y,
    {
        Self { x, y }
    }

    /// Food on the cell of a `width` by `height` board whose column and row
    /// the thread's random generator picks, in this order, and `at` takes.
    pub fn new_random(width: usize, height: usize) -> (r: Self)
        requires
            width > 0,
            height > 0,
        ensures
            r.x < width,
            r.y < height,
    {
        let x: usize = random_below(width);
        let y: usize = random_below(height);
        Food::at(x, y)
    }
}

} // verus!
