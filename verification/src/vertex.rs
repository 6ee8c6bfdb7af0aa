//! One output point of the generator.

use vstd::prelude::*;

verus! {

/// A generated point: a plane position and a hue tag, all fixed-point
/// raw values (see [`crate::fixed::SCALE`]). `hue` is the point's
/// normalized position in the generation sequence, in `[0, 1]`, used
/// downstream for a color gradient.
#[derive(Clone, Copy, PartialEq, Eq, Structural, Debug)]
pub struct Vertex {
    pub x: i64,
    pub y: i64,
    pub hue: i64,
}

impl Default for Vertex {
    /// The origin with hue zero, the chaos game's starting point.
    fn default() -> (r: Vertex)
        ensures
            r == (Vertex { x: 0, y: 0, hue: 0 }),
    {
        Vertex { x: 0, y: 0, hue: 0 }
    }
}

} // verus!
