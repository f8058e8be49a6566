//! Plain value types shared by the whole graphics stack.

use vstd::prelude::*;

verus! {

/// A 24-bit color: one byte per channel. No invariant beyond the byte range.
#[derive(Copy, Clone, Debug, Eq, PartialEq, Structural)]
pub struct PixelColor {
    pub r: u8,
    pub g: u8,
    pub b: u8,
}

/// A generic pair with a value for each axis, used for both pixel-space and
/// character-grid-space positions. Grid and pixel coordinates are told apart
/// only by how they are computed; mixing them requires explicit scaling by
/// the glyph cell size.
#[derive(Copy, Clone, Debug, Eq, PartialEq, Structural)]
pub struct XY<T> {
    /// X-axis value
    pub x: T,
    /// Y-axis value
    pub y: T,
}

impl<T> XY<T> {
    /// Creates a new `XY` from the given values.
    pub fn new(x: T, y: T) -> (r: Self)
        ensures
            r == (XY { x, y }),
    {
        XY { x, y }
    }
}

/// A coordinate pair written as a tuple, the other spelling of [`XY`] that
/// parts of the stack historically used for pixel positions.
#[derive(Copy, Clone, Debug, Eq, PartialEq, Structural)]
pub struct Coord<T>(pub T, pub T);

/// The characters of `s`, in order.
pub(crate) fn str_chars(s: &str) -> (v: Vec<char>)
    ensures
        v@ == s@,
{
    broadcast use vstd::string::axiom_spec_iter;

    let mut v: Vec<char> = Vec::new();
    for c in it: s.chars()
        invariant
            v@ == it.history(),
    {
        v.push(c);
    }
    proof {
        assert(v@ =~= s@);
    }
    v
}

} // verus!
