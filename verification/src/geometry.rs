//! Integer geometry in logical units, and sub-pixel pointer coordinates.
//!
//! Window positions and sizes are whole logical units. Pointer positions carry
//! a fraction: they are counted in sub-pixels, [`SUBPIXELS`] to the unit.

use vstd::prelude::*;

verus! {

/// Sub-pixels per logical unit.
pub const SUBPIXELS: i64 = 256;

/// A position in whole logical units.
#[derive(Clone, Copy, Debug, PartialEq, Eq, Structural)]
pub struct Point {
    pub x: i32,
    pub y: i32,
}

/// An extent in whole logical units.
#[derive(Clone, Copy, Debug, PartialEq, Eq, Structural)]
pub struct Size {
    pub w: i32,
    pub h: i32,
}

/// A position in sub-pixels.
#[derive(Clone, Copy, Debug, PartialEq, Eq, Structural)]
pub struct PointerLocation {
    pub x: i64,
    pub y: i64,
}

/// `v` limited to the range of `i32`.
pub open spec fn clamp_i32(v: int) -> int {
    if v < i32::MIN {
        i32::MIN as int
    } else if v > i32::MAX {
        i32::MAX as int
    } else {
        v
    }
}

/// The whole unit nearest to `n` sub-pixels; a tie goes away from zero.
pub open spec fn round_units(n: int) -> int {
    if n >= 0 {
        (n + 128) / 256
    } else {
        -((128 - n) / 256)
    }
}

/// The whole units in `n` sub-pixels, the fraction dropped towards zero.
pub open spec fn trunc_units(n: int) -> int {
    if n >= 0 {
        n / 256
    } else {
        -((-n) / 256)
    }
}

/// Whether `v` can be held in an `i32`.
pub open spec fn fits_i32(v: int) -> bool {
    i32::MIN <= v <= i32::MAX
}

/// Narrows `v` to `i32`, stopping at the ends of the range.
pub fn saturate_i32(v: i128) -> (r: i32)
    ensures
        r == clamp_i32(v as int),
{
    if v < -2147483648i128 {
        -2147483648i32
    } else if v > 2147483647i128 {
        2147483647i32
    } else {
        v as i32
    }
}

/// Rounds `n` sub-pixels to the nearest whole unit, ties away from zero.
pub fn round_to_units(n: i128) -> (r: i128)
    requires
        -0x4000_0000_0000_0000_0000 <= n <= 0x4000_0000_0000_0000_0000,
    ensures
        r == round_units(n as int),
{
    if n >= 0 {
        let m: u128 = (n + 128) as u128;
        (m / 256) as i128
    } else {
        let m: u128 = (128 - n) as u128;
        -((m / 256) as i128)
    }
}

/// Drops the fraction of `n` sub-pixels, towards zero.
pub fn trunc_to_units(n: i128) -> (r: i128)
    requires
        -0x4000_0000_0000_0000_0000 <= n <= 0x4000_0000_0000_0000_0000,
    ensures
        r == trunc_units(n as int),
{
    if n >= 0 {
        let m: u128 = n as u128;
        (m / 256) as i128
    } else {
        let m: u128 = (-n) as u128;
        -((m / 256) as i128)
    }
}

impl Point {
    pub fn new(x: i32, y: i32) -> (p: Point)
        ensures
            p == (Point { x, y }),
    {
        Point { x, y }
    }
}

impl Size {
    pub fn new(w: i32, h: i32) -> (s: Size)
        ensures
            s == (Size { w, h }),
    {
        Size { w, h }
    }
}

impl PointerLocation {
    pub fn new(x: i64, y: i64) -> (p: PointerLocation)
        ensures
            p == (PointerLocation { x, y }),
    {
        PointerLocation { x, y }
    }

    /// The pointer location at the corner of a whole-unit position.
    pub fn from_point(p: Point) -> (l: PointerLocation)
        ensures
            l.x == p.x * 256,
            l.y == p.y * 256,
    {
        PointerLocation { x: (p.x as i64) * 256, y: (p.y as i64) * 256 }
    }
}

} // verus!
