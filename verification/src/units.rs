//! Fixed-point lengths and pixel geometry.
//!
//! One length unit is a third of a micrometre. That makes a pixel at the
//! fixed screen density (1000 units) and a micrometre (3 units) whole
//! numbers, so sizes derived from pixels, their halves, and thicknesses given
//! in metric units are all held without rounding.

use vstd::prelude::*;

verus! {

/// Pixels per metre: the one screen density every surface shares.
pub const PPM: u32 = 3000;

/// Length units in one pixel at [`PPM`].
pub const UNITS_PER_PIXEL: i64 = 1000;

/// Length units in one micrometre.
pub const UNITS_PER_MICROMETRE: i64 = 3;

/// Length units in one metre.
pub const UNITS_PER_METRE: i64 = 3_000_000;

/// A signed length in units of a third of a micrometre.
#[derive(Clone, Copy, Debug, PartialEq, Eq, Structural)]
pub struct Length {
    pub units: i64,
}

impl Length {
    /// Whether this length is exactly `num / den` metres.
    pub open spec fn is_metres(self, num: int, den: int) -> bool {
        den != 0 && self.units * den == num * UNITS_PER_METRE
    }

    /// The length zero.
    pub fn zero() -> (l: Length)
        ensures
            l.units == 0,
    {
        Length { units: 0 }
    }

    /// The length of `px` pixels at the fixed density.
    pub fn from_pixels(px: u32) -> (l: Length)
        ensures
            l.units == px * UNITS_PER_PIXEL,
            l.is_metres(px as int, PPM as int),
    {
        let wide: i64 = px as i64;
        Length { units: wide * UNITS_PER_PIXEL }
    }

    /// The signed length of a pixel offset at the fixed density.
    pub fn from_pixel_offset(px: i32) -> (l: Length)
        ensures
            l.units == px * UNITS_PER_PIXEL,
            l.is_metres(px as int, PPM as int),
    {
        let wide: i64 = px as i64;
        Length { units: wide * UNITS_PER_PIXEL }
    }

    /// The length of `um` micrometres.
    pub fn from_micrometres(um: i32) -> (l: Length)
        ensures
            l.units == um * UNITS_PER_MICROMETRE,
            l.is_metres(um as int, 1_000_000),
    {
        let wide: i64 = um as i64;
        Length { units: wide * UNITS_PER_MICROMETRE }
    }
}

/// A physical extent in two directions.
#[derive(Clone, Copy, Debug, PartialEq, Eq, Structural)]
pub struct Size2 {
    pub width: Length,
    pub height: Length,
}

/// A point in a surface's frame: `x` to the right, `y` up, `z` towards the
/// viewer.
#[derive(Clone, Copy, Debug, PartialEq, Eq, Structural)]
pub struct Point3 {
    pub x: Length,
    pub y: Length,
    pub z: Length,
}

/// An axis-aligned box, given by its corners of least and greatest
/// coordinates.
#[derive(Clone, Copy, Debug, PartialEq, Eq, Structural)]
pub struct Bounds3 {
    pub min: Point3,
    pub max: Point3,
}

/// A size in whole pixels.
#[derive(Clone, Copy, Debug, PartialEq, Eq, Structural)]
pub struct PixelSize {
    pub x: u32,
    pub y: u32,
}

/// An offset in whole pixels.
#[derive(Clone, Copy, Debug, PartialEq, Eq, Structural)]
pub struct PixelOffset {
    pub x: i32,
    pub y: i32,
}

/// Where a drawable region lies in its parent, in pixels: the offset of its
/// origin and its size.
#[derive(Clone, Copy, Debug, PartialEq, Eq, Structural)]
pub struct Geometry {
    pub origin: PixelOffset,
    pub size: PixelSize,
}

/// The physical size of a pixel size: each side divided by the density.
pub open spec fn physical_size_of(px: PixelSize) -> Size2 {
    Size2 {
        width: Length { units: (px.x * UNITS_PER_PIXEL) as i64 },
        height: Length { units: (px.y * UNITS_PER_PIXEL) as i64 },
    }
}

impl PixelSize {
    /// Whether the size encloses no pixel.
    pub open spec fn is_empty(self) -> bool {
        self.x == 0 || self.y == 0
    }

    /// The physical size of this pixel size at the fixed density.
    pub fn physical(&self) -> (size: Size2)
        ensures
            size == physical_size_of(*self),
            size.width.is_metres(self.x as int, PPM as int),
            size.height.is_metres(self.y as int, PPM as int),
    {
        Size2 { width: Length::from_pixels(self.x), height: Length::from_pixels(self.y) }
    }
}

} // verus!
