//! The viewport mapper: from a pixel, a pan offset and a magnification to a
//! coordinate of the complex plane, in exact arithmetic.
//!
//! A pan offset is a whole number of units, `UNITS_PER_PIXEL` of them to a
//! pixel, so that a velocity in pixels per second times a time in nanoseconds
//! is a whole number of units. A coordinate is a quotient of two whole
//! numbers; turning it into a machine number is left to the caller.
use vstd::prelude::*;

verus! {

/// Units of pan offset in one pixel.
pub const UNITS_PER_PIXEL: i128 = 1_000_000_000;

/// The largest pan offset, in units, that a viewport holds (two to the 120th).
pub const OFFSET_LIMIT: i128 = 0x100_0000_0000_0000_0000_0000_0000_0000;

/// The largest magnification that a viewport holds (two to the 60th).
pub const MAX_MAGNIFICATION: u64 = 0x1000_0000_0000_0000;

/// Whether `offset` is a pan offset that a viewport can hold.
pub open spec fn offset_in_range(offset: int) -> bool {
    -OFFSET_LIMIT <= offset <= OFFSET_LIMIT
}

/// Whether `magnification` is a scale that the mapper accepts.
pub open spec fn magnification_in_range(magnification: int) -> bool {
    1 <= magnification <= MAX_MAGNIFICATION
}

/// The denominator of a mapped coordinate: the width of the window on the
/// complex plane is four, spread over `axis_extent * magnification` pixels.
pub open spec fn coordinate_denominator(axis_extent: int, magnification: int) -> int {
    axis_extent * UNITS_PER_PIXEL * magnification
}

/// The numerator of a mapped coordinate, so that numerator over denominator is
/// `((pixel + pan) / axis_extent / magnification) * 4 - 2` with `pan` taken in
/// pixels.
pub open spec fn coordinate_numerator(
    pixel: int,
    axis_extent: int,
    pan_offset_component: int,
    magnification: int,
) -> int {
    4 * (pixel * UNITS_PER_PIXEL + pan_offset_component) - 2 * coordinate_denominator(
        axis_extent,
        magnification,
    )
}

/// Whether two quotients, each a numerator and a denominator, are the same
/// number: they are where the cross products agree.
pub open spec fn same_quotient(a: (int, int), b: (int, int)) -> bool {
    a.0 * b.1 == b.0 * a.1
}

/// Whether a quotient, a numerator and a positive denominator, is the whole
/// number `value`.
pub open spec fn is_whole(quotient: (int, int), value: int) -> bool {
    quotient.1 > 0 && quotient.0 == value * quotient.1
}

/// The coordinate that the mapper gives, as numerator and denominator.
pub open spec fn mapped(
    pixel: int,
    axis_extent: int,
    pan_offset_component: int,
    magnification: int,
) -> (int, int) {
    (
        coordinate_numerator(pixel, axis_extent, pan_offset_component, magnification),
        coordinate_denominator(axis_extent, magnification),
    )
}

/// A coordinate on one axis of the complex plane: `numerator / denominator`.
#[derive(Clone, Copy, Debug)]
pub struct Coordinate {
    pub numerator: i128,
    pub denominator: i128,
}

impl Coordinate {
    /// A coordinate has a positive denominator.
    pub open spec fn wf(self) -> bool {
        self.denominator > 0
    }

    /// Whether this is the coordinate that the mapper gives for these inputs.
    pub open spec fn is_mapped(
        self,
        pixel: int,
        axis_extent: int,
        pan_offset_component: int,
        magnification: int,
    ) -> bool {
        (self.numerator as int, self.denominator as int) == mapped(
            pixel,
            axis_extent,
            pan_offset_component,
            magnification,
        )
    }
}

/// A point of the complex plane.
#[derive(Clone, Copy, Debug)]
pub struct PlanePoint {
    pub real: Coordinate,
    pub imaginary: Coordinate,
}

/// The denominator of a mapped coordinate is positive and leaves room for the
/// numerator in 128 bits.
proof fn lemma_denominator_bounds(axis_extent: int, magnification: int)
    requires
        0 < axis_extent <= u32::MAX,
        magnification_in_range(magnification),
    ensures
        0 < coordinate_denominator(axis_extent, magnification)
            <= 0x400_0000_0000_0000_0000_0000_0000_0000,
{
    let per_pixel: int = axis_extent * UNITS_PER_PIXEL;
    assert(0 < per_pixel <= 0x4000_0000_0000_0000);
    assert(0 < per_pixel * magnification <= 0x4000_0000_0000_0000 * 0x1000_0000_0000_0000)
        by (nonlinear_arith)
        requires
            0 < per_pixel <= 0x4000_0000_0000_0000,
            1 <= magnification <= 0x1000_0000_0000_0000,
    ;
}

/// Maps a pixel of one axis to its coordinate on the complex plane.
///
/// `pan_offset_component` is in units, `axis_extent` in pixels. The result is
/// `((pixel + pan) / axis_extent / magnification) * 4 - 2`, held as a quotient.
pub fn to_complex_coordinate(
    pixel: i64,
    axis_extent: u32,
    pan_offset_component: i128,
    magnification: u64,
) -> (coordinate: Coordinate)
    requires
        axis_extent > 0,
        magnification_in_range(magnification as int),
        offset_in_range(pan_offset_component as int),
    ensures
        coordinate.is_mapped(
            pixel as int,
            axis_extent as int,
            pan_offset_component as int,
            magnification as int,
        ),
        coordinate.wf(),
{
    proof {
        lemma_denominator_bounds(axis_extent as int, magnification as int);
    }
    let per_pixel: i128 = axis_extent as i128 * UNITS_PER_PIXEL;
    let denominator: i128 = per_pixel * magnification as i128;
    let position: i128 = pixel as i128 * UNITS_PER_PIXEL + pan_offset_component;
    Coordinate { numerator: 4 * position - 2 * denominator, denominator }
}

/// At magnification one and without pan, the first pixel of an axis maps to
/// minus two and the pixel one past its last maps to plus two, whatever the
/// extent of the axis.
pub proof fn lemma_endpoints_at_identity(axis_extent: int)
    requires
        axis_extent > 0,
    ensures
        is_whole(mapped(0, axis_extent, 0, 1), -2),
        is_whole(mapped(axis_extent, axis_extent, 0, 1), 2),
{
}

} // verus!
