use vstd::prelude::*;

use crate::geometry::{floor_sqrt, isqrt, trunc_div, trunc_div_i128, valid_coord};

verus! {

// Screen geometry: the field is drawn 468 pixels wide, six tiles of 24 inches,
// with its centre at pixel (638, 339). One inch is 13/4 pixels.

/// Pixel column of the field's centre.
pub const ORIGIN_X: i64 = 638;

/// Pixel row of the field's centre.
pub const ORIGIN_Y: i64 = 339;

/// Tolerance for picking a control point with the pointer, thousandths of an inch.
pub const PICK_TOLERANCE: u64 = 3000;

pub open spec fn clamp_i32(v: int) -> int {
    if v < i32::MIN {
        i32::MIN as int
    } else if v > i32::MAX {
        i32::MAX as int
    } else {
        v
    }
}

/// Pixel column of a field x coordinate, rounded toward zero and saturated.
pub open spec fn pixel_x(x: int) -> int {
    clamp_i32(trunc_div(13 * x + 4000 * ORIGIN_X, 4000))
}

/// Pixel row of a field y coordinate (rows grow downward), rounded toward
/// zero and saturated.
pub open spec fn pixel_y(y: int) -> int {
    clamp_i32(trunc_div(-13 * y + 4000 * ORIGIN_Y, 4000))
}

/// Field x coordinate of a pixel column, rounded toward zero.
pub open spec fn field_x(px: int) -> int {
    trunc_div((px - ORIGIN_X) * 4000, 13)
}

/// Field y coordinate of a pixel row, rounded toward zero.
pub open spec fn field_y(py: int) -> int {
    trunc_div((ORIGIN_Y - py) * 4000, 13)
}

fn saturate_i32(v: i128) -> (r: i32)
    ensures
        r == clamp_i32(v as int),
{
    if v < i32::MIN as i128 {
        i32::MIN
    } else if v > i32::MAX as i128 {
        i32::MAX
    } else {
        v as i32
    }
}

/// Field position (thousandths of an inch) of a pixel position.
pub fn pixel_to_inch(pixel_pos: [i32; 2]) -> (r: [i64; 2])
    ensures
        r[0] == field_x(pixel_pos[0] as int),
        r[1] == field_y(pixel_pos[1] as int),
{
    let px = pixel_pos[0] as i128;
    let py = pixel_pos[1] as i128;
    let x = trunc_div_i128((px - ORIGIN_X as i128) * 4000, 13);
    let y = trunc_div_i128((ORIGIN_Y as i128 - py) * 4000, 13);
    assert(-(i32::MAX as int) * 4000 <= x <= (i32::MAX as int) * 4000) by (nonlinear_arith)
        requires
            x == trunc_div((px - ORIGIN_X) * 4000, 13),
            -0x8000_0000 <= px < 0x8000_0000,
    ;
    assert(-(i32::MAX as int) * 4000 <= y <= (i32::MAX as int) * 4000) by (nonlinear_arith)
        requires
            y == trunc_div((ORIGIN_Y - py) * 4000, 13),
            -0x8000_0000 <= py < 0x8000_0000,
    ;
    [x as i64, y as i64]
}

/// Every pixel position lies within the coordinate range.
pub proof fn lemma_field_in_range(px: int, py: int)
    requires
        i32::MIN <= px <= i32::MAX,
        i32::MIN <= py <= i32::MAX,
    ensures
        crate::geometry::valid_coord(field_x(px)),
        crate::geometry::valid_coord(field_y(py)),
{
    assert(-0x1_0000_0000 * 4000 <= field_x(px) <= 0x1_0000_0000 * 4000) by (nonlinear_arith)
        requires
            -0x8000_0000 <= px < 0x8000_0000,
    ;
    assert(-0x1_0000_0000 * 4000 <= field_y(py) <= 0x1_0000_0000 * 4000) by (nonlinear_arith)
        requires
            -0x8000_0000 <= py < 0x8000_0000,
    ;
}

/// Pixel column of a field x coordinate.
pub fn inch_to_pixel_x(inch_pos: i64) -> (r: i32)
    ensures
        r == pixel_x(inch_pos as int),
{
    let v = inch_pos as i128;
    assert(-13 * 0x8000_0000_0000_0000 <= 13 * v <= 13 * 0x8000_0000_0000_0000) by (nonlinear_arith)
        requires
            -0x8000_0000_0000_0000 <= v < 0x8000_0000_0000_0000,
    ;
    saturate_i32(trunc_div_i128(13 * v + 4000 * ORIGIN_X as i128, 4000))
}

/// Pixel row of a field y coordinate.
pub fn inch_to_pixel_y(inch_pos: i64) -> (r: i32)
    ensures
        r == pixel_y(inch_pos as int),
{
    let v = inch_pos as i128;
    assert(-13 * 0x8000_0000_0000_0000 <= -13 * v <= 13 * 0x8000_0000_0000_0000) by (nonlinear_arith)
        requires
            -0x8000_0000_0000_0000 <= v < 0x8000_0000_0000_0000,
    ;
    saturate_i32(trunc_div_i128(-13 * v + 4000 * ORIGIN_Y as i128, 4000))
}

/// Pixel position of a field position.
pub fn inch_to_pixel(inch_pos: [i64; 2]) -> (r: [i32; 2])
    ensures
        r[0] == pixel_x(inch_pos[0] as int),
        r[1] == pixel_y(inch_pos[1] as int),
{
    [inch_to_pixel_x(inch_pos[0]), inch_to_pixel_y(inch_pos[1])]
}

/// Euclidean distance between two field positions, rounded down.
pub fn dist_between(pt1: (i64, i64), pt2: (i64, i64)) -> (r: u64)
    requires
        valid_coord(pt1.0 as int),
        valid_coord(pt1.1 as int),
        valid_coord(pt2.0 as int),
        valid_coord(pt2.1 as int),
    ensures
        r == floor_sqrt(
            (pt2.0 - pt1.0) * (pt2.0 - pt1.0) + (pt2.1 - pt1.1) * (pt2.1 - pt1.1),
        ),
{
    let dx = pt2.0 as i128 - pt1.0 as i128;
    let dy = pt2.1 as i128 - pt1.1 as i128;
    assert(0 <= dx * dx <= 0x4000_0000_0000_0000_0000_0000_0000_0000int) by (nonlinear_arith)
        requires
            -0x2000_0000_0000_0000 <= dx <= 0x2000_0000_0000_0000,
    ;
    assert(0 <= dy * dy <= 0x4000_0000_0000_0000_0000_0000_0000_0000int) by (nonlinear_arith)
        requires
            -0x2000_0000_0000_0000 <= dy <= 0x2000_0000_0000_0000,
    ;
    let sq = (dx * dx) as u128 + (dy * dy) as u128;
    let r = isqrt(sq);
    if r >= 0x1_0000_0000_0000_0000 {
        assert(r * r >= 0x1_0000_0000_0000_0000 * 0x1_0000_0000_0000_0000) by (nonlinear_arith)
            requires
                r >= 0x1_0000_0000_0000_0000,
        ;
    }
    r as u64
}

} // verus!
