use vstd::prelude::*;

verus! {

/// An opaque RGB color with one byte per channel.
#[derive(Clone, Copy, Debug, PartialEq, Eq, Structural)]
pub struct Color {
    pub r: u8,
    pub g: u8,
    pub b: u8,
}

/// One corner of a primitive as it is handed to the graphics pipeline.
///
/// A position is exact: its clip-space value is `x / x_den` horizontally and
/// `y / y_den` vertically, the denominators being the surface size (in
/// pixels) when the vertex was built. `(tex_u, tex_v)` is a corner of
/// the unit square, and `variator` the auxiliary shading parameter in thousandths.
#[derive(Clone, Copy, Debug, PartialEq, Eq, Structural)]
pub struct Vertex {
    pub x: i64,
    pub y: i64,
    pub x_den: i32,
    pub y_den: i32,
    pub color: Color,
    pub style: i32,
    pub tex_u: u8,
    pub tex_v: u8,
    pub variator: i32,
}

/// Numerator of a horizontal position over the surface width `w`: pixel
/// positions are quartered (`4 * p / w`), normalized ones are taken as they are.
pub open spec fn map_x(p: int, pixel_space: bool, w: int) -> int {
    if pixel_space { 4 * p } else { p * w }
}

/// Numerator of a vertical position over the surface height `h`: pixel
/// positions are quartered and inverted (`-4 * p / h`), so that screen-down
/// becomes clip-down.
pub open spec fn map_y(p: int, pixel_space: bool, h: int) -> int {
    if pixel_space { -4 * p } else { p * h }
}

/// Numerator of a size `d` along an axis of `dim` pixels: a pixel size is
/// quartered as a pixel position is (`4 * d / dim`), a normalized one is
/// taken as it is.
pub open spec fn map_size(d: int, pixel_space: bool, dim: int) -> int {
    if pixel_space { 4 * d } else { d * dim }
}

/// Numerator of `map_x(p) + map_size(dx)`, the position `p` moved right by
/// the size `dx`.
pub fn mapped_x(p: i32, dx: i32, pixel_space: bool, w: i32) -> (r: i64)
    requires
        0 < w,
    ensures
        r == map_x(p as int, pixel_space, w as int) + map_size(dx as int, pixel_space, w as int),
{
    if pixel_space {
        4 * (p as i64) + 4 * (dx as i64)
    } else {
        proof {
            assert(-0x1_0000_0000 * 0x7fff_ffff <= ((p as int) + (dx as int)) * (w as int) <= 0x1_0000_0000
                * 0x7fff_ffff) by (nonlinear_arith)
                requires
                    -0x1_0000_0000 <= (p as int) + (dx as int) <= 0x1_0000_0000,
                    0 < w <= 0x7fff_ffff,
            ;
            assert(((p as int) + (dx as int)) * (w as int) == (p as int) * (w as int) + (dx as int) * (w as int))
                by (nonlinear_arith);
        }
        ((p as i64) + (dx as i64)) * (w as i64)
    }
}

/// Numerator of `map_y(p) - map_size(dy)`, the position `p` moved down by
/// the size `dy`.
pub fn mapped_y(p: i32, dy: i32, pixel_space: bool, h: i32) -> (r: i64)
    requires
        0 < h,
    ensures
        r == map_y(p as int, pixel_space, h as int) - map_size(dy as int, pixel_space, h as int),
{
    if pixel_space {
        0 - 4 * (p as i64) - 4 * (dy as i64)
    } else {
        proof {
            assert(-0x1_0000_0000 * 0x7fff_ffff <= ((p as int) - (dy as int)) * (h as int) <= 0x1_0000_0000
                * 0x7fff_ffff) by (nonlinear_arith)
                requires
                    -0x1_0000_0000 <= (p as int) - (dy as int) <= 0x1_0000_0000,
                    0 < h <= 0x7fff_ffff,
            ;
            assert(((p as int) - (dy as int)) * (h as int) == (p as int) * (h as int) - (dy as int) * (h as int))
                by (nonlinear_arith);
        }
        ((p as i64) - (dy as i64)) * (h as i64)
    }
}

/// Numerator over the surface width of the horizontal device position of
/// pixel column `p`: the draw matrix moves clip space left by one unit.
pub open spec fn device_x(p: int, w: int) -> int {
    map_x(p, true, w) - w
}

/// Numerator over the surface height of the vertical device position of
/// pixel row `p`: the draw matrix moves clip space up by one unit.
pub open spec fn device_y(p: int, h: int) -> int {
    map_y(p, true, h) + h
}

/// Pixel space is oriented as the screen is: the top-left pixel lands above
/// the device's horizontal axis (positive `y`) and the bottom-right one below
/// it (negative `y`); left and right keep their order, and the surface's
/// center lands halfway between its edges.
pub proof fn lemma_pixel_orientation(w: int, h: int)
    requires
        0 < w,
        0 < h,
    ensures
        device_y(0, h) > 0,
        device_y(h, h) < 0,
        device_x(0, w) < device_x(w, w),
        map_x(w, true, w) + map_x(0, true, w) == 2 * map_x(w / 2, true, w) + 4 * (w % 2),
        map_y(h, true, h) + map_y(0, true, h) == 2 * map_y(h / 2, true, h) - 4 * (h % 2),
{
}

} // verus!
