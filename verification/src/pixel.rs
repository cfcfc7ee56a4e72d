//! Pixels and the integer ratios that renderings are computed from.
use vstd::prelude::*;

verus! {

/// An RGB pixel: one byte each of red, green and blue, no alpha.
pub type Rgb = [u8; 3];

/// The pixel `(r, g, b)` as contracts speak of it.
pub open spec fn px(r: u8, g: u8, b: u8) -> Seq<u8> {
    seq![r, g, b]
}

/// The grey pixel of brightness `v` as contracts speak of it.
pub open spec fn grey_px(v: u8) -> Seq<u8> {
    seq![v, v, v]
}

/// The black pixel.
pub open spec fn black_px() -> Seq<u8> {
    seq![0u8, 0u8, 0u8]
}

/// The smallest of three components.
pub open spec fn min3(r: int, g: int, b: int) -> int {
    if r <= g && r <= b {
        r
    } else if g <= b {
        g
    } else {
        b
    }
}

/// The largest of three components.
pub open spec fn max3(r: int, g: int, b: int) -> int {
    if r >= g && r >= b {
        r
    } else if g >= b {
        g
    } else {
        b
    }
}

/// The byte that renders the ratio `numer / denom` of the unit interval:
/// `255 * numer / denom + 1/2` rounded down, and no more than 255. A ratio
/// without a value (`0 / 0`) renders as 0, an infinite one as 255.
pub open spec fn unit_level(numer: int, denom: int) -> int {
    if denom == 0 {
        if numer == 0 {
            0
        } else {
            255
        }
    } else if (510 * numer + denom) / (2 * denom) > 255 {
        255
    } else {
        (510 * numer + denom) / (2 * denom)
    }
}

/// The pixel with the given components.
pub fn rgb(r: u8, g: u8, b: u8) -> (out: Rgb)
    ensures
        out@ == px(r, g, b),
{
    let out: Rgb = [r, g, b];
    assert(out@ =~= px(r, g, b));
    out
}

/// The grey pixel of the given brightness.
pub fn grey(value: u8) -> (out: Rgb)
    ensures
        out@ == grey_px(value),
{
    let out: Rgb = [value, value, value];
    assert(out@ =~= grey_px(value));
    out
}

/// The smallest and the largest component of a pixel.
pub fn extremes(rgb: Rgb) -> (out: (u8, u8))
    ensures
        out.0 == min3(rgb[0] as int, rgb[1] as int, rgb[2] as int),
        out.1 == max3(rgb[0] as int, rgb[1] as int, rgb[2] as int),
{
    let r: u8 = rgb[0];
    let g: u8 = rgb[1];
    let b: u8 = rgb[2];
    let min: u8 = if r <= g && r <= b {
        r
    } else if g <= b {
        g
    } else {
        b
    };
    let max: u8 = if r >= g && r >= b {
        r
    } else if g >= b {
        g
    } else {
        b
    };
    (min, max)
}

/// Scales a ratio of the unit interval to a byte, rounding to nearest.
pub fn round_u8(numer: u32, denom: u32) -> (level: u8)
    ensures
        level == unit_level(numer as int, denom as int),
{
    if denom == 0 {
        if numer == 0 {
            0
        } else {
            255
        }
    } else {
        let n: u64 = numer as u64;
        let d: u64 = denom as u64;
        let q: u64 = (510 * n + d) / (2 * d);
        if q > 255 {
            255
        } else {
            q as u8
        }
    }
}

} // verus!
