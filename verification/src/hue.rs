//! The hue codec that the hue-based spaces share: the hue angle and the
//! chroma range of a pixel, and the saturated swatch that shows a hue.
//!
//! A hue is kept as an exact fraction, in sixths of a turn. The hue of a grey
//! pixel is undefined, which is written `None`.
use vstd::prelude::*;
use crate::channels::Channels;
use crate::pixel::{black_px, extremes, max3, min3, px, rgb, Rgb};

verus! {

/// The brightest component of a hue swatch: a half, scaled and biased.
pub const TINT_HIGH: u8 = 191;

/// The darkest component of a hue swatch: zero, scaled and biased.
pub const TINT_LOW: u8 = 64;

/// A hue angle in sixths of a turn: the fraction `numer / denom`, which lies
/// in `[0, 6)`.
#[derive(Clone, Copy, Debug)]
pub struct Hue {
    numer: u16,
    denom: u16,
}

impl Hue {
    /// Every hue is a fraction of `[0, 6)` over a chroma range.
    #[verifier::type_invariant]
    closed spec fn valid(&self) -> bool {
        is_hue(self.numer as int, self.denom as int)
    }
}

impl View for Hue {
    type V = (int, int);

    /// Numerator and denominator.
    closed spec fn view(&self) -> (int, int) {
        (self.numer as int, self.denom as int)
    }
}

/// Whether `numer / denom` is a hue: a fraction of `[0, 6)` whose
/// denominator is a chroma range.
pub open spec fn is_hue(numer: int, denom: int) -> bool {
    0 < denom <= 255 && 0 <= numer < 6 * denom
}

/// The view of a hue that may be undefined.
pub open spec fn hue_view(hue: Option<Hue>) -> Option<(int, int)> {
    match hue {
        Some(h) => Some(h@),
        None => None,
    }
}

/// The numerator of the hue of `(r, g, b)` over the pixel's chroma range:
/// the offset from the sector of the largest component, brought into
/// `[0, 6)`.
pub open spec fn hue_numer(r: int, g: int, b: int) -> int {
    let max = max3(r, g, b);
    let range = max - min3(r, g, b);
    if max == r {
        (g - b) % (6 * range)
    } else if max == g {
        (b - r) + 2 * range
    } else {
        (r - g) + 4 * range
    }
}

/// The hue of `(r, g, b)`: undefined where the pixel is grey.
pub open spec fn hue_of(r: int, g: int, b: int) -> Option<(int, int)> {
    let range = max3(r, g, b) - min3(r, g, b);
    if range == 0 {
        None
    } else {
        Some((hue_numer(r, g, b), range))
    }
}

/// The sector of the colour wheel that a hue lies in: its whole part.
pub open spec fn sector(numer: int, denom: int) -> int {
    numer / denom
}

/// Twice the position `x = 1/2 - 1/2 * |hue mod 2 - 1|` of a hue inside
/// its pair of sectors, as a numerator over `denom`.
pub open spec fn ramp(numer: int, denom: int) -> int {
    let m = numer % (2 * denom);
    if m <= denom {
        m
    } else {
        2 * denom - m
    }
}

/// The byte of the ramping component of a hue swatch: `255 * x + 64.25`,
/// rounded down.
pub open spec fn tint_level(numer: int, denom: int) -> int {
    (510 * ramp(numer, denom) + 257 * denom) / (4 * denom)
}

/// The swatch that shows a hue: black for an undefined hue, else the high,
/// the low and the ramping component in the order of the hue's sector.
pub open spec fn swatch_of(hue: Option<(int, int)>) -> Seq<u8> {
    match hue {
        None => black_px(),
        Some((numer, denom)) => {
            let x = tint_level(numer, denom) as u8;
            let s = sector(numer, denom);
            if s == 0 {
                px(TINT_HIGH, x, TINT_LOW)
            } else if s == 1 {
                px(x, TINT_HIGH, TINT_LOW)
            } else if s == 2 {
                px(TINT_LOW, TINT_HIGH, x)
            } else if s == 3 {
                px(TINT_LOW, x, TINT_HIGH)
            } else if s == 4 {
                px(x, TINT_LOW, TINT_HIGH)
            } else {
                px(TINT_HIGH, TINT_LOW, x)
            }
        },
    }
}

/// The hue of every pixel that is not grey is a fraction of `[0, 6)` over
/// the pixel's chroma range.
pub proof fn lemma_hue_in_range(r: int, g: int, b: int)
    requires
        0 <= r <= 255,
        0 <= g <= 255,
        0 <= b <= 255,
    ensures
        hue_of(r, g, b) is None <==> (r == g && g == b),
        hue_of(r, g, b) matches Some(h) ==> is_hue(h.0, h.1),
        max3(r, g, b) == r && g >= b && r > b ==> hue_numer(r, g, b) == g - b,
        max3(r, g, b) == r && g < b ==> hue_numer(r, g, b) == 6 * (r - g) + (g - b),
{
    let max = max3(r, g, b);
    let range = max - min3(r, g, b);
    if range > 0 && max == r {
        if g >= b {
            vstd::arithmetic::div_mod::lemma_small_mod((g - b) as nat, (6 * range) as nat);
        } else {
            vstd::arithmetic::div_mod::lemma_mod_add_multiples_vanish(g - b, 6 * range);
            vstd::arithmetic::div_mod::lemma_small_mod(
                (g - b + 6 * range) as nat,
                (6 * range) as nat,
            );
        }
    }
}

/// A hue swatch has every component between the low and the high tint, so
/// it is never black.
pub proof fn lemma_swatch_levels(numer: int, denom: int)
    requires
        is_hue(numer, denom),
    ensures
        0 <= sector(numer, denom) <= 5,
        0 <= ramp(numer, denom) <= denom,
        TINT_LOW <= tint_level(numer, denom) <= TINT_HIGH,
        forall|k: int|
            0 <= k < 3 ==> TINT_LOW <= #[trigger] swatch_of(Some((numer, denom)))[k]
                <= TINT_HIGH,
        swatch_of(Some((numer, denom))) != black_px(),
{
    let m = numer % (2 * denom);
    assert(0 <= m < 2 * denom) by (nonlinear_arith)
        requires
            denom > 0,
            m == numer % (2 * denom),
    ;
    assert(0 <= numer / denom <= 5) by (nonlinear_arith)
        requires
            0 <= numer < 6 * denom,
            denom > 0,
    ;
    let x = ramp(numer, denom);
    let t = (510 * x + 257 * denom) / (4 * denom);
    assert(64 <= t <= 191) by (nonlinear_arith)
        requires
            0 <= x <= denom,
            denom > 0,
            t == (510 * x + 257 * denom) / (4 * denom),
    ;
    let s = swatch_of(Some((numer, denom)));
    assert(s[0] != 0);
    assert(black_px()[0] == 0);
}

impl Hue {
    /// The hue `numer / denom`, where that is one.
    pub fn new(numer: u16, denom: u16) -> (hue: Option<Hue>)
        ensures
            hue is Some <==> is_hue(numer as int, denom as int),
            hue matches Some(h) ==> h@ == (numer as int, denom as int),
    {
        if 0 < denom && denom <= 255 && numer < 6 * denom {
            Some(Hue { numer, denom })
        } else {
            None
        }
    }

    /// The numerator, in sixths of a turn over `denom`.
    pub fn numer(&self) -> (n: u16)
        ensures
            n == self@.0,
    {
        self.numer
    }

    /// The denominator: the chroma range of the pixel that the hue is of.
    pub fn denom(&self) -> (d: u16)
        ensures
            d == self@.1,
    {
        self.denom
    }
}

/// The hue of a pixel: `None` exactly for a grey pixel, else a fraction of
/// `[0, 6)`.
pub fn hue_from_rgb(rgb: Rgb) -> (hue: Option<Hue>)
    ensures
        hue_view(hue) == hue_of(rgb[0] as int, rgb[1] as int, rgb[2] as int),
        hue is None <==> (rgb[0] == rgb[1] && rgb[1] == rgb[2]),
        hue matches Some(h) ==> is_hue(h@.0, h@.1),
{
    let r: u16 = rgb[0] as u16;
    let g: u16 = rgb[1] as u16;
    let b: u16 = rgb[2] as u16;
    let (min, max) = extremes(rgb);
    let range: u16 = (max - min) as u16;
    proof {
        lemma_hue_in_range(r as int, g as int, b as int);
    }
    if range == 0 {
        None
    } else if max as u16 == r {
        if g >= b {
            Some(Hue { numer: g - b, denom: range })
        } else {
            Some(Hue { numer: 6 * range - (b - g), denom: range })
        }
    } else if max as u16 == g {
        Some(Hue { numer: 2 * range + b - r, denom: range })
    } else {
        Some(Hue { numer: 4 * range + r - g, denom: range })
    }
}

/// The saturated swatch that shows a hue: black exactly for an undefined
/// hue.
pub fn hue_to_swatch(hue: Option<Hue>) -> (swatch: Rgb)
    ensures
        swatch@ == swatch_of(hue_view(hue)),
        swatch@ == black_px() <==> hue is None,
        hue is Some ==> forall|k: int|
            0 <= k < 3 ==> TINT_LOW <= #[trigger] swatch[k] <= TINT_HIGH,
{
    match hue {
        None => rgb(0, 0, 0),
        Some(h) => {
            let numer: u32 = h.numer as u32;
            let denom: u32 = h.denom as u32;
            proof {
                use_type_invariant(&h);
                lemma_swatch_levels(numer as int, denom as int);
            }
            let m: u32 = numer % (2 * denom);
            let ramp: u32 = if m <= denom {
                m
            } else {
                2 * denom - m
            };
            let x: u8 = ((510 * ramp + 257 * denom) / (4 * denom)) as u8;
            let sector: u32 = numer / denom;
            if sector == 0 {
                rgb(TINT_HIGH, x, TINT_LOW)
            } else if sector == 1 {
                rgb(x, TINT_HIGH, TINT_LOW)
            } else if sector == 2 {
                rgb(TINT_LOW, TINT_HIGH, x)
            } else if sector == 3 {
                rgb(TINT_LOW, x, TINT_HIGH)
            } else if sector == 4 {
                rgb(x, TINT_LOW, TINT_HIGH)
            } else {
                rgb(TINT_HIGH, TINT_LOW, x)
            }
        },
    }
}

/// What the hue-based spaces share: writes the hue swatch of a pixel to
/// channel 0 and returns the pixel's smallest and largest component, their
/// sum and their difference (the chroma range).
pub fn hs_common_from_rgb(channels: &mut Channels, rgb: Rgb) -> (out: (u8, u8, i32, i32))
    ensures
        out.0 == min3(rgb[0] as int, rgb[1] as int, rgb[2] as int),
        out.1 == max3(rgb[0] as int, rgb[1] as int, rgb[2] as int),
        out.2 == out.0 + out.1,
        out.3 == out.1 - out.0,
        final(channels)@ == old(channels)@.update(
            0,
            swatch_of(hue_of(rgb[0] as int, rgb[1] as int, rgb[2] as int)),
        ),
{
    let (min, max) = extremes(rgb);
    let sum: i32 = min as i32 + max as i32;
    let range: i32 = max as i32 - min as i32;
    let hue = hue_from_rgb(rgb);
    channels.set_rgb(0, hue_to_swatch(hue));
    (min, max, sum, range)
}

} // verus!
