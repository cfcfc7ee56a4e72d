//! The colour spaces: their registry, and the rule by which each space whose
//! coordinates are exact integer ratios renders a pixel, one swatch per
//! channel.
//!
//! The spaces that go through CIE tristimulus values are registered here by
//! name and channel count; their swatches come from a colour-math
//! collaborator that the caller supplies.
use vstd::prelude::*;
use crate::channels::Channels;
use crate::hue::{hs_common_from_rgb, hue_of, swatch_of};
use crate::pixel::{extremes, grey_px, max3, min3, px, rgb, round_u8, unit_level, Rgb};

verus! {

/// The number of registered colour spaces.
pub const SPACE_COUNT: usize = 13;

/// Which colour space a descriptor stands for. Two descriptors are the same
/// space exactly if their kinds are equal.
#[derive(Clone, Copy, Debug, PartialEq, Eq, Structural)]
pub enum Kind {
    Rgb,
    LinRgb,
    Xyz,
    XyY,
    Hsl,
    Hsv,
    Hwb,
    Lab,
    LchAb,
    Luv,
    LchUv,
    Cmy,
    Cmyk,
}

/// The descriptor of a colour space: its name, the number of its channels
/// and its kind.
#[derive(Clone, Copy, Debug)]
pub struct Space {
    name: &'static str,
    channels: usize,
    kind: Kind,
}

/// The place of a kind in the registry.
pub open spec fn kind_index(kind: Kind) -> int {
    match kind {
        Kind::Rgb => 0,
        Kind::LinRgb => 1,
        Kind::Xyz => 2,
        Kind::XyY => 3,
        Kind::Hsl => 4,
        Kind::Hsv => 5,
        Kind::Hwb => 6,
        Kind::Lab => 7,
        Kind::LchAb => 8,
        Kind::Luv => 9,
        Kind::LchUv => 10,
        Kind::Cmy => 11,
        Kind::Cmyk => 12,
    }
}

/// The kind at a place of the registry.
pub open spec fn kind_at(index: int) -> Kind {
    if index == 0 {
        Kind::Rgb
    } else if index == 1 {
        Kind::LinRgb
    } else if index == 2 {
        Kind::Xyz
    } else if index == 3 {
        Kind::XyY
    } else if index == 4 {
        Kind::Hsl
    } else if index == 5 {
        Kind::Hsv
    } else if index == 6 {
        Kind::Hwb
    } else if index == 7 {
        Kind::Lab
    } else if index == 8 {
        Kind::LchAb
    } else if index == 9 {
        Kind::Luv
    } else if index == 10 {
        Kind::LchUv
    } else if index == 11 {
        Kind::Cmy
    } else {
        Kind::Cmyk
    }
}

/// The name under which a kind is registered.
pub open spec fn kind_name(kind: Kind) -> Seq<char> {
    match kind {
        Kind::Rgb => "rgb"@,
        Kind::LinRgb => "lin-rgb"@,
        Kind::Xyz => "XYZ"@,
        Kind::XyY => "xyY"@,
        Kind::Hsl => "hsl"@,
        Kind::Hsv => "hsv"@,
        Kind::Hwb => "hwb"@,
        Kind::Lab => "lab"@,
        Kind::LchAb => "lchab"@,
        Kind::Luv => "luv"@,
        Kind::LchUv => "lchuv"@,
        Kind::Cmy => "cmy"@,
        Kind::Cmyk => "cmyk"@,
    }
}

/// The number of channels of a kind: four for CMYK, else three.
pub open spec fn kind_channels(kind: Kind) -> int {
    if kind == Kind::Cmyk {
        4
    } else {
        3
    }
}

/// Places and kinds of the registry match one to one.
pub proof fn lemma_kind_index(kind: Kind)
    ensures
        0 <= kind_index(kind) < SPACE_COUNT,
        kind_at(kind_index(kind)) == kind,
{
}

impl Kind {
    /// The place of the kind in the registry.
    pub fn index(self) -> (i: usize)
        ensures
            i == kind_index(self),
    {
        match self {
            Kind::Rgb => 0,
            Kind::LinRgb => 1,
            Kind::Xyz => 2,
            Kind::XyY => 3,
            Kind::Hsl => 4,
            Kind::Hsv => 5,
            Kind::Hwb => 6,
            Kind::Lab => 7,
            Kind::LchAb => 8,
            Kind::Luv => 9,
            Kind::LchUv => 10,
            Kind::Cmy => 11,
            Kind::Cmyk => 12,
        }
    }

    /// The kind at a place of the registry, where there is one.
    pub fn from_index(index: usize) -> (kind: Option<Kind>)
        ensures
            index < SPACE_COUNT ==> kind == Some(kind_at(index as int)),
            index >= SPACE_COUNT ==> kind is None,
            kind matches Some(k) ==> kind_index(k) == index,
    {
        match index {
            0 => Some(Kind::Rgb),
            1 => Some(Kind::LinRgb),
            2 => Some(Kind::Xyz),
            3 => Some(Kind::XyY),
            4 => Some(Kind::Hsl),
            5 => Some(Kind::Hsv),
            6 => Some(Kind::Hwb),
            7 => Some(Kind::Lab),
            8 => Some(Kind::LchAb),
            9 => Some(Kind::Luv),
            10 => Some(Kind::LchUv),
            11 => Some(Kind::Cmy),
            12 => Some(Kind::Cmyk),
            _ => None,
        }
    }
}

impl Space {
    /// The kind of the space.
    pub closed spec fn spec_kind(&self) -> Kind {
        self.kind
    }

    /// The name and the channel count of a descriptor are those of its
    /// kind.
    #[verifier::type_invariant]
    closed spec fn valid(&self) -> bool {
        &&& self.name@ == kind_name(self.kind)
        &&& self.channels as int == kind_channels(self.kind)
    }

    /// The registered descriptor of a kind.
    pub fn of(kind: Kind) -> (space: Space)
        ensures
            space.spec_kind() == kind,
    {
        match kind {
            Kind::Rgb => Space { name: "rgb", channels: 3, kind },
            Kind::LinRgb => Space { name: "lin-rgb", channels: 3, kind },
            Kind::Xyz => Space { name: "XYZ", channels: 3, kind },
            Kind::XyY => Space { name: "xyY", channels: 3, kind },
            Kind::Hsl => Space { name: "hsl", channels: 3, kind },
            Kind::Hsv => Space { name: "hsv", channels: 3, kind },
            Kind::Hwb => Space { name: "hwb", channels: 3, kind },
            Kind::Lab => Space { name: "lab", channels: 3, kind },
            Kind::LchAb => Space { name: "lchab", channels: 3, kind },
            Kind::Luv => Space { name: "luv", channels: 3, kind },
            Kind::LchUv => Space { name: "lchuv", channels: 3, kind },
            Kind::Cmy => Space { name: "cmy", channels: 3, kind },
            Kind::Cmyk => Space { name: "cmyk", channels: 4, kind },
        }
    }

    /// The kind of the space.
    pub fn kind(&self) -> (kind: Kind)
        ensures
            kind == self.spec_kind(),
    {
        self.kind
    }

    /// The name under which the space is registered.
    pub fn name(&self) -> (name: &'static str)
        ensures
            name@ == kind_name(self.spec_kind()),
    {
        proof {
            use_type_invariant(self);
        }
        self.name
    }

    /// The number of channels of the space.
    pub fn channels(&self) -> (n: usize)
        ensures
            n == kind_channels(self.spec_kind()),
    {
        proof {
            use_type_invariant(self);
        }
        self.channels
    }

    /// Whether the space renders a pixel by an exact rule of its own,
    /// rather than through tristimulus values.
    pub fn is_exact(&self) -> (exact: bool)
        ensures
            exact == (swatches(self.spec_kind(), 0, 0, 0) is Some),
            forall|r: u8, g: u8, b: u8|
                exact == (#[trigger] swatches(self.spec_kind(), r, g, b) is Some),
    {
        match self.kind {
            Kind::Rgb | Kind::Hsl | Kind::Hsv | Kind::Hwb | Kind::Cmy | Kind::Cmyk => true,
            _ => false,
        }
    }

    /// Renders a pixel by the rule of the space, where the rule is exact:
    /// writes one swatch per channel and says `true`. For a space that goes
    /// through tristimulus values it writes nothing and says `false`.
    pub fn fill_channels(&self, channels: &mut Channels, rgb: Rgb) -> (exact: bool)
        ensures
            exact == (swatches(self.spec_kind(), rgb[0], rgb[1], rgb[2]) is Some),
            final(channels)@ == match swatches(self.spec_kind(), rgb[0], rgb[1], rgb[2]) {
                Some(s) => filled(old(channels)@, s),
                None => old(channels)@,
            },
    {
        match self.kind {
            Kind::Rgb => {
                rgb_fill_channels(channels, rgb);
                true
            },
            Kind::Hsl => {
                hsl_fill_channels(channels, rgb);
                true
            },
            Kind::Hsv => {
                hsv_fill_channels(channels, rgb);
                true
            },
            Kind::Hwb => {
                hwb_fill_channels(channels, rgb);
                true
            },
            Kind::Cmy => {
                cmy_fill_channels(channels, rgb);
                true
            },
            Kind::Cmyk => {
                cmyk_fill_channels(channels, rgb);
                true
            },
            _ => false,
        }
    }
}

/// The registry: the descriptor of every kind, in the order of the kinds.
pub fn spaces() -> (all: Vec<Space>)
    ensures
        all@.len() == SPACE_COUNT,
        forall|i: int|
            0 <= i < SPACE_COUNT ==> (#[trigger] all@[i]).spec_kind() == kind_at(i),
{
    let mut all: Vec<Space> = Vec::new();
    let mut i: usize = 0;
    while i < SPACE_COUNT
        invariant
            i <= SPACE_COUNT,
            all@.len() == i,
            forall|j: int|
                0 <= j < i ==> (#[trigger] all@[j]).spec_kind() == kind_at(j),
        decreases SPACE_COUNT - i,
    {
        match Kind::from_index(i) {
            Some(kind) => {
                all.push(Space::of(kind));
            },
            None => {
                assert(false);
            },
        }
        i += 1;
    }
    all
}

/// The byte that renders the HSL saturation of a pixel with the given sum
/// and difference of its extremes: the ratio of the chroma range to
/// `255 - |sum - 255|`, and zero for a grey pixel.
pub open spec fn hsl_saturation(sum: int, range: int) -> int {
    if range == 0 {
        0
    } else if sum >= 255 {
        unit_level(range, 510 - sum)
    } else {
        unit_level(range, sum)
    }
}

/// The byte that renders the HSV saturation of a pixel: the ratio of the
/// chroma range to the largest component, and zero for black.
pub open spec fn hsv_saturation(max: int, range: int) -> int {
    if max == 0 {
        0
    } else {
        unit_level(range, max)
    }
}

/// The byte that renders how much of one ink a pixel takes once black is
/// taken out: `1 - v / max`, and zero for black.
pub open spec fn ink_level(v: int, max: int) -> int {
    if max == 0 {
        0
    } else {
        unit_level(max - v, max)
    }
}

/// RGB: each axis keeps its own component and zeroes the other two.
pub open spec fn rgb_swatches(r: u8, g: u8, b: u8) -> Seq<Seq<u8>> {
    seq![px(r, 0, 0), px(0, g, 0), px(0, 0, b)]
}

/// HSL: the hue swatch, then saturation and lightness in grey.
pub open spec fn hsl_swatches(r: u8, g: u8, b: u8) -> Seq<Seq<u8>> {
    let min = min3(r as int, g as int, b as int);
    let max = max3(r as int, g as int, b as int);
    seq![
        swatch_of(hue_of(r as int, g as int, b as int)),
        grey_px(hsl_saturation(min + max, max - min) as u8),
        grey_px(((min + max) / 2) as u8),
    ]
}

/// HSV: the hue swatch, then saturation and value in grey.
pub open spec fn hsv_swatches(r: u8, g: u8, b: u8) -> Seq<Seq<u8>> {
    let min = min3(r as int, g as int, b as int);
    let max = max3(r as int, g as int, b as int);
    seq![
        swatch_of(hue_of(r as int, g as int, b as int)),
        grey_px(hsv_saturation(max, max - min) as u8),
        grey_px(max as u8),
    ]
}

/// HWB: the hue swatch, then whiteness and blackness in grey.
pub open spec fn hwb_swatches(r: u8, g: u8, b: u8) -> Seq<Seq<u8>> {
    let min = min3(r as int, g as int, b as int);
    let max = max3(r as int, g as int, b as int);
    seq![
        swatch_of(hue_of(r as int, g as int, b as int)),
        grey_px(min as u8),
        grey_px((255 - max) as u8),
    ]
}

/// CMY: each plate is the tint of its ink over the two components that the
/// ink absorbs least.
pub open spec fn cmy_swatches(r: u8, g: u8, b: u8) -> Seq<Seq<u8>> {
    seq![
        px(0, (255 - r) as u8, (255 - r) as u8),
        px((255 - g) as u8, 0, (255 - g) as u8),
        px((255 - b) as u8, (255 - b) as u8, 0),
    ]
}

/// CMYK: the three ink plates with black taken out, then the black plate in
/// grey.
pub open spec fn cmyk_swatches(r: u8, g: u8, b: u8) -> Seq<Seq<u8>> {
    let max = max3(r as int, g as int, b as int);
    let c = ink_level(r as int, max) as u8;
    let m = ink_level(g as int, max) as u8;
    let y = ink_level(b as int, max) as u8;
    seq![px(0, c, c), px(m, 0, m), px(y, y, 0), grey_px((255 - max) as u8)]
}

/// The swatches of a pixel in a space whose rule is exact, one per channel;
/// `None` for a space that goes through tristimulus values.
pub open spec fn swatches(kind: Kind, r: u8, g: u8, b: u8) -> Option<Seq<Seq<u8>>> {
    match kind {
        Kind::Rgb => Some(rgb_swatches(r, g, b)),
        Kind::Hsl => Some(hsl_swatches(r, g, b)),
        Kind::Hsv => Some(hsv_swatches(r, g, b)),
        Kind::Hwb => Some(hwb_swatches(r, g, b)),
        Kind::Cmy => Some(cmy_swatches(r, g, b)),
        Kind::Cmyk => Some(cmyk_swatches(r, g, b)),
        _ => None,
    }
}

/// The slots after a rule has written its swatches to the first of them.
pub open spec fn filled(slots: Seq<Seq<u8>>, swatches: Seq<Seq<u8>>) -> Seq<Seq<u8>> {
    Seq::new(
        slots.len(),
        |c: int|
            if c < swatches.len() {
                swatches[c]
            } else {
                slots[c]
            },
    )
}

/// A ratio of the unit interval renders as a byte.
pub proof fn lemma_unit_level(numer: int, denom: int)
    requires
        0 <= numer <= denom,
    ensures
        0 <= unit_level(numer, denom) <= 255,
        numer == 0 ==> unit_level(numer, denom) == 0,
        numer == denom && denom > 0 ==> unit_level(numer, denom) == 255,
{
    if denom > 0 {
        let q = (510 * numer + denom) / (2 * denom);
        assert(0 <= q <= 255) by (nonlinear_arith)
            requires
                0 <= numer <= denom,
                denom > 0,
                q == (510 * numer + denom) / (2 * denom),
        ;
        if numer == 0 {
            assert(denom / (2 * denom) == 0) by (nonlinear_arith)
                requires
                    denom > 0,
            ;
        }
        if numer == denom {
            assert((510 * denom + denom) / (2 * denom) == 255) by (nonlinear_arith)
                requires
                    denom > 0,
            ;
        }
    }
}

/// A space with an exact rule has one swatch for each of its channels.
pub proof fn lemma_swatch_count(kind: Kind, r: u8, g: u8, b: u8)
    ensures
        swatches(kind, r, g, b) matches Some(s) ==> s.len() == kind_channels(kind) && forall|
            c: int,
        | 0 <= c < s.len() ==> (#[trigger] s[c]).len() == 3,
{
}

/// The HSL saturation of a grey pixel renders as zero, and that of a pixel
/// whose chroma range is the whole scale renders as full.
pub proof fn lemma_hsl_saturation_extremes(r: u8, g: u8, b: u8)
    ensures
        r == g && g == b ==> hsl_swatches(r, g, b)[1] == grey_px(0),
        max3(r as int, g as int, b as int) - min3(r as int, g as int, b as int) == 255
            ==> hsl_swatches(r, g, b)[1] == grey_px(255),
{
    lemma_unit_level(255, 255);
}

/// Black takes no ink: in CMYK its cyan, magenta and yellow plates are
/// black, and its black plate is white.
pub proof fn lemma_cmyk_black()
    ensures
        cmyk_swatches(0, 0, 0) == seq![px(0, 0, 0), px(0, 0, 0), px(0, 0, 0), grey_px(255)],
{
}

/// In CMY, where no black is taken out, each plate of black is the full
/// tint of its ink.
pub proof fn lemma_cmy_black()
    ensures
        cmy_swatches(0, 0, 0) == seq![px(0, 255, 255), px(255, 0, 255), px(255, 255, 0)],
{
}

/// Each axis of RGB keeps its own component of the pixel and nothing else.
pub proof fn lemma_rgb_axes(r: u8, g: u8, b: u8)
    ensures
        swatches(Kind::Rgb, r, g, b) matches Some(s) && s[0] == px(r, 0, 0) && s[1] == px(0, g, 0)
            && s[2] == px(0, 0, b),
{
}

/// RGB: writes each component of the pixel to the channel of its axis.
pub fn rgb_fill_channels(channels: &mut Channels, rgb: Rgb)
    ensures
        final(channels)@ == filled(old(channels)@, rgb_swatches(rgb[0], rgb[1], rgb[2])),
{
    proof {
        channels.lemma_shape();
    }
    channels.set_rgb(0, self::rgb(rgb[0], 0, 0));
    channels.set_rgb(1, self::rgb(0, rgb[1], 0));
    channels.set_rgb(2, self::rgb(0, 0, rgb[2]));
    assert(channels@ =~= filled(old(channels)@, rgb_swatches(rgb[0], rgb[1], rgb[2])));
}

/// HSL: writes the hue swatch, the saturation and the lightness.
pub fn hsl_fill_channels(channels: &mut Channels, rgb: Rgb)
    ensures
        final(channels)@ == filled(old(channels)@, hsl_swatches(rgb[0], rgb[1], rgb[2])),
{
    proof {
        channels.lemma_shape();
    }
    let (_min, _max, sum, range) = hs_common_from_rgb(channels, rgb);
    let level: u8 = if range == 0 {
        0
    } else {
        let spread: i32 = if sum >= 255 {
            510 - sum
        } else {
            sum
        };
        round_u8(range as u32, spread as u32)
    };
    channels.set_grey(1, level);
    channels.set_grey(2, (sum / 2) as u8);
    assert(channels@ =~= filled(old(channels)@, hsl_swatches(rgb[0], rgb[1], rgb[2])));
}

/// HSV: writes the hue swatch, the saturation and the value.
pub fn hsv_fill_channels(channels: &mut Channels, rgb: Rgb)
    ensures
        final(channels)@ == filled(old(channels)@, hsv_swatches(rgb[0], rgb[1], rgb[2])),
{
    proof {
        channels.lemma_shape();
    }
    let (_min, max, _sum, range) = hs_common_from_rgb(channels, rgb);
    let level: u8 = if max == 0 {
        0
    } else {
        round_u8(range as u32, max as u32)
    };
    channels.set_grey(1, level);
    channels.set_grey(2, max);
    assert(channels@ =~= filled(old(channels)@, hsv_swatches(rgb[0], rgb[1], rgb[2])));
}

/// HWB: writes the hue swatch, the whiteness and the blackness.
pub fn hwb_fill_channels(channels: &mut Channels, rgb: Rgb)
    ensures
        final(channels)@ == filled(old(channels)@, hwb_swatches(rgb[0], rgb[1], rgb[2])),
{
    proof {
        channels.lemma_shape();
    }
    let (min, max, _sum, _range) = hs_common_from_rgb(channels, rgb);
    channels.set_grey(1, min);
    channels.set_grey(2, 255 - max);
    assert(channels@ =~= filled(old(channels)@, hwb_swatches(rgb[0], rgb[1], rgb[2])));
}

/// CMY: writes the tint of each of the three inks.
pub fn cmy_fill_channels(channels: &mut Channels, rgb: Rgb)
    ensures
        final(channels)@ == filled(old(channels)@, cmy_swatches(rgb[0], rgb[1], rgb[2])),
{
    proof {
        channels.lemma_shape();
    }
    let r: u8 = rgb[0];
    let g: u8 = rgb[1];
    let b: u8 = rgb[2];
    channels.set_rgb(0, self::rgb(0, 255 - r, 255 - r));
    channels.set_rgb(1, self::rgb(255 - g, 0, 255 - g));
    channels.set_rgb(2, self::rgb(255 - b, 255 - b, 0));
    assert(channels@ =~= filled(old(channels)@, cmy_swatches(rgb[0], rgb[1], rgb[2])));
}

/// How much of one ink a component takes once black is taken out.
fn ink(v: u8, max: u8) -> (level: u8)
    requires
        v <= max,
    ensures
        level == ink_level(v as int, max as int),
{
    if max == 0 {
        0
    } else {
        round_u8((max - v) as u32, max as u32)
    }
}

/// CMYK: writes the three ink plates with black taken out, and the black
/// plate.
pub fn cmyk_fill_channels(channels: &mut Channels, rgb: Rgb)
    ensures
        final(channels)@ == filled(old(channels)@, cmyk_swatches(rgb[0], rgb[1], rgb[2])),
{
    proof {
        channels.lemma_shape();
    }
    let (_min, max) = extremes(rgb);
    let c: u8 = ink(rgb[0], max);
    let m: u8 = ink(rgb[1], max);
    let y: u8 = ink(rgb[2], max);
    channels.set_rgb(0, self::rgb(0, c, c));
    channels.set_rgb(1, self::rgb(m, 0, m));
    channels.set_rgb(2, self::rgb(y, y, 0));
    channels.set_grey(3, 255 - max);
    assert(channels@ =~= filled(old(channels)@, cmyk_swatches(rgb[0], rgb[1], rgb[2])));
}

} // verus!
