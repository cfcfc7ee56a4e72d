use decompose::channels::Channels;
use decompose::hue::{hs_common_from_rgb, hue_from_rgb, hue_to_swatch, Hue};
use decompose::pixel::{extremes, grey, rgb, round_u8};
use decompose::spaces::{
    cmy_fill_channels, cmyk_fill_channels, hsl_fill_channels, hsv_fill_channels,
    hwb_fill_channels, rgb_fill_channels, spaces, Kind, Space,
};

fn slots(ch: &Channels) -> [[u8; 3]; 4] {
    [ch.get(0), ch.get(1), ch.get(2), ch.get(3)]
}

#[test]
fn pixels_and_extremes() {
    assert_eq!([1, 2, 3], rgb(1, 2, 3));
    assert_eq!([9, 9, 9], grey(9));
    assert_eq!((1, 3), extremes([1, 2, 3]));
    assert_eq!((1, 3), extremes([3, 2, 1]));
    assert_eq!((1, 3), extremes([2, 3, 1]));
    assert_eq!((7, 7), extremes([7, 7, 7]));
    assert_eq!((0, 255), extremes([0, 255, 0]));
}

#[test]
fn round_u8_rounds_to_nearest() {
    assert_eq!(0, round_u8(0, 7));
    assert_eq!(255, round_u8(7, 7));
    assert_eq!(128, round_u8(1, 2));
    assert_eq!(85, round_u8(1, 3));
    assert_eq!(170, round_u8(2, 3));
    assert_eq!(153, round_u8(150, 250));
    assert_eq!(1, round_u8(1, 255));
    assert_eq!(0, round_u8(1, 511));
    assert_eq!(1, round_u8(1, 510));
}

#[test]
fn round_u8_saturates() {
    assert_eq!(0, round_u8(0, 0));
    assert_eq!(255, round_u8(5, 0));
    assert_eq!(255, round_u8(3, 2));
    assert_eq!(255, round_u8(u32::MAX, 1));
    assert_eq!(255, round_u8(u32::MAX, u32::MAX));
    assert_eq!(0, round_u8(0, u32::MAX));
}

#[test]
fn channels_start_black_and_keep_what_is_set() {
    let mut ch = Channels::new();
    assert_eq!([[0, 0, 0]; 4], slots(&ch));
    ch.set_rgb(2, [1, 2, 3]);
    ch.set_grey(3, 9);
    assert_eq!([[0, 0, 0], [0, 0, 0], [1, 2, 3], [9, 9, 9]], slots(&ch));
    ch.set_rgb(2, [4, 5, 6]);
    assert_eq!([4, 5, 6], ch.get(2));
}

#[test]
fn hue_is_undefined_exactly_for_grey() {
    for v in [0u8, 1, 127, 128, 254, 255] {
        assert!(hue_from_rgb([v, v, v]).is_none());
    }
    for p in [[1u8, 0, 0], [0, 1, 0], [0, 0, 1], [255, 254, 255], [9, 9, 8]] {
        let hue = hue_from_rgb(p).unwrap();
        assert!(hue.denom() > 0);
        assert!(hue.numer() < 6 * hue.denom());
    }
}

#[test]
fn hue_of_primaries_and_secondaries() {
    fn frac(p: [u8; 3]) -> (u16, u16) {
        let h = hue_from_rgb(p).unwrap();
        (h.numer(), h.denom())
    }
    assert_eq!((0, 255), frac([255, 0, 0]));
    assert_eq!((255, 255), frac([255, 255, 0]));
    assert_eq!((510, 255), frac([0, 255, 0]));
    assert_eq!((765, 255), frac([0, 255, 255]));
    assert_eq!((1020, 255), frac([0, 0, 255]));
    assert_eq!((1275, 255), frac([255, 0, 255]));
    assert_eq!((128, 255), frac([255, 128, 0]));
    assert_eq!((59, 10), frac([10, 0, 1]));
    assert_eq!((14 - 4, 7), frac([17, 20, 13]));
    assert_eq!((40 - 3, 10), frac([17, 20, 27]));
}

#[test]
fn hue_new_accepts_fractions_below_six() {
    assert!(Hue::new(0, 1).is_some());
    assert!(Hue::new(5, 1).is_some());
    assert!(Hue::new(6, 1).is_none());
    assert!(Hue::new(0, 0).is_none());
    assert!(Hue::new(1529, 255).is_some());
    assert!(Hue::new(1530, 255).is_none());
    assert!(Hue::new(0, 256).is_none());
    let h = Hue::new(7, 3).unwrap();
    assert_eq!((7, 3), (h.numer(), h.denom()));
}

#[test]
fn hue_swatch_is_black_exactly_for_undefined_hue() {
    assert_eq!([0, 0, 0], hue_to_swatch(None));
    for denom in [1u16, 2, 3, 10, 255] {
        for numer in 0..6 * denom {
            let s = hue_to_swatch(Hue::new(numer, denom));
            assert_ne!([0, 0, 0], s);
            for k in 0..3 {
                assert!(64 <= s[k] && s[k] <= 191);
            }
        }
    }
}

#[test]
fn hue_swatch_follows_sector_table() {
    fn sw(numer: u16, denom: u16) -> [u8; 3] {
        hue_to_swatch(Hue::new(numer, denom))
    }
    assert_eq!([191, 64, 64], sw(0, 1));
    assert_eq!([191, 191, 64], sw(1, 1));
    assert_eq!([64, 191, 64], sw(2, 1));
    assert_eq!([64, 191, 191], sw(3, 1));
    assert_eq!([64, 64, 191], sw(4, 1));
    assert_eq!([191, 64, 191], sw(5, 1));
    assert_eq!([191, 128, 64], sw(1, 2));
    assert_eq!([128, 191, 64], sw(3, 2));
    assert_eq!([64, 191, 128], sw(5, 2));
    assert_eq!([64, 128, 191], sw(7, 2));
    assert_eq!([128, 64, 191], sw(9, 2));
    assert_eq!([191, 64, 128], sw(11, 2));
}

#[test]
fn hue_swatch_ramp_is_exact() {
    // x = 1/20: 255 / 20 + 64.25 = 77 exactly.
    assert_eq!([191, 64, 77], hue_to_swatch(Hue::new(59, 10)));
    // x = 1/4 - 1/510 * ...: 128 / 255 of a sector.
    assert_eq!([191, 128, 64], hue_to_swatch(Hue::new(128, 255)));
    // One step into the first sector: 510 / 1020 + 64.25 = 64.75.
    assert_eq!([191, 64, 64], hue_to_swatch(Hue::new(1, 255)));
    assert_eq!([191, 65, 64], hue_to_swatch(Hue::new(2, 255)));
}

#[test]
fn hs_common_returns_extremes_and_writes_hue() {
    let mut ch = Channels::new();
    ch.set_grey(2, 7);
    assert_eq!((50, 200, 250, 150), hs_common_from_rgb(&mut ch, [200, 100, 50]));
    // hue = 50 / 150 = 1 / 3: x = 1 / 6, 42.5 + 64.25 = 106.75.
    assert_eq!([[191, 106, 64], [0, 0, 0], [7, 7, 7], [0, 0, 0]], slots(&ch));
    assert_eq!((5, 5, 10, 0), hs_common_from_rgb(&mut ch, [5, 5, 5]));
    assert_eq!([0, 0, 0], ch.get(0));
}

#[test]
fn rgb_isolates_each_component() {
    let mut ch = Channels::new();
    ch.set_grey(3, 1);
    rgb_fill_channels(&mut ch, [200, 100, 50]);
    assert_eq!([[200, 0, 0], [0, 100, 0], [0, 0, 50], [1, 1, 1]], slots(&ch));
}

#[test]
fn hsl_of_grey_has_no_hue_and_no_saturation() {
    let mut ch = Channels::new();
    hsl_fill_channels(&mut ch, [128, 128, 128]);
    assert_eq!([[0, 0, 0], [0, 0, 0], [128, 128, 128], [0, 0, 0]], slots(&ch));
}

#[test]
fn hsl_saturation_at_the_extremes_of_the_range() {
    for v in [0u8, 1, 100, 254, 255] {
        let mut ch = Channels::new();
        ch.set_grey(1, 99);
        hsl_fill_channels(&mut ch, [v, v, v]);
        assert_eq!([0, 0, 0], ch.get(1));
        assert_eq!([v, v, v], ch.get(2));
    }
    for p in [[255u8, 0, 0], [0, 255, 0], [255, 0, 255], [0, 77, 255]] {
        let mut ch = Channels::new();
        hsl_fill_channels(&mut ch, p);
        assert_eq!([255, 255, 255], ch.get(1));
        assert_eq!([127, 127, 127], ch.get(2));
    }
}

#[test]
fn hsl_saturation_formula() {
    let mut ch = Channels::new();
    hsl_fill_channels(&mut ch, [200, 100, 50]);
    // 150 / 250 = 0.6, 153.5 rounds down to 153; lightness 250 / 2.
    assert_eq!([[191, 106, 64], [153, 153, 153], [125, 125, 125], [0, 0, 0]], slots(&ch));
    hsl_fill_channels(&mut ch, [250, 200, 150]);
    // 100 / (510 - 400) = 0.909..., 231.8 + 0.5 = 232.3.
    assert_eq!([232, 232, 232], ch.get(1));
    assert_eq!([200, 200, 200], ch.get(2));
}

#[test]
fn hsv_saturation_and_value() {
    let mut ch = Channels::new();
    hsv_fill_channels(&mut ch, [200, 100, 50]);
    // 150 / 200 = 0.75, 191.25 + 0.5 = 191.75.
    assert_eq!([[191, 106, 64], [191, 191, 191], [200, 200, 200], [0, 0, 0]], slots(&ch));
    hsv_fill_channels(&mut ch, [0, 0, 0]);
    assert_eq!([[0, 0, 0], [0, 0, 0], [0, 0, 0], [0, 0, 0]], slots(&ch));
    hsv_fill_channels(&mut ch, [9, 9, 9]);
    assert_eq!([[0, 0, 0], [0, 0, 0], [9, 9, 9], [0, 0, 0]], slots(&ch));
    hsv_fill_channels(&mut ch, [0, 0, 3]);
    assert_eq!([[64, 64, 191], [255, 255, 255], [3, 3, 3], [0, 0, 0]], slots(&ch));
}

#[test]
fn hwb_whiteness_and_blackness() {
    let mut ch = Channels::new();
    hwb_fill_channels(&mut ch, [200, 100, 50]);
    assert_eq!([[191, 106, 64], [50, 50, 50], [55, 55, 55], [0, 0, 0]], slots(&ch));
    hwb_fill_channels(&mut ch, [255, 255, 255]);
    assert_eq!([[0, 0, 0], [255, 255, 255], [0, 0, 0], [0, 0, 0]], slots(&ch));
}

#[test]
fn cmy_tints() {
    let mut ch = Channels::new();
    cmy_fill_channels(&mut ch, [200, 100, 50]);
    assert_eq!([[0, 55, 55], [155, 0, 155], [205, 205, 0], [0, 0, 0]], slots(&ch));
    cmy_fill_channels(&mut ch, [0, 0, 0]);
    assert_eq!([[0, 255, 255], [255, 0, 255], [255, 255, 0], [0, 0, 0]], slots(&ch));
    cmy_fill_channels(&mut ch, [255, 255, 255]);
    assert_eq!([[0, 0, 0]; 4], slots(&ch));
}

#[test]
fn cmyk_plates() {
    let mut ch = Channels::new();
    cmyk_fill_channels(&mut ch, [200, 100, 50]);
    assert_eq!([[0, 0, 0], [128, 0, 128], [191, 191, 0], [55, 55, 55]], slots(&ch));
    cmyk_fill_channels(&mut ch, [255, 255, 255]);
    assert_eq!([[0, 0, 0], [0, 0, 0], [0, 0, 0], [0, 0, 0]], slots(&ch));
    cmyk_fill_channels(&mut ch, [0, 0, 1]);
    assert_eq!([[0, 255, 255], [255, 0, 255], [0, 0, 0], [254, 254, 254]], slots(&ch));
}

#[test]
fn cmyk_black_pixel_has_no_ink() {
    let mut ch = Channels::new();
    ch.set_grey(0, 9);
    ch.set_grey(1, 9);
    ch.set_grey(2, 9);
    cmyk_fill_channels(&mut ch, [0, 0, 0]);
    assert_eq!([0, 0, 0], ch.get(0));
    assert_eq!([0, 0, 0], ch.get(1));
    assert_eq!([0, 0, 0], ch.get(2));
    assert_eq!([255, 255, 255], ch.get(3));
}

#[test]
fn registry_lists_thirteen_spaces_in_order() {
    let names: Vec<&str> = spaces().iter().map(|s| s.name()).collect();
    assert_eq!(
        vec![
            "rgb", "lin-rgb", "XYZ", "xyY", "hsl", "hsv", "hwb", "lab", "lchab", "luv", "lchuv",
            "cmy", "cmyk"
        ],
        names
    );
    for (i, space) in spaces().iter().enumerate() {
        assert_eq!(i, space.kind().index());
        assert_eq!(Some(space.kind()), Kind::from_index(i));
        assert_eq!(if i == 12 { 4 } else { 3 }, space.channels());
        assert_eq!(space.name(), Space::of(space.kind()).name());
    }
    assert_eq!(None, Kind::from_index(13));
}

#[test]
fn exact_spaces_fill_and_others_leave_channels_alone() {
    let exact = [Kind::Rgb, Kind::Hsl, Kind::Hsv, Kind::Hwb, Kind::Cmy, Kind::Cmyk];
    for space in spaces() {
        let mut ch = Channels::new();
        ch.set_grey(0, 1);
        ch.set_grey(1, 2);
        ch.set_grey(2, 3);
        ch.set_grey(3, 4);
        let filled = space.fill_channels(&mut ch, [10, 200, 30]);
        assert_eq!(exact.contains(&space.kind()), filled);
        assert_eq!(filled, space.is_exact());
        if filled {
            assert_ne!([1, 1, 1], ch.get(0));
            assert_ne!([2, 2, 2], ch.get(1));
            assert_ne!([3, 3, 3], ch.get(2));
            assert_eq!(space.kind() != Kind::Cmyk, ch.get(3) == [4, 4, 4]);
        } else {
            assert_eq!([[1, 1, 1], [2, 2, 2], [3, 3, 3], [4, 4, 4]], slots(&ch));
        }
    }
    let mut a = Channels::new();
    let mut b = Channels::new();
    Space::of(Kind::Hwb).fill_channels(&mut a, [10, 200, 30]);
    hwb_fill_channels(&mut b, [10, 200, 30]);
    assert_eq!(slots(&a), slots(&b));
}
