use decompose::cli::{
    eq_ignore_ascii_case, find_space, output_file_name, read_answer, select_spaces,
    supported_spaces, Answer, Confirmer, Decision, SpaceArg,
};
use decompose::spaces::{spaces, Kind, Space};
use std::str::FromStr;

#[test]
fn names_are_compared_without_case() {
    assert!(eq_ignore_ascii_case(b"", b""));
    assert!(eq_ignore_ascii_case(b"Lin-RGB", b"lin-rgb"));
    assert!(eq_ignore_ascii_case(b"xyz", b"XYZ"));
    assert!(!eq_ignore_ascii_case(b"xyz", b"xy"));
    assert!(!eq_ignore_ascii_case(b"xy", b"xyz"));
    assert!(!eq_ignore_ascii_case(b"rgb", b"rgc"));
    assert!(!eq_ignore_ascii_case(b"@", b"`"));
    assert!(!eq_ignore_ascii_case(b"[", b"{"));
    assert!(eq_ignore_ascii_case(b"AZaz", b"azAZ"));
    assert!(!eq_ignore_ascii_case(b"\xc9", b"\xe9"));
}

#[test]
fn every_space_is_found_by_its_name() {
    for space in spaces() {
        let name = space.name();
        assert_eq!(Some(space.kind()), find_space(name.as_bytes()).map(|s| s.kind()));
        let upper = name.to_ascii_uppercase();
        assert_eq!(Some(space.kind()), find_space(upper.as_bytes()).map(|s| s.kind()));
        let lower = name.to_ascii_lowercase();
        assert_eq!(Some(space.kind()), SpaceArg::from_str(&lower).ok().map(|s| s.0.kind()));
    }
    assert_eq!(Some(Kind::XyY), SpaceArg::parse("XYy").ok().map(|s| s.0.kind()));
    assert_eq!(Some(Kind::Xyz), SpaceArg::parse("xyz").ok().map(|s| s.0.kind()));
}

#[test]
fn unknown_space_lists_the_names() {
    let want = "supported colour spaces: rgb, lin-rgb, XYZ, xyY, hsl, hsv, hwb, lab, lchab, \
                luv, lchuv, cmy, cmyk";
    assert_eq!(want, supported_spaces());
    assert_eq!(Some(String::from(want)), SpaceArg::from_str("yuv").err());
    assert_eq!(Some(String::from(want)), SpaceArg::from_str("").err());
    assert_eq!(Some(String::from(want)), SpaceArg::parse("rgb ").err());
    assert_eq!(Some(String::from(want)), SpaceArg::parse("linrgb").err());
    assert!(find_space(b"lin_rgb").is_none());
}

#[test]
fn confirmer_follows_the_flags() {
    assert_eq!(Confirmer::Overwrite, Confirmer::new(true, false));
    assert_eq!(Confirmer::Overwrite, Confirmer::new(true, true));
    assert_eq!(Confirmer::Interactive, Confirmer::new(false, true));
    assert_eq!(Confirmer::Skip, Confirmer::new(false, false));
}

#[test]
fn confirm_decides_by_policy_and_existence() {
    assert_eq!(Decision::Write, Confirmer::Overwrite.confirm(true));
    assert_eq!(Decision::Write, Confirmer::Overwrite.confirm(false));
    assert_eq!(Decision::Skip, Confirmer::Skip.confirm(true));
    assert_eq!(Decision::Write, Confirmer::Skip.confirm(false));
    assert_eq!(Decision::Ask, Confirmer::Interactive.confirm(true));
    assert_eq!(Decision::Write, Confirmer::Interactive.confirm(false));
}

#[test]
fn answers() {
    assert_eq!(Answer::EndOfInput, read_answer(b""));
    assert_eq!(Answer::Yes, read_answer(b"y"));
    assert_eq!(Answer::Yes, read_answer(b"Y\n"));
    assert_eq!(Answer::Yes, read_answer(b"y\r\n"));
    assert_eq!(Answer::Yes, read_answer(b"y\n\n\r\r"));
    assert_eq!(Answer::No, read_answer(b"n\n"));
    assert_eq!(Answer::No, read_answer(b"N"));
    assert_eq!(Answer::No, read_answer(b"\n"));
    assert_eq!(Answer::No, read_answer(b"\r\n"));
    assert_eq!(Answer::Unclear, read_answer(b"yes\n"));
    assert_eq!(Answer::Unclear, read_answer(b" y\n"));
    assert_eq!(Answer::Unclear, read_answer(b"y \n"));
    assert_eq!(Answer::Unclear, read_answer(b"\ny\n"));
    assert_eq!(Answer::Unclear, read_answer(b"x"));
}

fn kinds(list: &[SpaceArg]) -> Vec<Kind> {
    list.iter().map(|s| s.0.kind()).collect()
}

#[test]
fn empty_selection_means_every_space() {
    let all: Vec<Kind> = spaces().iter().map(|s| s.kind()).collect();
    assert_eq!(13, all.len());
    assert_eq!(all, kinds(&select_spaces(&vec![])));
}

#[test]
fn selection_is_put_in_order_without_repeats() {
    let pick = |k: Kind| SpaceArg(Space::of(k));
    let chosen = vec![
        pick(Kind::Cmyk),
        pick(Kind::Hsl),
        pick(Kind::Rgb),
        pick(Kind::Hsl),
        pick(Kind::Cmyk),
        pick(Kind::Hsl),
    ];
    assert_eq!(vec![Kind::Rgb, Kind::Hsl, Kind::Cmyk], kinds(&select_spaces(&chosen)));
    assert_eq!(vec![Kind::Luv], kinds(&select_spaces(&vec![pick(Kind::Luv), pick(Kind::Luv)])));
    let twice: Vec<SpaceArg> = spaces().into_iter().chain(spaces()).map(SpaceArg).rev().collect();
    assert_eq!(kinds(&select_spaces(&vec![])), kinds(&select_spaces(&twice)));
}

#[test]
fn output_file_is_named_after_stem_and_space() {
    assert_eq!(
        b"photo-lin-rgb.webp".to_vec(),
        output_file_name(&Space::of(Kind::LinRgb), b"photo")
    );
    assert_eq!(b"-XYZ.webp".to_vec(), output_file_name(&Space::of(Kind::Xyz), b""));
    assert_eq!(
        b"a.b\xff-cmyk.webp".to_vec(),
        output_file_name(&Space::of(Kind::Cmyk), b"a.b\xff")
    );
}
