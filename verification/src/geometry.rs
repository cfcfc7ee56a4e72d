//! Sizes and crop geometries as the command line writes them:
//! `<width>x<height>` and `<width>x<height>+<x>+<y>`.
use vstd::prelude::*;
use vstd::slice::slice_subrange;
use vstd::string::StringSliceAdditionalSpecFns;

verus! {

/// A rectangle to cut from an image, with its offset measured from the left
/// or the right edge, and from the top or the bottom edge.
#[derive(PartialEq, Eq, Debug, Clone, Copy)]
pub struct Crop {
    pub width: u32,
    pub height: u32,
    pub is_west: bool,
    pub is_north: bool,
    pub x: u32,
    pub y: u32,
}

/// A size in pixels; neither side is zero.
#[derive(PartialEq, Eq, Debug, Clone, Copy)]
pub struct Dimensions {
    pub width: u32,
    pub height: u32,
}

/// Whether a byte is an ASCII digit.
pub open spec fn is_digit(b: u8) -> bool {
    48 <= b <= 57
}

/// Whether a byte can separate two numbers: a printable ASCII character
/// other than the space.
pub open spec fn is_separator(b: u8) -> bool {
    32 < b < 127
}

/// The end of the run of digits that starts at `from`.
pub open spec fn digits_end(s: Seq<u8>, from: int) -> int
    decreases s.len() - from,
{
    if 0 <= from < s.len() && is_digit(s[from]) {
        digits_end(s, from + 1)
    } else {
        from
    }
}

/// The number that a sequence of digits writes in base ten.
pub open spec fn decimal(s: Seq<u8>) -> nat
    decreases s.len(),
{
    if s.len() == 0 {
        0
    } else {
        decimal(s.drop_last()) * 10 + (s.last() - 48) as nat
    }
}

/// The number written at `from` and the place where it ends: the longest
/// run of digits there, where it is not empty and its value fits 32 bits.
pub open spec fn number_at(s: Seq<u8>, from: int) -> Option<(u32, int)> {
    let end = digits_end(s, from);
    let value = decimal(s.subrange(from, end));
    if from < end && value <= u32::MAX {
        Some((value as u32, end))
    } else {
        None
    }
}

/// Two numbers with one separator between them, and what follows the
/// second number.
pub open spec fn number_pair(s: Seq<u8>) -> Option<(u32, u8, u32, Seq<u8>)> {
    match number_at(s, 0) {
        None => None,
        Some((a, i)) => {
            if i < s.len() && is_separator(s[i]) {
                match number_at(s, i + 1) {
                    None => None,
                    Some((b, j)) => Some((a, s[i], b, s.subrange(j, s.len() as int))),
                }
            } else {
                None
            }
        },
    }
}

/// The size that `<width>x<height>` writes: two numbers other than zero
/// with a lower-case `x` between them and nothing after them.
pub open spec fn dimensions_of(s: Seq<u8>) -> Option<Dimensions> {
    match number_pair(s) {
        Some((w, sep, h, rest)) => {
            if w > 0 && sep == 120 && h > 0 && rest.len() == 0 {
                Some(Dimensions { width: w, height: h })
            } else {
                None
            }
        },
        None => None,
    }
}

/// The offset that follows the size in a crop geometry: a sign, a number,
/// a sign and a number, and nothing after them. A `+` measures from the
/// left or the top edge, a `-` from the right or the bottom edge.
pub open spec fn offset_of(s: Seq<u8>) -> Option<(bool, u32, bool, u32)> {
    if s.len() == 0 || (s[0] != 43 && s[0] != 45) {
        None
    } else {
        match number_pair(s.subrange(1, s.len() as int)) {
            Some((x, sign, y, rest)) => {
                if (sign == 43 || sign == 45) && rest.len() == 0 {
                    Some((s[0] == 43, x, sign == 43, y))
                } else {
                    None
                }
            },
            None => None,
        }
    }
}

/// The geometry that `<width>x<height>+<x>+<y>` writes. The size is as in
/// `dimensions_of`, but may be followed by an offset; without one the
/// offset is `+0+0`.
pub open spec fn crop_of(s: Seq<u8>) -> Option<Crop> {
    match number_pair(s) {
        Some((w, sep, h, rest)) => {
            if sep != 120 || w == 0 || h == 0 {
                None
            } else if rest.len() == 0 {
                Some(Crop { width: w, height: h, is_west: true, is_north: true, x: 0, y: 0 })
            } else {
                match offset_of(rest) {
                    Some((west, x, north, y)) => Some(
                        Crop { width: w, height: h, is_west: west, is_north: north, x, y },
                    ),
                    None => None,
                }
            }
        },
        None => None,
    }
}

/// A run of digits ends at the first place that holds no digit.
pub proof fn lemma_digits_end(s: Seq<u8>, from: int, end: int)
    requires
        0 <= from <= end <= s.len(),
        forall|i: int| from <= i < end ==> is_digit(#[trigger] s[i]),
        end < s.len() ==> !is_digit(s[end]),
    ensures
        digits_end(s, from) == end,
    decreases end - from,
{
    if from < end {
        lemma_digits_end(s, from + 1, end);
    }
}

/// Reads the number written at `from`: its value, where the run of digits
/// is not empty and fits 32 bits, and the place where the run ends.
pub fn scan_number(arg: &[u8], from: usize) -> (out: (Option<u32>, usize))
    ensures
        out.1 == digits_end(arg@, from as int),
        from <= out.1,
        from <= arg@.len() ==> out.1 <= arg@.len(),
        out.0 == match number_at(arg@, from as int) {
            Some((value, _)) => Some(value),
            None => None::<u32>,
        },
{
    let len: usize = arg.len();
    if from > len {
        return (None, from);
    }
    let mut i: usize = from;
    let mut value: u32 = 0;
    let mut fits: bool = true;
    while i < len && 48 <= arg[i] && arg[i] <= 57
        invariant
            from <= i <= len,
            len == arg@.len(),
            forall|k: int| from <= k < i ==> is_digit(#[trigger] arg@[k]),
            fits ==> value == decimal(arg@.subrange(from as int, i as int)),
            !fits ==> decimal(arg@.subrange(from as int, i as int)) > u32::MAX,
        decreases len - i,
    {
        let digit: u32 = (arg[i] - 48) as u32;
        proof {
            let next = arg@.subrange(from as int, i + 1);
            assert(next.drop_last() =~= arg@.subrange(from as int, i as int));
            assert(next.last() == arg@[i as int]);
        }
        if fits {
            match value.checked_mul(10) {
                Some(tens) => match tens.checked_add(digit) {
                    Some(sum) => {
                        value = sum;
                    },
                    None => {
                        fits = false;
                    },
                },
                None => {
                    fits = false;
                },
            }
        }
        i += 1;
    }
    proof {
        lemma_digits_end(arg@, from as int, i as int);
    }
    if fits && from < i {
        (Some(value), i)
    } else {
        (None, i)
    }
}

/// Reads two numbers with one separator between them; also gives what
/// follows the second number.
pub fn parse_number_pair(arg: &[u8]) -> (out: Option<(u32, u8, u32, &[u8])>)
    ensures
        out is Some <==> number_pair(arg@) is Some,
        out matches Some((a, sep, b, rest)) ==> number_pair(arg@) == Some((a, sep, b, rest@)),
{
    let (first, i) = scan_number(arg, 0);
    let a: u32 = match first {
        Some(a) => a,
        None => {
            return None;
        },
    };
    if i >= arg.len() {
        return None;
    }
    let sep: u8 = arg[i];
    if sep <= 32 || sep >= 127 {
        return None;
    }
    let (second, j) = scan_number(arg, i + 1);
    let b: u32 = match second {
        Some(b) => b,
        None => {
            return None;
        },
    };
    Some((a, sep, b, slice_subrange(arg, j, arg.len())))
}

/// Reads a size, `<width>x<height>`.
pub fn parse_dimensions(arg: &[u8]) -> (out: Option<Dimensions>)
    ensures
        out == dimensions_of(arg@),
{
    match parse_number_pair(arg) {
        Some((w, sep, h, rest)) => {
            if w > 0 && sep == 120 && h > 0 && rest.len() == 0 {
                Some(Dimensions { width: w, height: h })
            } else {
                None
            }
        },
        None => None,
    }
}

/// Reads a crop geometry, `<width>x<height>+<x>+<y>`; the offset may be
/// left out.
pub fn parse_crop_str(arg: &[u8]) -> (out: Option<Crop>)
    ensures
        out == crop_of(arg@),
{
    let (width, sep, height, rest) = match parse_number_pair(arg) {
        Some(pair) => pair,
        None => {
            return None;
        },
    };
    if sep != 120 || width == 0 || height == 0 {
        return None;
    }
    if rest.len() == 0 {
        return Some(Crop { width, height, is_west: true, is_north: true, x: 0, y: 0 });
    }
    let xch: u8 = rest[0];
    if xch != 43 && xch != 45 {
        return None;
    }
    match parse_number_pair(slice_subrange(rest, 1, rest.len())) {
        Some((x, ych, y, tail)) => {
            if (ych == 43 || ych == 45) && tail.len() == 0 {
                Some(Crop { width, height, is_west: xch == 43, is_north: ych == 43, x, y })
            } else {
                None
            }
        },
        None => None,
    }
}

/// The smaller of two numbers.
pub open spec fn min2(a: int, b: int) -> int {
    if a <= b {
        a
    } else {
        b
    }
}

/// The place along one side where a crop starts: the offset, cut down to
/// the slack that the crop leaves on that side, measured from the near
/// edge or from the far edge.
pub open spec fn crop_start(near: bool, offset: int, slack: int) -> int {
    if near {
        min2(offset, slack)
    } else {
        slack - min2(offset, slack)
    }
}

impl Crop {
    /// Reads a crop geometry; says what was expected where the text is
    /// none.
    pub fn parse(arg: &str) -> (out: Result<Crop, &'static str>)
        ensures
            match crop_of(arg.spec_bytes()) {
                Some(crop) => out == Ok::<Crop, &'static str>(crop),
                None => out matches Err(msg) && msg@ == "expected \u{2018}<w>x<h>+<x>+<y>\u{2019}"@,
            },
    {
        match parse_crop_str(arg.as_bytes()) {
            Some(crop) => Ok(crop),
            None => Err("expected \u{2018}<w>x<h>+<x>+<y>\u{2019}"),
        }
    }

    /// The rectangle `(x, y, width, height)` that the geometry cuts from
    /// an image of the given size, or `None` where it keeps the whole
    /// image. The rectangle is no larger than the image and lies inside
    /// it.
    pub fn region(&self, img_width: u32, img_height: u32) -> (out: Option<(u32, u32, u32, u32)>)
        ensures
            out is None <==> self.width >= img_width && self.height >= img_height,
            out matches Some((x, y, width, height)) ==> {
                &&& width == min2(self.width as int, img_width as int)
                &&& height == min2(self.height as int, img_height as int)
                &&& x == crop_start(self.is_west, self.x as int, img_width - width)
                &&& y == crop_start(self.is_north, self.y as int, img_height - height)
                &&& x + width <= img_width
                &&& y + height <= img_height
            },
    {
        let width: u32 = if self.width <= img_width {
            self.width
        } else {
            img_width
        };
        let height: u32 = if self.height <= img_height {
            self.height
        } else {
            img_height
        };
        if width == img_width && height == img_height {
            return None;
        }
        let x: u32 = if self.x <= img_width - width {
            self.x
        } else {
            img_width - width
        };
        let y: u32 = if self.y <= img_height - height {
            self.y
        } else {
            img_height - height
        };
        let x: u32 = if self.is_west {
            x
        } else {
            img_width - width - x
        };
        let y: u32 = if self.is_north {
            y
        } else {
            img_height - height - y
        };
        Some((x, y, width, height))
    }
}

impl Dimensions {
    /// Reads a size; says what was expected where the text is none.
    pub fn parse(arg: &str) -> (out: Result<Dimensions, &'static str>)
        ensures
            match dimensions_of(arg.spec_bytes()) {
                Some(size) => out == Ok::<Dimensions, &'static str>(size),
                None => out matches Err(msg) && msg@ == "expected \u{2018}<width>x<height>\u{2019}"@,
            },
    {
        match parse_dimensions(arg.as_bytes()) {
            Some(size) => Ok(size),
            None => Err("expected \u{2018}<width>x<height>\u{2019}"),
        }
    }
}

/// Reading a crop geometry from text: the geometry that the text writes,
/// or what was expected where it writes none.
impl std::str::FromStr for Crop {
    type Err = &'static str;

    fn from_str(arg: &str) -> (out: Result<Self, Self::Err>)
        ensures
            match crop_of(arg.spec_bytes()) {
                Some(crop) => out == Ok::<Crop, &'static str>(crop),
                None => out matches Err(msg) && msg@ == "expected \u{2018}<w>x<h>+<x>+<y>\u{2019}"@,
            },
    {
        Crop::parse(arg)
    }
}

/// Reading a size from text: the size that the text writes, or what was
/// expected where it writes none.
impl std::str::FromStr for Dimensions {
    type Err = &'static str;

    fn from_str(arg: &str) -> (out: Result<Self, Self::Err>)
        ensures
            match dimensions_of(arg.spec_bytes()) {
                Some(size) => out == Ok::<Dimensions, &'static str>(size),
                None => out matches Err(msg) && msg@ == "expected \u{2018}<width>x<height>\u{2019}"@,
            },
    {
        Dimensions::parse(arg)
    }
}

} // verus!
