//! The composite image builder: the source image and, to its right, one
//! block per channel, each pixel of a block the swatch of the source pixel
//! at the same place.
use vstd::prelude::*;
use crate::channels::Channels;
use crate::pixel::{px, Rgb};
use crate::raster::{cell, lemma_cell_in_bounds, pixel_at, put_pixel, Raster};
use crate::spaces::{kind_channels, swatches, Kind, Space};

verus! {

/// Whether the composite of a `width * height` image with the given number
/// of channels can be built: its row width and its byte count fit 32 bits.
pub open spec fn fits(channels: int, width: int, height: int) -> bool {
    &&& (channels + 1) * width <= u32::MAX
    &&& 3 * ((channels + 1) * width * height) <= u32::MAX
}

/// The place in the composite buffer of column `x` of row `y` of block
/// `block`; block 0 is the copy of the source, block `c + 1` shows channel
/// `c`. `width` is the width of the source and `channels` the number of
/// channels.
pub open spec fn slot_index(width: int, channels: int, block: int, x: int, y: int) -> int {
    y * ((channels + 1) * width) + block * width + x
}

/// The pixel of a composite buffer in column `x` of row `y` of a block.
pub open spec fn block_pixel(
    out: Seq<u8>,
    width: int,
    channels: int,
    block: int,
    x: int,
    y: int,
) -> Seq<u8> {
    cell(out, slot_index(width, channels, block, x, y))
}

/// Whether a composite buffer holds, at column `x` of row `y` of every
/// block, what the source pixel at that place gives: the pixel itself in
/// block 0, and in the block of each channel the swatch of that channel.
/// The swatches are those of the space's own rule where it has one; else
/// they are the slots of one answer of the collaborator to that pixel.
pub open spec fn rendered<F: Fn(Rgb) -> Channels>(
    out: Seq<u8>,
    space: Space,
    src: Raster,
    colorimetry: F,
    x: int,
    y: int,
) -> bool {
    let w = src.spec_width();
    let n = kind_channels(space.spec_kind());
    let p = src.pixel(x, y);
    &&& block_pixel(out, w, n, 0, x, y) == p
    &&& match swatches(space.spec_kind(), p[0], p[1], p[2]) {
        Some(s) => forall|c: int|
            0 <= c < n ==> #[trigger] block_pixel(out, w, n, c + 1, x, y) == s[c],
        None => exists|q: Rgb, ch: Channels|
            {
                &&& q@ == p
                &&& #[trigger] call_ensures(colorimetry, (q,), ch)
                &&& forall|c: int|
                    0 <= c < n ==> #[trigger] block_pixel(out, w, n, c + 1, x, y) == ch@[c]
            },
    }
}

/// Every place of a block lies inside the composite buffer.
pub proof fn lemma_slot_bounds(width: int, height: int, channels: int, block: int, x: int, y: int)
    requires
        0 <= x < width,
        0 <= y < height,
        0 <= block <= channels,
    ensures
        0 <= y * ((channels + 1) * width),
        0 <= block * width,
        0 <= block * width + x < (channels + 1) * width,
        0 <= slot_index(width, channels, block, x, y) < (channels + 1) * width * height,
        3 * slot_index(width, channels, block, x, y) + 3 <= 3 * ((channels + 1) * width * height),
{
    let dw = (channels + 1) * width;
    assert(0 <= block * width && block * width + width <= dw) by (nonlinear_arith)
        requires
            0 <= block <= channels,
            0 < width,
            dw == (channels + 1) * width,
    ;
    lemma_cell_in_bounds(dw, height, block * width + x, y);
    assert(dw * height == (channels + 1) * width * height);
}

/// Different places of the blocks are different places of the buffer.
pub proof fn lemma_slot_distinct(
    width: int,
    channels: int,
    block: int,
    x: int,
    y: int,
    block2: int,
    x2: int,
    y2: int,
)
    requires
        0 <= x < width,
        0 <= x2 < width,
        0 <= block <= channels,
        0 <= block2 <= channels,
        0 <= y,
        0 <= y2,
        slot_index(width, channels, block, x, y) == slot_index(width, channels, block2, x2, y2),
    ensures
        block == block2,
        x == x2,
        y == y2,
{
    let dw = (channels + 1) * width;
    let col = block * width + x;
    let col2 = block2 * width + x2;
    lemma_slot_bounds(width, y + 1, channels, block, x, y);
    lemma_slot_bounds(width, y2 + 1, channels, block2, x2, y2);
    let i = slot_index(width, channels, block, x, y);
    vstd::arithmetic::div_mod::lemma_fundamental_div_mod_converse(i, dw, y, col);
    vstd::arithmetic::div_mod::lemma_fundamental_div_mod_converse(i, dw, y2, col2);
    vstd::arithmetic::div_mod::lemma_fundamental_div_mod_converse(col, width, block, x);
    vstd::arithmetic::div_mod::lemma_fundamental_div_mod_converse(col, width, block2, x2);
}

/// A place that is rendered stays rendered where the buffer keeps the
/// pixels of that place in every block.
pub proof fn lemma_rendered_frame<F: Fn(Rgb) -> Channels>(
    before: Seq<u8>,
    after: Seq<u8>,
    space: Space,
    src: Raster,
    colorimetry: F,
    x: int,
    y: int,
)
    requires
        rendered(before, space, src, colorimetry, x, y),
        forall|block: int|
            0 <= block <= kind_channels(space.spec_kind()) ==> #[trigger] block_pixel(
                after,
                src.spec_width(),
                kind_channels(space.spec_kind()),
                block,
                x,
                y,
            ) == block_pixel(
                before,
                src.spec_width(),
                kind_channels(space.spec_kind()),
                block,
                x,
                y,
            ),
    ensures
        rendered(after, space, src, colorimetry, x, y),
{
    let w = src.spec_width();
    let n = kind_channels(space.spec_kind());
    let p = src.pixel(x, y);
    assert(block_pixel(after, w, n, 0, x, y) == block_pixel(before, w, n, 0, x, y));
    match swatches(space.spec_kind(), p[0], p[1], p[2]) {
        Some(s) => {
            assert forall|c: int| 0 <= c < n implies #[trigger] block_pixel(
                after,
                w,
                n,
                c + 1,
                x,
                y,
            ) == s[c] by {
                assert(block_pixel(after, w, n, c + 1, x, y) == block_pixel(
                    before,
                    w,
                    n,
                    c + 1,
                    x,
                    y,
                ));
            }
        },
        None => {
            let (q, ch) = choose|q: Rgb, ch: Channels|
                {
                    &&& q@ == p
                    &&& #[trigger] call_ensures(colorimetry, (q,), ch)
                    &&& forall|c: int|
                        0 <= c < n ==> #[trigger] block_pixel(before, w, n, c + 1, x, y)
                            == ch@[c]
                };
            assert forall|c: int| 0 <= c < n implies #[trigger] block_pixel(
                after,
                w,
                n,
                c + 1,
                x,
                y,
            ) == ch@[c] by {
                assert(block_pixel(after, w, n, c + 1, x, y) == block_pixel(
                    before,
                    w,
                    n,
                    c + 1,
                    x,
                    y,
                ));
            }
            assert(call_ensures(colorimetry, (q,), ch));
        },
    }
}

/// In a composite for RGB, the block of each axis holds, at every rendered
/// place, the component of the source pixel on that axis and zeros.
pub proof fn lemma_rgb_round_trip<F: Fn(Rgb) -> Channels>(
    out: Seq<u8>,
    space: Space,
    src: Raster,
    colorimetry: F,
    x: int,
    y: int,
)
    requires
        space.spec_kind() == Kind::Rgb,
        rendered(out, space, src, colorimetry, x, y),
    ensures
        block_pixel(out, src.spec_width(), 3, 1, x, y) == px(src.pixel(x, y)[0], 0, 0),
        block_pixel(out, src.spec_width(), 3, 2, x, y) == px(0, src.pixel(x, y)[1], 0),
        block_pixel(out, src.spec_width(), 3, 3, x, y) == px(0, 0, src.pixel(x, y)[2]),
{
    let p = src.pixel(x, y);
    let s = swatches(Kind::Rgb, p[0], p[1], p[2])->0;
    assert(block_pixel(out, src.spec_width(), 3, 0int + 1, x, y) == s[0]);
    assert(block_pixel(out, src.spec_width(), 3, 1int + 1, x, y) == s[1]);
    assert(block_pixel(out, src.spec_width(), 3, 2int + 1, x, y) == s[2]);
}

/// The composite of an image without pixels fits, whatever the number of
/// channels.
pub proof fn lemma_empty_fits(channels: int)
    ensures
        fits(channels, 0, 0),
{
    assert((channels + 1) * 0 == 0) by (nonlinear_arith);
    assert((channels + 1) * 0 * 0 == 0) by (nonlinear_arith);
}

/// What a block of a composite shows at a place: the source pixel in block
/// 0, else the slot of the block's channel.
pub open spec fn block_value(p: Seq<u8>, slots: Seq<Seq<u8>>, block: int) -> Seq<u8> {
    if block == 0 {
        p
    } else {
        slots[block - 1]
    }
}

/// Builds the composite of an image in a colour space: `channels + 1`
/// blocks side by side, the leftmost the image itself, the others one per
/// channel. Each source pixel is rendered once, and every pixel of the
/// result is written before the result is handed out.
///
/// A space with an exact rule of its own is rendered by that rule. For a
/// space that goes through tristimulus values, `colorimetry` is asked once
/// for every source pixel and must answer with the pixel's swatches.
///
/// The result is `None` exactly if the composite does not fit; an image
/// without pixels gives a composite without pixels.
pub fn build_image<F: Fn(Rgb) -> Channels>(space: &Space, src: &Raster, colorimetry: F) -> (out:
    Option<(u32, u32, Vec<u8>)>)
    requires
        swatches(space.spec_kind(), 0, 0, 0) is None ==> forall|p: Rgb|
            call_requires(colorimetry, (p,)),
    ensures
        out is Some <==> fits(
            kind_channels(space.spec_kind()),
            src.spec_width(),
            src.spec_height(),
        ),
        out matches Some((width, height, buf)) ==> {
            &&& width == (kind_channels(space.spec_kind()) + 1) * src.spec_width()
            &&& height == src.spec_height()
            &&& buf@.len() == 3 * (width * height)
            &&& forall|x: int, y: int|
                0 <= x < src.spec_width() && 0 <= y < src.spec_height() ==> #[trigger] pixel_at(
                    buf@,
                    width as int,
                    x,
                    y,
                ) == src.pixel(x, y)
            &&& forall|x: int, y: int|
                0 <= x < src.spec_width() && 0 <= y < src.spec_height() ==> #[trigger] rendered(
                    buf@,
                    *space,
                    *src,
                    colorimetry,
                    x,
                    y,
                )
        },
{
    let w: u32 = src.width();
    let h: u32 = src.height();
    let n: usize = space.channels();
    let exact: bool = space.is_exact();
    let ghost gw = w as int;
    let ghost gh = h as int;
    let ghost gn = n as int;
    proof {
        assert(gn == 3 || gn == 4);
        assert(gw * (gn + 1) == (gn + 1) * gw) by (nonlinear_arith);
        assert(0 <= (gn + 1) * gw * gh && ((gn + 1) * gw > u32::MAX ==> gh == 0 || (gn + 1)
            * gw * gh > u32::MAX)) by (nonlinear_arith)
            requires
                0 <= gw,
                0 <= gh,
                0 <= gn,
        ;
    }
    let dst_width: u32 = match w.checked_mul(n as u32 + 1) {
        Some(v) => v,
        None => {
            return None;
        },
    };
    assert(dst_width == (gn + 1) * gw);
    assert(dst_width * h == (gn + 1) * gw * gh);
    let dst_area: u32 = match dst_width.checked_mul(h) {
        Some(v) => v,
        None => {
            return None;
        },
    };
    let dst_size: u32 = match dst_area.checked_mul(3) {
        Some(v) => v,
        None => {
            return None;
        },
    };
    let mut buf: Vec<u8> = vec![0u8; dst_size as usize];
    let dw: usize = dst_width as usize;
    let mut y: u32 = 0;
    while y < h
        invariant
            y <= h,
            gw == w == src.spec_width(),
            gh == h == src.spec_height(),
            gn == n == kind_channels(space.spec_kind()),
            gn == 3 || gn == 4,
            dw == (gn + 1) * gw,
            buf@.len() == 3 * ((gn + 1) * gw * gh),
            3 * ((gn + 1) * gw * gh) <= u32::MAX,
            forall|r: u8, g: u8, b: u8|
                exact == (#[trigger] swatches(space.spec_kind(), r, g, b) is Some),
            !exact ==> forall|p: Rgb| call_requires(colorimetry, (p,)),
            forall|x1: int, y1: int|
                0 <= x1 < gw && 0 <= y1 < y ==> #[trigger] rendered(
                    buf@,
                    *space,
                    *src,
                    colorimetry,
                    x1,
                    y1,
                ),
        decreases h - y,
    {
        let mut x: u32 = 0;
        while x < w
            invariant
                x <= w,
                y < h,
                gw == w == src.spec_width(),
                gh == h == src.spec_height(),
                gn == n == kind_channels(space.spec_kind()),
                gn == 3 || gn == 4,
                dw == (gn + 1) * gw,
                buf@.len() == 3 * ((gn + 1) * gw * gh),
                3 * ((gn + 1) * gw * gh) <= u32::MAX,
                forall|r: u8, g: u8, b: u8|
                    exact == (#[trigger] swatches(space.spec_kind(), r, g, b) is Some),
                !exact ==> forall|p: Rgb| call_requires(colorimetry, (p,)),
                forall|x1: int, y1: int|
                    0 <= x1 < gw && (0 <= y1 < y || (y1 == y && x1 < x)) ==> #[trigger] rendered(
                        buf@,
                        *space,
                        *src,
                        colorimetry,
                        x1,
                        y1,
                    ),
            decreases w - x,
        {
            let p: Rgb = src.get_pixel(x, y);
            let mut ch = Channels::new();
            if !space.fill_channels(&mut ch, p) {
                ch = colorimetry(p);
            }
            let mut block: usize = 0;
            while block <= n
                invariant
                    block <= n + 1,
                    x < w,
                    y < h,
                    gw == w == src.spec_width(),
                    gh == h == src.spec_height(),
                    gn == n == kind_channels(space.spec_kind()),
                    gn == 3 || gn == 4,
                    dw == (gn + 1) * gw,
                    buf@.len() == 3 * ((gn + 1) * gw * gh),
                    3 * ((gn + 1) * gw * gh) <= u32::MAX,
                    forall|x1: int, y1: int|
                        0 <= x1 < gw && (0 <= y1 < y || (y1 == y && x1 < x))
                            ==> #[trigger] rendered(buf@, *space, *src, colorimetry, x1, y1),
                    forall|b: int|
                        0 <= b < block ==> #[trigger] block_pixel(
                            buf@,
                            gw,
                            gn,
                            b,
                            x as int,
                            y as int,
                        ) == block_value(p@, ch@, b),
                decreases n + 1 - block,
            {
                proof {
                    lemma_slot_bounds(gw, gh, gn, block as int, x as int, y as int);
                }
                let at: usize = (y as usize) * dw + block * (w as usize) + (x as usize);
                let value: Rgb = if block == 0 {
                    p
                } else {
                    ch.get(block - 1)
                };
                let ghost before = buf@;
                put_pixel(&mut buf, at, value);
                proof {
                    assert(at == slot_index(gw, gn, block as int, x as int, y as int));
                    assert forall|b: int| 0 <= b < block + 1 implies #[trigger] block_pixel(
                        buf@,
                        gw,
                        gn,
                        b,
                        x as int,
                        y as int,
                    ) == block_value(p@, ch@, b) by {
                        if b < block {
                            lemma_slot_bounds(gw, gh, gn, b, x as int, y as int);
                            if slot_index(gw, gn, b, x as int, y as int) == at {
                                lemma_slot_distinct(
                                    gw,
                                    gn,
                                    b,
                                    x as int,
                                    y as int,
                                    block as int,
                                    x as int,
                                    y as int,
                                );
                            }
                            assert(block_pixel(buf@, gw, gn, b, x as int, y as int)
                                == block_pixel(before, gw, gn, b, x as int, y as int));
                        }
                    }
                    assert forall|x1: int, y1: int|
                        0 <= x1 < gw && (0 <= y1 < y || (y1 == y && x1 < x))
                        implies #[trigger] rendered(buf@, *space, *src, colorimetry, x1, y1) by {
                        assert forall|b: int| 0 <= b <= gn implies #[trigger] block_pixel(
                            buf@,
                            gw,
                            gn,
                            b,
                            x1,
                            y1,
                        ) == block_pixel(before, gw, gn, b, x1, y1) by {
                            lemma_slot_bounds(gw, gh, gn, b, x1, y1);
                            if slot_index(gw, gn, b, x1, y1) == at {
                                lemma_slot_distinct(
                                    gw,
                                    gn,
                                    b,
                                    x1,
                                    y1,
                                    block as int,
                                    x as int,
                                    y as int,
                                );
                            }
                        }
                        lemma_rendered_frame(before, buf@, *space, *src, colorimetry, x1, y1);
                    }
                }
                block += 1;
            }
            proof {
                let s = swatches(space.spec_kind(), p[0], p[1], p[2]);
                assert(p@ == src.pixel(x as int, y as int));
                assert(block_pixel(buf@, gw, gn, 0, x as int, y as int) == block_value(
                    p@,
                    ch@,
                    0,
                ));
                assert forall|c: int| 0 <= c < gn implies #[trigger] block_pixel(
                    buf@,
                    gw,
                    gn,
                    c + 1,
                    x as int,
                    y as int,
                ) == ch@[c] by {
                    ch.lemma_shape();
                    assert(block_pixel(buf@, gw, gn, c + 1, x as int, y as int) == block_value(
                        p@,
                        ch@,
                        c + 1,
                    ));
                }
                if exact {
                    assert(forall|c: int| 0 <= c < gn ==> ch@[c] == s->0[c]);
                } else {
                    assert(call_ensures(colorimetry, (p,), ch));
                }
                assert(rendered(buf@, *space, *src, colorimetry, x as int, y as int));
            }
            x += 1;
        }
        y += 1;
    }
    proof {
        assert forall|x: int, y: int| 0 <= x < gw && 0 <= y < gh implies #[trigger] pixel_at(
            buf@,
            dst_width as int,
            x,
            y,
        ) == src.pixel(x, y) by {
            assert(rendered(buf@, *space, *src, colorimetry, x, y));
            assert(0 * gw == 0);
            assert(slot_index(gw, gn, 0, x, y) == y * (dst_width as int) + x);
        }
    }
    Some((dst_width, h, buf))
}

} // verus!
