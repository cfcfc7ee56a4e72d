//! Row-major RGB pixel buffers: three bytes per pixel, no padding.
use vstd::prelude::*;
use crate::pixel::Rgb;

verus! {

/// The three bytes of the pixel at place `i` of a buffer.
pub open spec fn cell(bytes: Seq<u8>, i: int) -> Seq<u8> {
    bytes.subrange(3 * i, 3 * i + 3)
}

/// The pixel in column `x` of row `y` of a buffer whose rows hold `width`
/// pixels.
pub open spec fn pixel_at(bytes: Seq<u8>, width: int, x: int, y: int) -> Seq<u8> {
    cell(bytes, y * width + x)
}

/// A source image: `width * height` pixels, row by row.
#[derive(Debug)]
pub struct Raster {
    width: u32,
    height: u32,
    data: Vec<u8>,
}

impl Raster {
    /// The buffer holds exactly the image's pixels.
    #[verifier::type_invariant]
    closed spec fn valid(&self) -> bool {
        self.data@.len() == 3 * self.width * self.height
    }

    /// The number of pixels in a row.
    pub closed spec fn spec_width(&self) -> int {
        self.width as int
    }

    /// The number of rows.
    pub closed spec fn spec_height(&self) -> int {
        self.height as int
    }

    /// The bytes of the image, row by row.
    pub closed spec fn bytes(&self) -> Seq<u8> {
        self.data@
    }

    /// The pixel in column `x` of row `y`.
    pub open spec fn pixel(&self, x: int, y: int) -> Seq<u8> {
        pixel_at(self.bytes(), self.spec_width(), x, y)
    }

    /// The image of the given size over the given bytes, where there are
    /// three bytes for each pixel and no more.
    pub fn new(width: u32, height: u32, data: Vec<u8>) -> (out: Option<Raster>)
        ensures
            out is Some <==> data@.len() == 3 * width * height,
            out matches Some(img) ==> img.spec_width() == width && img.spec_height() == height
                && img.bytes() == data@,
    {
        proof {
            assert(width * height <= 0xffff_ffff * 0xffff_ffff) by (nonlinear_arith)
                requires
                    0 <= width <= 0xffff_ffff,
                    0 <= height <= 0xffff_ffff,
            ;
            assert(3 * width * height == 3 * (width * height)) by (nonlinear_arith);
        }
        let area: u64 = (width as u64) * (height as u64);
        if data.len() as u128 == 3 * (area as u128) {
            Some(Raster { width, height, data })
        } else {
            None
        }
    }

    /// The number of pixels in a row.
    pub fn width(&self) -> (w: u32)
        ensures
            w == self.spec_width(),
    {
        self.width
    }

    /// The number of rows.
    pub fn height(&self) -> (h: u32)
        ensures
            h == self.spec_height(),
    {
        self.height
    }

    /// The bytes of the image, row by row.
    pub fn as_raw(&self) -> (data: &Vec<u8>)
        ensures
            data@ == self.bytes(),
            data@.len() == 3 * self.spec_width() * self.spec_height(),
    {
        proof {
            use_type_invariant(self);
        }
        &self.data
    }

    /// The pixel in column `x` of row `y`.
    pub fn get_pixel(&self, x: u32, y: u32) -> (p: Rgb)
        requires
            x < self.spec_width(),
            y < self.spec_height(),
        ensures
            p@ == self.pixel(x as int, y as int),
    {
        proof {
            use_type_invariant(self);
            lemma_cell_in_bounds(
                self.width as int,
                self.height as int,
                x as int,
                y as int,
            );
        }
        assert(self.data@.len() == self.data.len());
        let at: usize = 3 * ((y as usize) * (self.width as usize) + (x as usize));
        let p: Rgb = [self.data[at], self.data[at + 1], self.data[at + 2]];
        assert(p@ =~= self.pixel(x as int, y as int));
        p
    }
}

/// The pixel in column `x` of row `y` lies inside a buffer of `height` rows
/// of `width` pixels.
pub proof fn lemma_cell_in_bounds(width: int, height: int, x: int, y: int)
    requires
        0 <= x < width,
        0 <= y < height,
    ensures
        0 <= y * width,
        0 <= y * width + x < width * height,
        3 * (y * width + x) + 3 <= 3 * width * height,
{
    assert(0 <= y * width && y * width + width <= width * height) by (nonlinear_arith)
        requires
            0 <= y < height,
            0 < width,
    ;
    assert(3 * width * height == 3 * (width * height)) by (nonlinear_arith);
}

/// Writes one pixel into a buffer and leaves every other pixel as it was.
pub fn put_pixel(buf: &mut Vec<u8>, at: usize, p: Rgb)
    requires
        3 * at + 3 <= old(buf)@.len(),
    ensures
        final(buf)@.len() == old(buf)@.len(),
        cell(final(buf)@, at as int) == p@,
        forall|i: int|
            0 <= i && 3 * i + 3 <= old(buf)@.len() && i != at ==> cell(final(buf)@, i) == cell(
                old(buf)@,
                i,
            ),
{
    assert(buf@.len() == buf.len());
    let base: usize = 3 * at;
    buf[base] = p[0];
    buf[base + 1] = p[1];
    buf[base + 2] = p[2];
    proof {
        assert(cell(buf@, at as int) =~= p@);
        assert forall|i: int| 0 <= i && 3 * i + 3 <= old(buf)@.len() && i != at implies cell(
            buf@,
            i,
        ) == cell(old(buf)@, i) by {
            assert(cell(buf@, i) =~= cell(old(buf)@, i));
        }
    }
}

} // verus!
