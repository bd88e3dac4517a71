//! The finished picture as pixels, and the test that decides whether it is kept.

use vstd::prelude::*;

verus! {

/// Alpha of a pixel that lets nothing show through.
pub const OPAQUE: u8 = 255;

/// A picture of `width` by `height` pixels, four bytes a pixel (red, green, blue,
/// alpha), row after row from the top.
#[derive(Debug, PartialEq, Eq)]
pub struct Canvas {
    width: u32,
    height: u32,
    pixels: Vec<u8>,
}

impl Canvas {
    /// The picture has at least one pixel, and four bytes for each.
    pub closed spec fn well_formed(&self) -> bool {
        &&& self.width > 0
        &&& self.height > 0
        &&& self.pixels@.len() == 4 * self.width * self.height
    }

    /// Pixels in a row.
    pub closed spec fn spec_width(&self) -> int {
        self.width as int
    }

    /// Rows.
    pub closed spec fn spec_height(&self) -> int {
        self.height as int
    }

    /// The bytes of all pixels.
    pub closed spec fn rgba(&self) -> Seq<u8> {
        self.pixels@
    }

    /// Alpha of the pixel in column `x` of row `y`.
    pub open spec fn alpha_at(&self, x: int, y: int) -> u8 {
        self.rgba()[4 * (y * self.spec_width() + x) + 3]
    }

    /// Whether the top-left and the bottom-right pixel are both opaque.
    pub open spec fn corners_opaque(&self) -> bool {
        &&& self.alpha_at(0, 0) == OPAQUE
        &&& self.alpha_at(self.spec_width() - 1, self.spec_height() - 1) == OPAQUE
    }

    /// Takes the bytes of a picture, if it has a pixel and the bytes are four for each.
    pub fn from_rgba(width: u32, height: u32, pixels: Vec<u8>) -> (made: Option<Canvas>)
        ensures
            made is Some <==> width > 0 && height > 0 && pixels@.len() == 4 * width * height,
            made matches Some(canvas) ==> {
                &&& canvas.well_formed()
                &&& canvas.spec_width() == width
                &&& canvas.spec_height() == height
                &&& canvas.rgba() == pixels@
            },
    {
        if width == 0 || height == 0 {
            return None;
        }
        assert(4 * width * height <= u128::MAX) by (nonlinear_arith)
            requires
                width <= u32::MAX,
                height <= u32::MAX,
        ;
        assert(4 * width <= u128::MAX);
        let expected: u128 = 4 * (width as u128) * (height as u128);
        if pixels.len() as u128 != expected {
            return None;
        }
        Some(Canvas { width, height, pixels })
    }

    /// Pixels in a row.
    pub fn width(&self) -> (width: u32)
        ensures
            width == self.spec_width(),
    {
        self.width
    }

    /// Rows.
    pub fn height(&self) -> (height: u32)
        ensures
            height == self.spec_height(),
    {
        self.height
    }

    /// Alpha of the pixel in column `x` of row `y`.
    pub fn alpha(&self, x: u32, y: u32) -> (alpha: u8)
        requires
            self.well_formed(),
            x < self.spec_width(),
            y < self.spec_height(),
        ensures
            alpha == self.alpha_at(x as int, y as int),
    {
        let length: usize = self.pixels.len();
        assert(4 * (y * self.width + x) + 3 < 4 * self.width * self.height) by (nonlinear_arith)
            requires
                0 <= x < self.width,
                0 <= y < self.height,
        ;
        assert(0 <= y * self.width <= 4 * (y * self.width + x) + 3) by (nonlinear_arith)
            requires
                0 <= x,
                0 <= y,
                0 <= self.width,
        ;
        let row_start: usize = y as usize * self.width as usize;
        let pixel: usize = row_start + x as usize;
        self.pixels[4 * pixel + 3]
    }
}

/// Whether a finished picture is kept: only if its top-left and its bottom-right
/// pixel are both opaque. No other pixel is looked at.
pub fn should_be_saved(img: &Canvas) -> (saved: bool)
    requires
        img.well_formed(),
    ensures
        saved == img.corners_opaque(),
{
    let width: u32 = img.width();
    let height: u32 = img.height();
    img.alpha(0, 0) == OPAQUE && img.alpha(width - 1, height - 1) == OPAQUE
}

/// Two pictures of one size whose two tested corners have the same alpha are
/// judged alike, whatever their other pixels hold.
pub proof fn lemma_only_corners_matter(first: Canvas, second: Canvas)
    requires
        first.well_formed(),
        second.well_formed(),
        first.spec_width() == second.spec_width(),
        first.spec_height() == second.spec_height(),
        first.alpha_at(0, 0) == second.alpha_at(0, 0),
        first.alpha_at(first.spec_width() - 1, first.spec_height() - 1) == second.alpha_at(
            second.spec_width() - 1,
            second.spec_height() - 1,
        ),
    ensures
        first.corners_opaque() == second.corners_opaque(),
{
}

} // verus!
