//! The rasterizer: block averages of a grayscale image, drawn as rows of
//! density characters.

use crate::density::density_char;
use crate::density::shade;
use crate::luma::buffer_sample;
use crate::luma::luma_at;
use crate::luma::luma_dimensions;
use crate::luma::luma_height;
use crate::luma::luma_width;
use crate::luma::GrayImage;
use vstd::prelude::*;

verus! {

/// Why a rendering was refused.
#[derive(Clone, Copy, Debug, PartialEq, Eq, Structural)]
pub enum RasterError {
    /// The block width or the block height is zero.
    InvalidParameter,
}

/// The area to render and the size of the blocks it is cut into.
#[derive(Clone, Copy, Debug)]
pub struct ImageDetails {
    /// Width of the area, in pixels.
    pub w: u32,
    /// Height of the area, in pixels.
    pub h: u32,
    /// Width of a block, in pixels.
    pub split_w: u32,
    /// Height of a block, in pixels.
    pub split_h: u32,
}

impl ImageDetails {
    /// The blocks are not empty and the area lies inside `img`.
    pub open spec fn fits(&self, img: &GrayImage) -> bool {
        &&& self.split_w > 0
        &&& self.split_h > 0
        &&& self.w <= luma_width(img)
        &&& self.h <= luma_height(img)
    }

    /// The number of block rows: the whole blocks that fit in the height.
    /// Pixels below the last whole block are dropped.
    pub open spec fn rows(&self) -> int {
        self.h as int / self.split_h as int
    }

    /// The number of block columns: the whole blocks that fit in the width.
    /// Pixels to the right of the last whole block are dropped.
    pub open spec fn cols(&self) -> int {
        self.w as int / self.split_w as int
    }
}

/// The details for rendering all of `img` with blocks of `split_w` by
/// `split_h` pixels.
pub open spec fn details_of(img: &GrayImage, split_w: u32, split_h: u32) -> ImageDetails {
    ImageDetails { w: luma_dimensions(img).0, h: luma_dimensions(img).1, split_w, split_h }
}

/// The sum of the `n` samples of column `x` that start at row `y0`.
pub open spec fn column_sum(img: &GrayImage, x: int, y0: int, n: nat) -> int
    decreases n,
{
    if n == 0 {
        0
    } else {
        column_sum(img, x, y0, (n - 1) as nat) + luma_at(img, x, y0 + n - 1)
    }
}

/// The sum of the samples of the block that is `w` pixels wide and `h` pixels
/// high and has its top left corner at `(x0, y0)`.
pub open spec fn block_sum(img: &GrayImage, x0: int, y0: int, w: nat, h: nat) -> int
    decreases w,
{
    if w == 0 {
        0
    } else {
        block_sum(img, x0, y0, (w - 1) as nat, h) + column_sum(img, x0 + w - 1, y0, h)
    }
}

/// The mean intensity, rounded down, of the block in block row `row` and block
/// column `col`.
pub open spec fn block_mean(img: &GrayImage, d: ImageDetails, row: int, col: int) -> int {
    block_sum(img, col * d.split_w, row * d.split_h, d.split_w as nat, d.split_h as nat) / (
    d.split_w * d.split_h)
}

/// The character drawn for the block in block row `row` and block column
/// `col`.
pub open spec fn cell_char(img: &GrayImage, d: ImageDetails, dark: bool, row: int, col: int) -> char {
    density_char(block_mean(img, d, row, col), dark)
}

/// The characters of the first `n` blocks of block row `row`.
pub open spec fn row_cells(img: &GrayImage, d: ImageDetails, dark: bool, row: int, n: nat) -> Seq<
    char,
> {
    Seq::new(n, |col: int| cell_char(img, d, dark, row, col))
}

/// One line of the rendering: a character for each block of block row `row`,
/// then a newline.
pub open spec fn row_text(img: &GrayImage, d: ImageDetails, dark: bool, row: int) -> Seq<char> {
    row_cells(img, d, dark, row, d.cols() as nat).push('\n')
}

/// The first `n` lines of the rendering, one after the other.
pub open spec fn text_upto(img: &GrayImage, d: ImageDetails, dark: bool, n: nat) -> Seq<char>
    decreases n,
{
    if n == 0 {
        Seq::empty()
    } else {
        text_upto(img, d, dark, (n - 1) as nat) + row_text(img, d, dark, n - 1)
    }
}

/// The whole rendering: the lines of all block rows, from the top.
pub open spec fn raster_text(img: &GrayImage, d: ImageDetails, dark: bool) -> Seq<char> {
    text_upto(img, d, dark, d.rows() as nat)
}

/// A column of `n` samples sums to at most `255 * n`.
pub proof fn lemma_column_sum_bound(img: &GrayImage, x: int, y0: int, n: nat)
    ensures
        0 <= column_sum(img, x, y0, n) <= 255 * n,
    decreases n,
{
    if n > 0 {
        lemma_column_sum_bound(img, x, y0, (n - 1) as nat);
    }
}

/// A block of `w * h` samples sums to at most `255 * (w * h)`.
pub proof fn lemma_block_sum_bound(img: &GrayImage, x0: int, y0: int, w: nat, h: nat)
    ensures
        0 <= block_sum(img, x0, y0, w, h) <= 255 * (w * h),
    decreases w,
{
    if w > 0 {
        lemma_block_sum_bound(img, x0, y0, (w - 1) as nat, h);
        lemma_column_sum_bound(img, x0 + w - 1, y0, h);
        assert(255 * ((w - 1) * h) + 255 * h == 255 * (w * h)) by (nonlinear_arith);
    } else {
        assert(w * h == 0) by (nonlinear_arith)
            requires
                w == 0,
        ;
    }
}

/// The mean of a block is an 8-bit intensity.
pub proof fn lemma_block_mean_range(img: &GrayImage, d: ImageDetails, row: int, col: int)
    requires
        d.split_w > 0,
        d.split_h > 0,
    ensures
        0 <= block_mean(img, d, row, col) <= 255,
{
    let sum = block_sum(img, col * d.split_w, row * d.split_h, d.split_w as nat, d.split_h as nat);
    let count = d.split_w * d.split_h;
    lemma_block_sum_bound(img, col * d.split_w, row * d.split_h, d.split_w as nat, d.split_h as nat);
    assert(0 <= sum / count <= 255) by (nonlinear_arith)
        requires
            0 <= sum <= 255 * count,
            count == d.split_w * d.split_h,
            d.split_w > 0,
            d.split_h > 0,
    ;
}

/// A whole block lies inside the length it was counted in: block `index` of
/// the `len / step` blocks ends at or before `len`.
pub proof fn lemma_block_inside(len: int, step: int, index: int)
    requires
        0 < step,
        0 <= index < len / step,
    ensures
        0 <= index * step,
        index * step + step <= len,
{
    assert(0 <= index * step && index * step + step <= len) by (nonlinear_arith)
        requires
            0 < step,
            0 <= index < len / step,
    ;
}

/// Adds up the `n` samples of column `x` that start at row `y0`.
fn column_total(img: &GrayImage, x: u32, y0: u32, n: u32) -> (total: u64)
    requires
        x < luma_width(img),
        y0 + n <= luma_height(img),
    ensures
        total == column_sum(img, x as int, y0 as int, n as nat),
{
    let mut total: u64 = 0;
    let mut b: u32 = 0;
    while b < n
        invariant
            b <= n,
            x < luma_width(img),
            y0 + n <= luma_height(img),
            total == column_sum(img, x as int, y0 as int, b as nat),
            total <= 255 * b,
        decreases n - b,
    {
        let v: u8 = buffer_sample(img, x, y0 + b);
        total = total + v as u64;
        b = b + 1;
    }
    total
}

/// Computes the mean intensity, rounded down, of one block.
pub fn mean_of_block(img: &GrayImage, details: &ImageDetails, row: u32, col: u32) -> (mean: u8)
    requires
        details.fits(img),
        row < details.rows(),
        col < details.cols(),
    ensures
        mean == block_mean(img, *details, row as int, col as int),
{
    proof {
        lemma_block_inside(details.w as int, details.split_w as int, col as int);
        lemma_block_inside(details.h as int, details.split_h as int, row as int);
    }
    let x0: u32 = col * details.split_w;
    let y0: u32 = row * details.split_h;
    let mut total: u128 = 0;
    let mut a: u32 = 0;
    while a < details.split_w
        invariant
            a <= details.split_w,
            details.fits(img),
            x0 + details.split_w <= details.w,
            y0 + details.split_h <= details.h,
            total == block_sum(img, x0 as int, y0 as int, a as nat, details.split_h as nat),
            total <= 255 * (a * details.split_h),
        decreases details.split_w - a,
    {
        let column: u64 = column_total(img, x0 + a, y0, details.split_h);
        proof {
            lemma_block_sum_bound(
                img,
                x0 as int,
                y0 as int,
                (a + 1) as nat,
                details.split_h as nat,
            );
            assert((a + 1) * details.split_h <= 0x1_0000_0000 * 0x1_0000_0000)
                by (nonlinear_arith)
                requires
                    0 <= a + 1 <= 0x1_0000_0000,
                    0 <= details.split_h <= 0x1_0000_0000,
            ;
        }
        total = total + column as u128;
        a = a + 1;
    }
    proof {
        lemma_block_mean_range(img, *details, row as int, col as int);
        assert(0 < details.split_w * details.split_h <= 0x1_0000_0000 * 0x1_0000_0000)
            by (nonlinear_arith)
            requires
                0 < details.split_w <= 0x1_0000_0000,
                0 < details.split_h <= 0x1_0000_0000,
        ;
    }
    let count: u128 = details.split_w as u128 * details.split_h as u128;
    (total / count) as u8
}

/// Gathers the dimensions of `img` and the block size into the details of a
/// rendering of the whole image.
pub fn prepare_image_details(img: &GrayImage, split_w: u32, split_h: u32) -> (details: ImageDetails)
    ensures
        details == details_of(img, split_w, split_h),
{
    let (w, h) = img.dimensions();
    ImageDetails { w, h, split_w, split_h }
}

/// Renders the area that `details` describes: for each block row, from the
/// top, one character for each block, from the left, and a newline.
pub fn pixel_each(img: &GrayImage, details: &ImageDetails, dark: bool) -> (output_string: String)
    requires
        details.fits(img),
    ensures
        output_string@ == raster_text(img, *details, dark),
{
    let rows: u32 = details.h / details.split_h;
    let cols: u32 = details.w / details.split_w;
    let mut output_string = String::new();
    let mut q: u32 = 0;
    while q < rows
        invariant
            q <= rows,
            rows == details.rows(),
            cols == details.cols(),
            details.fits(img),
            output_string@ == text_upto(img, *details, dark, q as nat),
        decreases rows - q,
    {
        let ghost done = output_string@;
        let mut i: u32 = 0;
        while i < cols
            invariant
                i <= cols,
                q < rows,
                rows == details.rows(),
                cols == details.cols(),
                details.fits(img),
                output_string@ == done + row_cells(img, *details, dark, q as int, i as nat),
            decreases cols - i,
        {
            let mean: u8 = mean_of_block(img, details, q, i);
            output_string.push(shade(mean, dark));
            assert(output_string@ == done + row_cells(img, *details, dark, q as int, (i + 1) as nat))
                by {
                assert(output_string@ =~= done + row_cells(
                    img,
                    *details,
                    dark,
                    q as int,
                    (i + 1) as nat,
                ));
            }
            i = i + 1;
        }
        output_string.push('\n');
        assert(output_string@ == text_upto(img, *details, dark, (q + 1) as nat)) by {
            assert(output_string@ =~= done + row_text(img, *details, dark, q as int));
        }
        q = q + 1;
    }
    output_string
}

/// What [`rasterize`] returns: the error for an empty block, and otherwise
/// the rendering of the whole image.
pub open spec fn rasterized(
    img: &GrayImage,
    bw: u32,
    bh: u32,
    dark: bool,
    res: Result<String, RasterError>,
) -> bool {
    match res {
        Ok(text) => bw > 0 && bh > 0 && text@ == raster_text(img, details_of(img, bw, bh), dark),
        Err(e) => (bw == 0 || bh == 0) && e == RasterError::InvalidParameter,
    }
}

/// Renders `img` as text, one character for each whole block of `bw` by `bh`
/// pixels. A bright block gets a heavy mark when `dark` is set and a light one
/// otherwise. An empty block is refused before anything is computed; an image
/// smaller than one block gives a rendering without characters.
pub fn rasterize(img: &GrayImage, bw: u32, bh: u32, dark: bool) -> (res: Result<
    String,
    RasterError,
>)
    ensures
        rasterized(img, bw, bh, dark, res),
        res is Err <==> bw == 0 || bh == 0,
{
    if bw == 0 || bh == 0 {
        return Err(RasterError::InvalidParameter);
    }
    let details = prepare_image_details(img, bw, bh);
    Ok(pixel_each(img, &details, dark))
}

} // verus!
