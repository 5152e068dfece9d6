//! General facts about the rendering, proved from the definitions in
//! [`crate::raster`] and [`crate::density`].

use crate::density::density_index;
use crate::density::is_scale_char;
use crate::density::lemma_density_index_range;
use crate::density::scale_char;
use crate::density::scale_position;
use crate::luma::luma_height;
use crate::luma::luma_width;
use crate::luma::GrayImage;
use crate::raster::block_mean;
use crate::raster::cell_char;
use crate::raster::details_of;
use crate::raster::lemma_block_mean_range;
use crate::raster::raster_text;
use crate::raster::rasterized;
use crate::raster::row_text;
use crate::raster::text_upto;
use crate::raster::ImageDetails;
use crate::raster::RasterError;
use vstd::prelude::*;

verus! {

/// The position of block column `col` of block row `row` in a rendering with
/// `cols` block columns: each line before it takes `cols` characters and a
/// newline.
pub open spec fn cell_offset(cols: int, row: int, col: int) -> int {
    row * (cols + 1) + col
}

/// The first `n` lines take `n * (cols + 1)` characters.
proof fn lemma_text_upto_len(img: &GrayImage, d: ImageDetails, dark: bool, n: nat)
    requires
        d.split_w > 0,
    ensures
        text_upto(img, d, dark, n).len() == n * (d.cols() + 1),
    decreases n,
{
    let line = d.cols() + 1;
    if n > 0 {
        lemma_text_upto_len(img, d, dark, (n - 1) as nat);
        assert((n - 1) * line + line == n * line) by (nonlinear_arith);
    } else {
        assert(0 * line == 0) by (nonlinear_arith);
    }
}

/// Line `row` of the first `n` lines is the text of block row `row`.
proof fn lemma_text_upto_line(img: &GrayImage, d: ImageDetails, dark: bool, n: nat, row: int)
    requires
        d.split_w > 0,
        0 <= row < n,
    ensures
        cell_offset(d.cols(), row + 1, 0) <= text_upto(img, d, dark, n).len(),
        text_upto(img, d, dark, n).subrange(
            cell_offset(d.cols(), row, 0),
            cell_offset(d.cols(), row + 1, 0),
        ) == row_text(img, d, dark, row),
    decreases n,
{
    let line = d.cols() + 1;
    let before = text_upto(img, d, dark, (n - 1) as nat);
    let whole = text_upto(img, d, dark, n);
    let from = cell_offset(d.cols(), row, 0);
    let to = cell_offset(d.cols(), row + 1, 0);
    lemma_text_upto_len(img, d, dark, (n - 1) as nat);
    assert(0 <= from && to == from + line && to <= (n - 1) * line + line && (row < n - 1 ==> to
        <= (n - 1) * line)) by (nonlinear_arith)
        requires
            0 <= row < n,
            line >= 1,
            from == row * line + 0,
            to == (row + 1) * line + 0,
    ;
    assert(whole == before + row_text(img, d, dark, n - 1));
    if row == n - 1 {
        assert(from == (n - 1) * line) by (nonlinear_arith)
            requires
                row == n - 1,
                from == row * line + 0,
        ;
        assert(whole.subrange(from, to) =~= row_text(img, d, dark, row));
    } else {
        lemma_text_upto_line(img, d, dark, (n - 1) as nat, row);
        assert(whole.subrange(from, to) =~= before.subrange(from, to));
    }
}

/// The character at a block's position is the block's character, and the
/// character after the last block of a line is a newline.
proof fn lemma_text_cells(img: &GrayImage, d: ImageDetails, dark: bool, row: int, col: int)
    requires
        d.split_w > 0,
        0 <= row < d.rows(),
        0 <= col <= d.cols(),
    ensures
        0 <= cell_offset(d.cols(), row, col) < raster_text(img, d, dark).len(),
        col < d.cols() ==> raster_text(img, d, dark)[cell_offset(d.cols(), row, col)] == cell_char(
            img,
            d,
            dark,
            row,
            col,
        ),
        col == d.cols() ==> raster_text(img, d, dark)[cell_offset(d.cols(), row, col)] == '\n',
{
    let text = raster_text(img, d, dark);
    let from = cell_offset(d.cols(), row, 0);
    let to = cell_offset(d.cols(), row + 1, 0);
    lemma_text_upto_line(img, d, dark, d.rows() as nat, row);
    assert(0 <= from && to == from + d.cols() + 1) by (nonlinear_arith)
        requires
            0 <= row,
            d.cols() >= 0,
            from == row * (d.cols() + 1) + 0,
            to == (row + 1) * (d.cols() + 1) + 0,
    ;
    assert(text.subrange(from, to)[col] == text[from + col]);
}

/// No two positions of the density scale hold the same character, and none
/// holds a newline.
pub proof fn law_scale_distinct(i: int, j: int)
    requires
        0 <= i <= 9,
        0 <= j <= 9,
    ensures
        scale_char(i) == scale_char(j) ==> i == j,
        scale_char(i) != '\n',
{
}

/// A rendering that succeeded is determined by the image, the block size and
/// the background: any two outcomes of rendering the same input agree, in the
/// error or in every character of the text.
pub proof fn law_deterministic(
    img: &GrayImage,
    bw: u32,
    bh: u32,
    dark: bool,
    first: Result<String, RasterError>,
    second: Result<String, RasterError>,
)
    requires
        rasterized(img, bw, bh, dark, first),
        rasterized(img, bw, bh, dark, second),
    ensures
        match (first, second) {
            (Ok(a), Ok(b)) => a@ == b@,
            (Err(a), Err(b)) => a == b,
            _ => false,
        },
{
}

/// The rendering has one line for each whole block that fits in the height,
/// and each line has one character for each whole block that fits in the
/// width, followed by a newline: its length is `rows * (cols + 1)`.
pub proof fn law_dimensions(img: &GrayImage, bw: u32, bh: u32, dark: bool)
    requires
        bw > 0,
        bh > 0,
    ensures
        details_of(img, bw, bh).rows() == luma_height(img) / (bh as int),
        details_of(img, bw, bh).cols() == luma_width(img) / (bw as int),
        raster_text(img, details_of(img, bw, bh), dark).len() == (luma_height(img) / (bh as int))
            * (luma_width(img) / (bw as int) + 1),
{
    let d = details_of(img, bw, bh);
    lemma_text_upto_len(img, d, dark, d.rows() as nat);
}

/// Line `row` of the rendering starts right after the lines before it and is
/// the text of block row `row`: exactly `cols` characters, none of them a
/// newline, and then a newline.
pub proof fn law_line(img: &GrayImage, bw: u32, bh: u32, dark: bool, row: int)
    requires
        bw > 0,
        bh > 0,
        0 <= row < luma_height(img) / (bh as int),
    ensures
        ({
            let d = details_of(img, bw, bh);
            let text = raster_text(img, d, dark);
            let start = cell_offset(d.cols(), row, 0);
            &&& 0 <= start
            &&& start + d.cols() < text.len()
            &&& text.subrange(start, start + d.cols() + 1) == row_text(img, d, dark, row)
            &&& text[start + d.cols()] == '\n'
            &&& forall|col: int|
                0 <= col < d.cols() ==> #[trigger] text[start + col] == cell_char(
                    img,
                    d,
                    dark,
                    row,
                    col,
                ) && text[start + col] != '\n'
        }),
{
    let d = details_of(img, bw, bh);
    let text = raster_text(img, d, dark);
    let start = cell_offset(d.cols(), row, 0);
    lemma_text_upto_line(img, d, dark, d.rows() as nat, row);
    lemma_text_cells(img, d, dark, row, d.cols());
    assert(cell_offset(d.cols(), row + 1, 0) == start + d.cols() + 1) by (nonlinear_arith)
        requires
            start == row * (d.cols() + 1) + 0,
            cell_offset(d.cols(), row + 1, 0) == (row + 1) * (d.cols() + 1) + 0,
    ;
    assert forall|col: int| 0 <= col < d.cols() implies #[trigger] text[start + col] == cell_char(
        img,
        d,
        dark,
        row,
        col,
    ) && text[start + col] != '\n' by {
        lemma_text_cells(img, d, dark, row, col);
        lemma_block_mean_range(img, d, row, col);
        lemma_density_index_range(block_mean(img, d, row, col));
        law_scale_distinct(scale_position(block_mean(img, d, row, col), dark), 0);
    }
}

/// Every character of the rendering is a newline, at the end of a line, or
/// one of the ten characters of the density scale, anywhere else.
pub proof fn law_range(img: &GrayImage, bw: u32, bh: u32, dark: bool, k: int)
    requires
        bw > 0,
        bh > 0,
        0 <= k < raster_text(img, details_of(img, bw, bh), dark).len(),
    ensures
        ({
            let d = details_of(img, bw, bh);
            let c = raster_text(img, d, dark)[k];
            if k % (d.cols() + 1) == d.cols() {
                c == '\n'
            } else {
                is_scale_char(c)
            }
        }),
{
    let d = details_of(img, bw, bh);
    let line = d.cols() + 1;
    let row = k / line;
    let col = k % line;
    lemma_text_upto_len(img, d, dark, d.rows() as nat);
    assert(0 <= row < d.rows() && 0 <= col < line && k == row * line + col) by (nonlinear_arith)
        requires
            0 <= k < d.rows() * line,
            line >= 1,
            row == k / line,
            col == k % line,
    ;
    lemma_text_cells(img, d, dark, row, col);
    if col < d.cols() {
        lemma_block_mean_range(img, d, row, col);
        lemma_density_index_range(block_mean(img, d, row, col));
        assert(is_scale_char(scale_char(scale_position(block_mean(img, d, row, col), dark))));
    }
}

/// For every average intensity, the scale position on a dark background and
/// the one on a light background add up to 9.
pub proof fn law_positions_mirror(mean: int)
    requires
        0 <= mean <= 255,
    ensures
        0 <= scale_position(mean, true) <= 9,
        0 <= scale_position(mean, false) <= 9,
        scale_position(mean, true) + scale_position(mean, false) == 9,
        scale_position(mean, true) == density_index(mean),
{
}

/// At every block the rendering for a dark background and the one for a light
/// background show characters whose scale positions add up to 9.
pub proof fn law_polarity(img: &GrayImage, bw: u32, bh: u32, row: int, col: int)
    requires
        bw > 0,
        bh > 0,
        0 <= row < luma_height(img) / (bh as int),
        0 <= col < luma_width(img) / (bw as int),
    ensures
        ({
            let d = details_of(img, bw, bh);
            let at = cell_offset(d.cols(), row, col);
            let on_dark = scale_position(block_mean(img, d, row, col), true);
            let on_light = scale_position(block_mean(img, d, row, col), false);
            &&& 0 <= at < raster_text(img, d, true).len()
            &&& raster_text(img, d, true).len() == raster_text(img, d, false).len()
            &&& raster_text(img, d, true)[at] == scale_char(on_dark)
            &&& raster_text(img, d, false)[at] == scale_char(on_light)
            &&& 0 <= on_dark <= 9
            &&& 0 <= on_light <= 9
            &&& on_dark + on_light == 9
        }),
{
    let d = details_of(img, bw, bh);
    lemma_text_cells(img, d, true, row, col);
    lemma_text_cells(img, d, false, row, col);
    lemma_text_upto_len(img, d, true, d.rows() as nat);
    lemma_text_upto_len(img, d, false, d.rows() as nat);
    lemma_block_mean_range(img, d, row, col);
    law_positions_mirror(block_mean(img, d, row, col));
}

/// An image lower than one block renders to the empty text. An image
/// narrower than one block renders to lines without characters: one newline
/// for each block row and nothing else.
pub proof fn law_degenerate(img: &GrayImage, bw: u32, bh: u32, dark: bool)
    requires
        bw > 0,
        bh > 0,
    ensures
        luma_height(img) < bh ==> raster_text(img, details_of(img, bw, bh), dark) == Seq::<
            char,
        >::empty(),
        luma_width(img) < bw ==> raster_text(img, details_of(img, bw, bh), dark) == Seq::new(
            (luma_height(img) / (bh as int)) as nat,
            |i: int| '\n',
        ),
{
    let d = details_of(img, bw, bh);
    let text = raster_text(img, d, dark);
    lemma_text_upto_len(img, d, dark, d.rows() as nat);
    if luma_height(img) < bh {
        assert(d.rows() == 0) by (nonlinear_arith)
            requires
                d.rows() == (d.h as int) / (d.split_h as int),
                0 <= d.h < d.split_h,
        ;
    }
    if luma_width(img) < bw {
        assert(d.cols() == 0) by (nonlinear_arith)
            requires
                d.cols() == (d.w as int) / (d.split_w as int),
                0 <= d.w < d.split_w,
        ;
        assert(text.len() == d.rows()) by (nonlinear_arith)
            requires
                text.len() == d.rows() * (d.cols() + 1),
                d.cols() == 0,
        ;
        assert forall|i: int| 0 <= i < text.len() implies text[i] == '\n' by {
            lemma_text_cells(img, d, dark, i, 0);
            assert(cell_offset(0, i, 0) == i) by (nonlinear_arith);
        }
        assert(text =~= Seq::new(d.rows() as nat, |i: int| '\n'));
    }
}

} // verus!
