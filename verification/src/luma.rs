//! Grayscale images, held in the image buffers of the `image` crate.
//!
//! Verus does not look inside a [`GrayImage`]. What the rest of the library
//! knows about one is carried by two uninterpreted functions,
//! [`luma_dimensions`] and [`luma_samples`], and by the contracts of the three
//! wrappers at the end of this file, which are believed rather than proved.

use image::ImageBuffer;
use image::Luma;
use vstd::prelude::*;

verus! {

/// An immutable 8-bit grayscale image.
///
/// The pixels live in an `image::ImageBuffer<Luma<u8>, Vec<u8>>`, which stays
/// opaque to the verifier.
#[verifier::external_body]
pub struct GrayImage {
    buffer: ImageBuffer<Luma<u8>, Vec<u8>>,
}

/// The width and height of the image, in this order.
pub uninterp spec fn luma_dimensions(img: &GrayImage) -> (u32, u32);

/// The samples of the image: the key `(x, y)` is the column and the row of a
/// pixel, the value its intensity.
pub uninterp spec fn luma_samples(img: &GrayImage) -> Map<(int, int), u8>;

/// The width of the image.
pub open spec fn luma_width(img: &GrayImage) -> int {
    luma_dimensions(img).0 as int
}

/// The height of the image.
pub open spec fn luma_height(img: &GrayImage) -> int {
    luma_dimensions(img).1 as int
}

/// The intensity of the pixel in column `x` of row `y`.
pub open spec fn luma_at(img: &GrayImage, x: int, y: int) -> int {
    luma_samples(img)[(x, y)] as int
}

/// Whether `img` is the `width` by `height` image whose samples are those of
/// `data`, row after row from the top, each row from left to right.
pub open spec fn holds_rows(img: &GrayImage, width: u32, height: u32, data: Seq<u8>) -> bool {
    &&& luma_dimensions(img) == (width, height)
    &&& forall|x: int, y: int|
        0 <= x < width && 0 <= y < height ==> #[trigger] luma_samples(img)[(x, y)] == data[y
            * width + x]
}

impl GrayImage {
    /// Builds the `width` by `height` image whose samples are the first
    /// `width * height` bytes of `data`, in row-major order. Returns `None`
    /// exactly when `data` is too short for these dimensions.
    pub fn from_raw(width: u32, height: u32, data: Vec<u8>) -> (r: Option<GrayImage>)
        ensures
            r is Some <==> width * height <= data@.len(),
            r matches Some(img) ==> holds_rows(&img, width, height, data@),
    {
        buffer_from_raw(width, height, data)
    }

    /// The width and the height of the image, in pixels.
    pub fn dimensions(&self) -> (d: (u32, u32))
        ensures
            d == luma_dimensions(self),
    {
        buffer_dimensions(self)
    }
}

/// Calls `ImageBuffer::from_raw`. That function keeps `width`, `height` and
/// the vector as they are when `width * height` (one channel per pixel) can be
/// computed in `usize` and does not exceed the vector's length, and returns
/// `None` otherwise. A product that does not fit in `usize` exceeds every
/// vector's length, so the contract states the test over the integers. The
/// pixel at `(x, y)` is then read at index `y * width + x`.
#[verifier::external_body]
fn buffer_from_raw(width: u32, height: u32, data: Vec<u8>) -> (r: Option<GrayImage>)
    ensures
        r is Some <==> width * height <= data@.len(),
        r matches Some(img) ==> holds_rows(&img, width, height, data@),
{
    ImageBuffer::from_raw(width, height, data).map(|buffer| GrayImage { buffer })
}

/// Calls `ImageBuffer::dimensions`, which returns the stored width and height.
/// The contract gives that pair its name.
#[verifier::external_body]
fn buffer_dimensions(img: &GrayImage) -> (d: (u32, u32))
    ensures
        d == luma_dimensions(img),
{
    img.buffer.dimensions()
}

/// Calls `ImageBuffer::get_pixel` and takes the single channel of the `Luma`
/// pixel it returns. `get_pixel` panics when `x` or `y` lies outside the
/// image, so those coordinates are excluded. The contract claims that the
/// sample is the one the image holds at `(x, y)`.
#[verifier::external_body]
pub(crate) fn buffer_sample(img: &GrayImage, x: u32, y: u32) -> (v: u8)
    requires
        x < luma_dimensions(img).0,
        y < luma_dimensions(img).1,
    ensures
        v == luma_samples(img)[(x as int, y as int)],
{
    img.buffer.get_pixel(x, y).0[0]
}

} // verus!
