use vstd::prelude::*;
use image::{Rgb, RgbImage};

verus! {

/// An RGB image with one byte per channel, held by the `image` crate.
///
/// Verus sees it through `pixels_of`, `width_of` and `height_of` alone.
#[verifier::external_body]
pub struct Canvas {
    img: RgbImage,
}

/// The pixels of a canvas, row by row: the pixel at `(x, y)` stands at index
/// `y * width + x`, as red, green and blue bytes.
pub uninterp spec fn pixels_of(c: Canvas) -> Seq<(u8, u8, u8)>;

/// The width of a canvas, in pixels.
pub uninterp spec fn width_of(c: Canvas) -> nat;

/// The height of a canvas, in pixels.
pub uninterp spec fn height_of(c: Canvas) -> nat;

/// The raw bytes of a row-major RGB raster: three per pixel.
pub open spec fn raster_bytes(p: Seq<(u8, u8, u8)>) -> Seq<u8> {
    Seq::new(
        3 * p.len(),
        |i: int|
            if i % 3 == 0 {
                p[i / 3].0
            } else if i % 3 == 1 {
                p[i / 3].1
            } else {
                p[i / 3].2
            },
    )
}

/// Relies on `ImageBuffer::new`: an image of the given size with every
/// channel zero. It computes the buffer length as `3 * width`, then times
/// `height`, and panics when either product overflows `usize`.
#[verifier::external_body]
pub(crate) fn new_canvas(width: u32, height: u32) -> (r: Canvas)
    requires
        3 * width <= usize::MAX,
        3 * width * height <= usize::MAX,
    ensures
        width_of(r) == width,
        height_of(r) == height,
        pixels_of(r) == Seq::new((width * height) as nat, |i: int| (0u8, 0u8, 0u8)),
{
    Canvas { img: RgbImage::new(width, height) }
}

/// Relies on `ImageBuffer::put_pixel`: writes the pixel at `(x, y)`, which
/// must lie inside the image, and leaves the size and other pixels alone.
#[verifier::external_body]
pub(crate) fn put_pixel(c: &mut Canvas, x: u32, y: u32, rgb: (u8, u8, u8))
    requires
        x < width_of(*old(c)),
        y < height_of(*old(c)),
    ensures
        width_of(*final(c)) == width_of(*old(c)),
        height_of(*final(c)) == height_of(*old(c)),
        pixels_of(*final(c)) == pixels_of(*old(c)).update(y * width_of(*old(c)) + x, rgb),
{
    c.img.put_pixel(x, y, Rgb([rgb.0, rgb.1, rgb.2]))
}

/// Relies on `ImageBuffer::into_raw`: the buffer behind the image, which
/// holds the pixels row by row, three bytes each.
#[verifier::external_body]
pub(crate) fn into_raw(c: Canvas) -> (r: Vec<u8>)
    ensures
        r@ == raster_bytes(pixels_of(c)),
{
    c.img.into_raw()
}

impl Canvas {
    /// The image as raw RGB bytes, row by row, ready to be encoded.
    pub fn into_bytes(self) -> (r: Vec<u8>)
        ensures
            r@ == raster_bytes(pixels_of(self)),
    {
        into_raw(self)
    }
}

} // verus!
