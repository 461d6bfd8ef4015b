//! The picture that a render fills: an RGB image buffer.

use vstd::prelude::*;
use image::{Rgb, RgbImage};

verus! {

/// An RGB image with eight bits to the channel, of a size fixed when it is
/// made.
///
/// It holds an `image::RgbImage`. That type cannot be declared to Verus, its
/// pixel parameter being bound by a trait of the image crate, so the canvas
/// keeps it out of sight, and all that is known of a canvas is what the
/// functions of this module say of its width, height and pixels.
#[verifier::external_body]
pub struct Canvas {
    image: RgbImage,
}

/// The width of a canvas in pixels: what `ImageBuffer::width` returns.
pub uninterp spec fn canvas_width(canvas: Canvas) -> nat;

/// The height of a canvas in pixels: what `ImageBuffer::height` returns.
pub uninterp spec fn canvas_height(canvas: Canvas) -> nat;

/// The pixels of a canvas by column and row, row 0 being the top: what
/// `ImageBuffer::get_pixel` returns for each.
pub uninterp spec fn canvas_pixels(canvas: Canvas) -> Map<(int, int), (u8, u8, u8)>;

/// The bytes of an image of the given size and pixels: row after row from the
/// top, pixel after pixel from the left, red, green and blue of each.
pub open spec fn raw_bytes(width: nat, height: nat, pixels: Map<(int, int), (u8, u8, u8)>) -> Seq<
    u8,
> {
    Seq::new(
        3 * width * height,
        |i: int|
            {
                let pixel = pixels[((i / 3) % (width as int), (i / 3) / (width as int))];
                if i % 3 == 0 {
                    pixel.0
                } else if i % 3 == 1 {
                    pixel.1
                } else {
                    pixel.2
                }
            },
    )
}

/// Where the bytes of a pixel stand among the bytes of an image: pixel
/// `(x, y)` has its red at three times its place in the frame, rows first,
/// and its green and blue behind that.
pub proof fn lemma_raw_bytes_hold_the_pixels(
    width: nat,
    height: nat,
    pixels: Map<(int, int), (u8, u8, u8)>,
    x: int,
    y: int,
)
    requires
        0 <= x < width,
        0 <= y < height,
    ensures
        3 * (y * width + x) + 2 < raw_bytes(width, height, pixels).len(),
        raw_bytes(width, height, pixels)[3 * (y * width + x)] == pixels[(x, y)].0,
        raw_bytes(width, height, pixels)[3 * (y * width + x) + 1] == pixels[(x, y)].1,
        raw_bytes(width, height, pixels)[3 * (y * width + x) + 2] == pixels[(x, y)].2,
{
    let w = width as int;
    let p = y * w + x;
    assert(0 <= y * w && y * w + w <= height * w && height * w == w * height) by (nonlinear_arith)
        requires
            0 <= y < height,
            0 < w,
    ;
    assert(3 * (w * height) == 3 * width * height) by (nonlinear_arith)
        requires
            w == width,
    ;
    vstd::arithmetic::div_mod::lemma_fundamental_div_mod_converse(p, w, y, x);
    assert((3 * p) / 3 == p && (3 * p + 1) / 3 == p && (3 * p + 2) / 3 == p);
    assert((3 * p) % 3 == 0 && (3 * p + 1) % 3 == 1 && (3 * p + 2) % 3 == 2);
}

/// `ImageBuffer::new`: a black image of the given size. It panics where the
/// number of its bytes is more than a vector can hold, which the precondition
/// rules out.
#[verifier::external_body]
pub(crate) fn blank(width: u32, height: u32) -> (canvas: Canvas)
    requires
        3 * width * height <= isize::MAX,
    ensures
        canvas_width(canvas) == width,
        canvas_height(canvas) == height,
        forall|x: int, y: int|
            0 <= x < width && 0 <= y < height ==> #[trigger] canvas_pixels(canvas)[(x, y)] == (
                0u8,
                0u8,
                0u8,
            ),
{
    Canvas { image: RgbImage::new(width, height) }
}

/// `ImageBuffer::put_pixel`: sets one pixel and leaves the others and the size
/// as they are. It panics outside the image, which the precondition rules out.
#[verifier::external_body]
pub(crate) fn put(canvas: &mut Canvas, x: u32, y: u32, rgb: [u8; 3])
    requires
        x < canvas_width(*old(canvas)),
        y < canvas_height(*old(canvas)),
    ensures
        canvas_width(*final(canvas)) == canvas_width(*old(canvas)),
        canvas_height(*final(canvas)) == canvas_height(*old(canvas)),
        canvas_pixels(*final(canvas)) == canvas_pixels(*old(canvas)).insert(
            (x as int, y as int),
            (rgb[0], rgb[1], rgb[2]),
        ),
{
    canvas.image.put_pixel(x, y, Rgb(rgb))
}

/// `ImageBuffer::get_pixel`: one pixel. It panics outside the image, which the
/// precondition rules out.
#[verifier::external_body]
fn pixel_of(canvas: &Canvas, x: u32, y: u32) -> (rgb: [u8; 3])
    requires
        x < canvas_width(*canvas),
        y < canvas_height(*canvas),
    ensures
        (rgb[0], rgb[1], rgb[2]) == canvas_pixels(*canvas)[(x as int, y as int)],
{
    canvas.image.get_pixel(x, y).0
}

/// `ImageBuffer::width`.
#[verifier::external_body]
fn width_of(canvas: &Canvas) -> (width: u32)
    ensures
        width == canvas_width(*canvas),
{
    canvas.image.width()
}

/// `ImageBuffer::height`.
#[verifier::external_body]
fn height_of(canvas: &Canvas) -> (height: u32)
    ensures
        height == canvas_height(*canvas),
{
    canvas.image.height()
}

/// `ImageBuffer::into_raw`: the bytes of the image, three to the pixel, row
/// after row.
#[verifier::external_body]
fn raw_of(canvas: Canvas) -> (bytes: Vec<u8>)
    ensures
        bytes@ == raw_bytes(canvas_width(canvas), canvas_height(canvas), canvas_pixels(canvas)),
{
    canvas.image.into_raw()
}

impl Canvas {
    /// The width in pixels.
    pub fn width(&self) -> (width: u32)
        ensures
            width == canvas_width(*self),
    {
        width_of(self)
    }

    /// The height in pixels.
    pub fn height(&self) -> (height: u32)
        ensures
            height == canvas_height(*self),
    {
        height_of(self)
    }

    /// The pixel in column `x` of row `y`, if the canvas has one there.
    pub fn get_pixel(&self, x: u32, y: u32) -> (rgb: Option<[u8; 3]>)
        ensures
            rgb is Some <==> x < canvas_width(*self) && y < canvas_height(*self),
            rgb is Some ==> (rgb->0[0], rgb->0[1], rgb->0[2]) == canvas_pixels(*self)[(
                x as int,
                y as int,
            )],
    {
        if x < width_of(self) && y < height_of(self) {
            Some(pixel_of(self, x, y))
        } else {
            None
        }
    }

    /// The bytes of the picture: row after row from the top, three bytes to
    /// the pixel.
    pub fn into_raw(self) -> (bytes: Vec<u8>)
        ensures
            bytes@ == raw_bytes(canvas_width(self), canvas_height(self), canvas_pixels(self)),
    {
        raw_of(self)
    }
}

} // verus!
