//! Frames: which pixels there are, and where their colours go.

use vstd::prelude::*;
use crate::canvas::{Canvas, blank, canvas_height, canvas_pixels, canvas_width, put, raw_bytes};

verus! {

/// The number of steps into which the jitter of a sample divides a pixel.
pub const JITTER_STEPS: u64 = 10000;

/// The factor by which a jitter source multiplies its state.
pub const JITTER_FACTOR: u64 = 6364136223846793005;

/// The number that a jitter source adds to its state.
pub const JITTER_INCREMENT: u64 = 1442695040888963407;

/// A source of jitter for the samples of a pixel: a sequence of numbers that
/// look like chance and are fixed by the seed, so that a render can be
/// repeated.
#[derive(Clone, Copy, Debug, PartialEq, Eq, Structural)]
pub struct Jitter {
    pub state: u64,
}

/// The state that follows `state`: the state times the factor plus the
/// increment, in 64 bits.
pub open spec fn spec_advance(state: u64) -> u64 {
    ((state * JITTER_FACTOR + JITTER_INCREMENT) % 0x1_0000_0000_0000_0000) as u64
}

/// The jitter that a state gives: its upper 32 bits, in steps.
pub open spec fn spec_steps_of(state: u64) -> u32 {
    ((state / 0x1_0000_0000) % JITTER_STEPS) as u32
}

/// The colour computed for one pixel of a frame.
#[derive(Clone, Copy, Debug, PartialEq, Eq)]
pub struct Pixel {
    /// The column, counted from the left.
    pub x: u32,
    /// The row, counted from the top.
    pub y: u32,
    pub rgb: [u8; 3],
}

/// The place of pixel `(x, y)` in a frame of the given width, rows first.
pub open spec fn pixel_index(width: int, x: int, y: int) -> int {
    y * width + x
}

/// The colour that the first `n` of `pixels` leave at `(x, y)`: that of the
/// last of them that lies there, and black where none does.
pub open spec fn painted(pixels: Seq<Pixel>, n: int, x: int, y: int) -> (u8, u8, u8)
    decreases n,
{
    if n <= 0 {
        (0, 0, 0)
    } else if pixels[n - 1].x == x && pixels[n - 1].y == y {
        (pixels[n - 1].rgb[0], pixels[n - 1].rgb[1], pixels[n - 1].rgb[2])
    } else {
        painted(pixels, n - 1, x, y)
    }
}

/// One of the first `n` of `pixels` lies at `(x, y)`.
pub open spec fn covered(pixels: Seq<Pixel>, n: int, x: int, y: int) -> bool {
    exists|i: int| 0 <= i < n && (#[trigger] pixels[i]).x == x && pixels[i].y == y
}

/// All of `pixels` lie inside a frame of the given size.
pub open spec fn all_inside(pixels: Seq<Pixel>, width: u32, height: u32) -> bool {
    forall|i: int| 0 <= i < pixels.len() ==> (#[trigger] pixels[i]).x < width && pixels[i].y < height
}

/// No two of `pixels` lie at the same place.
pub open spec fn all_apart(pixels: Seq<Pixel>) -> bool {
    forall|i: int, j: int|
        0 <= i < j < pixels.len() ==> !((#[trigger] pixels[i]).x == (#[trigger] pixels[j]).x
            && pixels[i].y == pixels[j].y)
}

/// The canvas is the picture of `pixels` on a frame of the given size.
pub open spec fn is_picture_of(canvas: Canvas, width: u32, height: u32, pixels: Seq<Pixel>) -> bool {
    &&& canvas_width(canvas) == width
    &&& canvas_height(canvas) == height
    &&& forall|x: int, y: int|
        0 <= x < width && 0 <= y < height ==> #[trigger] canvas_pixels(canvas)[(x, y)] == painted(
            pixels,
            pixels.len() as int,
            x,
            y,
        )
}

/// Where no two pixels lie at the same place, each pixel's place shows that
/// pixel's colour, whatever the order in which the pixels come.
pub proof fn lemma_painted_shows_each_pixel(pixels: Seq<Pixel>, n: int, i: int)
    requires
        all_apart(pixels),
        0 <= i < n <= pixels.len(),
    ensures
        painted(pixels, n, pixels[i].x as int, pixels[i].y as int) == (
            pixels[i].rgb[0],
            pixels[i].rgb[1],
            pixels[i].rgb[2],
        ),
    decreases n,
{
    if i < n - 1 {
        assert(!(pixels[i].x == pixels[n - 1].x && pixels[i].y == pixels[n - 1].y));
        lemma_painted_shows_each_pixel(pixels, n - 1, i);
    }
}

/// Two pictures of the same pixels on frames of the same size have the same
/// bytes.
pub proof fn lemma_render_is_repeatable(
    first: Canvas,
    second: Canvas,
    width: u32,
    height: u32,
    pixels: Seq<Pixel>,
)
    requires
        is_picture_of(first, width, height, pixels),
        is_picture_of(second, width, height, pixels),
    ensures
        raw_bytes(canvas_width(first), canvas_height(first), canvas_pixels(first)) == raw_bytes(
            canvas_width(second),
            canvas_height(second),
            canvas_pixels(second),
        ),
{
    let a = raw_bytes(canvas_width(first), canvas_height(first), canvas_pixels(first));
    let b = raw_bytes(canvas_width(second), canvas_height(second), canvas_pixels(second));
    assert(a.len() == b.len());
    assert forall|i: int| 0 <= i < a.len() implies a[i] == b[i] by {
        let w = width as int;
        let h = height as int;
        assert(0 <= i < 3 * w * h);
        assert(w > 0 && h > 0) by (nonlinear_arith)
            requires
                0 <= i < 3 * w * h,
                w >= 0,
                h >= 0,
        ;
        let p = i / 3;
        assert(0 <= p < w * h) by (nonlinear_arith)
            requires
                0 <= i < 3 * w * h,
                p == i / 3,
        ;
        vstd::arithmetic::div_mod::lemma_fundamental_div_mod(p, w);
        vstd::arithmetic::div_mod::lemma_mod_bound(p, w);
        assert(0 <= p / w < h) by (nonlinear_arith)
            requires
                0 <= p < w * h,
                w > 0,
                p == w * (p / w) + (p % w),
                0 <= p % w < w,
        ;
        assert(canvas_pixels(first)[(p % w, p / w)] == canvas_pixels(second)[(p % w, p / w)]);
    }
    assert(a =~= b);
}

/// Pixels of one frame have different places, and all places lie inside the
/// frame.
pub proof fn lemma_pixel_index_is_one_to_one(width: int, height: int, x: int, y: int, a: int, b: int)
    requires
        0 <= x < width,
        0 <= y < height,
        0 <= a < width,
        0 <= b < height,
    ensures
        0 <= pixel_index(width, x, y) < width * height,
        pixel_index(width, x, y) == pixel_index(width, a, b) ==> x == a && y == b,
{
    assert(0 <= y * width && y * width + width <= height * width && height * width == width
        * height) by (nonlinear_arith)
        requires
            0 <= y < height,
            0 < width,
    ;
    if y < b {
        assert(y * width + width <= b * width) by (nonlinear_arith)
            requires
                y < b,
                0 < width,
        ;
    } else if b < y {
        assert(b * width + width <= y * width) by (nonlinear_arith)
            requires
                b < y,
                0 < width,
        ;
    }
}

/// The jitter of a sample, in steps of a ten-thousandth of a pixel, drawn
/// from a number that the caller took from a source of chance.
pub fn jitter_steps(chance: u64) -> (steps: u32)
    ensures
        steps == chance % JITTER_STEPS,
        steps < JITTER_STEPS,
{
    (chance % JITTER_STEPS) as u32
}

fn advance(state: u64) -> (next: u64)
    ensures
        next == spec_advance(state),
{
    assert(state * JITTER_FACTOR <= 0xffff_ffff_ffff_ffff * 0xffff_ffff_ffff_ffff) by (nonlinear_arith)
        requires
            0 <= state <= 0xffff_ffff_ffff_ffff,
            0 <= JITTER_FACTOR <= 0xffff_ffff_ffff_ffff,
    ;
    let wide: u128 = state as u128 * JITTER_FACTOR as u128 + JITTER_INCREMENT as u128;
    (wide % 0x1_0000_0000_0000_0000) as u64
}

impl Jitter {
    /// The source with the given seed.
    pub fn new(seed: u64) -> (jitter: Jitter)
        ensures
            jitter.state == seed,
    {
        Jitter { state: seed }
    }

    /// The source for the pixel with the given number in a render with the
    /// given seed. Every pixel has a source of its own, so that the jitter of
    /// a pixel does not depend on the order in which the pixels are computed.
    pub fn for_pixel(seed: u64, number: u64) -> (jitter: Jitter)
        ensures
            jitter.state == spec_advance(((seed + number) % 0x1_0000_0000_0000_0000) as u64),
    {
        let sum: u128 = seed as u128 + number as u128;
        Jitter { state: advance((sum % 0x1_0000_0000_0000_0000) as u64) }
    }

    /// Moves the source on and returns the next jitter, in steps of a
    /// ten-thousandth of a pixel.
    pub fn next_steps(&mut self) -> (steps: u32)
        ensures
            final(self).state == spec_advance(old(self).state),
            steps == spec_steps_of(final(self).state),
            steps < JITTER_STEPS,
    {
        self.state = advance(self.state);
        jitter_steps(self.state / 0x1_0000_0000)
    }
}

/// The row of the image plane that row `y` of the frame looks at, counted
/// from the bottom: the frame has its row 0 at the top, the image plane at
/// the bottom.
pub fn row_from_bottom(height: u32, y: u32) -> (row: u32)
    requires
        y < height,
    ensures
        row == height - 1 - y,
{
    height - 1 - y
}

/// The pixels of a frame, row after row from the top, each row from the
/// left.
pub fn pixel_order(width: u32, height: u32) -> (order: Vec<(u32, u32)>)
    requires
        width * height <= usize::MAX,
    ensures
        order.len() == width * height,
        forall|x: int, y: int|
            0 <= x < width && 0 <= y < height ==> order[#[trigger] pixel_index(
                width as int,
                x,
                y,
            )] == (x as u32, y as u32),
{
    let mut order: Vec<(u32, u32)> = Vec::new();
    let mut y: u32 = 0;
    assert(0 * (width as int) == 0);
    while y < height
        invariant
            y <= height,
            order.len() == y * width,
            forall|a: int, b: int|
                0 <= a < width && 0 <= b < y ==> order[#[trigger] pixel_index(width as int, a, b)]
                    == (a as u32, b as u32),
        decreases height - y,
    {
        let mut x: u32 = 0;
        while x < width
            invariant
                x <= width,
                y < height,
                order.len() == y * width + x,
                forall|a: int, b: int|
                    0 <= a < width && 0 <= b < y ==> order[#[trigger] pixel_index(
                        width as int,
                        a,
                        b,
                    )] == (a as u32, b as u32),
                forall|a: int|
                    0 <= a < x ==> order[#[trigger] pixel_index(width as int, a, y as int)] == (
                        a as u32,
                        y,
                    ),
            decreases width - x,
        {
            proof {
                assert forall|a: int, b: int| 0 <= a < width && 0 <= b < y implies pixel_index(
                    width as int,
                    a,
                    b,
                ) < y * width by {
                    lemma_pixel_index_is_one_to_one(width as int, y as int, a, b, a, b);
                    assert(width * y == y * width) by (nonlinear_arith);
                }
            }
            order.push((x, y));
            x += 1;
        }
        proof {
            assert((y + 1) * width == y * width + width) by (nonlinear_arith);
        }
        y += 1;
    }
    proof {
        assert(height * width == width * height) by (nonlinear_arith);
    }
    order
}

/// Assembles a picture from the colours computed for its pixels.
///
/// The pixels may come in any order; each goes to its own place, and a place
/// that no pixel names stays black. The picture must be one that fits into
/// memory, at three bytes to the pixel.
pub fn render(width: u32, height: u32, pixels: &Vec<Pixel>) -> (canvas: Canvas)
    requires
        3 * width * height <= isize::MAX,
        all_inside(pixels@, width, height),
    ensures
        is_picture_of(canvas, width, height, pixels@),
{
    let mut canvas = blank(width, height);
    let mut i: usize = 0;
    while i < pixels.len()
        invariant
            i <= pixels.len(),
            all_inside(pixels@, width, height),
            canvas_width(canvas) == width,
            canvas_height(canvas) == height,
            forall|x: int, y: int|
                0 <= x < width && 0 <= y < height ==> #[trigger] canvas_pixels(canvas)[(x, y)]
                    == painted(pixels@, i as int, x, y),
        decreases pixels.len() - i,
    {
        let pixel = pixels[i];
        put(&mut canvas, pixel.x, pixel.y, pixel.rgb);
        i += 1;
    }
    canvas
}

/// Byte `j` of a frame belongs to one of the first `n` of `pixels`: it is one
/// of the four bytes at the place of that pixel.
pub open spec fn written(pixels: Seq<Pixel>, n: int, width: int, j: int) -> bool {
    exists|i: int|
        0 <= i < n && 4 * pixel_index(width, (#[trigger] pixels[i]).x as int, pixels[i].y as int)
            <= j < 4 * pixel_index(width, pixels[i].x as int, pixels[i].y as int) + 4
}

/// Writes the colours computed for the pixels of a frame into a frame buffer
/// of four bytes to the pixel: red, green, blue, and an alpha of 255.
///
/// The pixels may come in any order; each goes to its own place, and the
/// bytes of a place that no pixel names stay as they are.
pub fn write_frame(frame: &mut [u8], width: u32, height: u32, pixels: &Vec<Pixel>)
    requires
        4 * width * height <= old(frame)@.len(),
        all_inside(pixels@, width, height),
    ensures
        final(frame)@.len() == old(frame)@.len(),
        forall|x: int, y: int|
            #![trigger pixel_index(width as int, x, y)]
            0 <= x < width && 0 <= y < height && covered(pixels@, pixels.len() as int, x, y) ==> {
                let at = 4 * pixel_index(width as int, x, y);
                let rgb = painted(pixels@, pixels.len() as int, x, y);
                &&& final(frame)@[at] == rgb.0
                &&& final(frame)@[at + 1] == rgb.1
                &&& final(frame)@[at + 2] == rgb.2
                &&& final(frame)@[at + 3] == 255
            },
        forall|j: int|
            0 <= j < old(frame)@.len() && !written(pixels@, pixels.len() as int, width as int, j)
                ==> #[trigger] final(frame)@[j] == old(frame)@[j],
{
    let size: usize = frame.len();
    let mut i: usize = 0;
    while i < pixels.len()
        invariant
            i <= pixels.len(),
            4 * width * height <= frame@.len(),
            frame@.len() == old(frame)@.len(),
            frame@.len() == size,
            all_inside(pixels@, width, height),
            forall|x: int, y: int|
                #![trigger pixel_index(width as int, x, y)]
                0 <= x < width && 0 <= y < height && covered(pixels@, i as int, x, y) ==> {
                    let at = 4 * pixel_index(width as int, x, y);
                    let rgb = painted(pixels@, i as int, x, y);
                    &&& frame@[at] == rgb.0
                    &&& frame@[at + 1] == rgb.1
                    &&& frame@[at + 2] == rgb.2
                    &&& frame@[at + 3] == 255
                },
            forall|j: int|
                0 <= j < frame@.len() && !written(pixels@, i as int, width as int, j)
                    ==> #[trigger] frame@[j] == old(frame)@[j],
        decreases pixels.len() - i,
    {
        let pixel = pixels[i];
        proof {
            assert(pixels@[i as int].x < width && pixels@[i as int].y < height);
            assert(0 <= pixel.y * width) by (nonlinear_arith);
            lemma_pixel_index_is_one_to_one(
                width as int,
                height as int,
                pixel.x as int,
                pixel.y as int,
                pixel.x as int,
                pixel.y as int,
            );
            assert(4 * (width * height) == 4 * width * height) by (nonlinear_arith);
            assert(pixel_index(width as int, pixel.x as int, pixel.y as int) == pixel.y * width
                + pixel.x);
            assert(pixel.y * width + pixel.x < width * height);
            assert((pixel.y * width + pixel.x) * 4 + 4 <= size);
        }
        let at: usize = (pixel.y as usize * width as usize + pixel.x as usize) * 4;
        frame[at] = pixel.rgb[0];
        frame[at + 1] = pixel.rgb[1];
        frame[at + 2] = pixel.rgb[2];
        frame[at + 3] = 255;
        proof {
            assert forall|x: int, y: int|
                #![trigger pixel_index(width as int, x, y)]
                0 <= x < width && 0 <= y < height && covered(pixels@, i + 1, x, y) implies {
                let place = 4 * pixel_index(width as int, x, y);
                let rgb = painted(pixels@, i + 1, x, y);
                &&& frame@[place] == rgb.0
                &&& frame@[place + 1] == rgb.1
                &&& frame@[place + 2] == rgb.2
                &&& frame@[place + 3] == 255
            } by {
                lemma_pixel_index_is_one_to_one(
                    width as int,
                    height as int,
                    x,
                    y,
                    pixel.x as int,
                    pixel.y as int,
                );
                if !(x == pixel.x && y == pixel.y) {
                    let k = choose|k: int|
                        0 <= k < i + 1 && (#[trigger] pixels@[k]).x == x && pixels@[k].y == y;
                    assert(k < i);
                    assert(covered(pixels@, i as int, x, y));
                }
            }
            assert forall|j: int|
                0 <= j < frame@.len() && !written(
                    pixels@,
                    i + 1,
                    width as int,
                    j,
                ) implies #[trigger] frame@[j] == old(frame)@[j] by {
                assert(!(at <= j < at + 4)) by {
                    if at <= j < at + 4 {
                        assert(pixels@[i as int] == pixel);
                    }
                }
                if written(pixels@, i as int, width as int, j) {
                    let k = choose|k: int|
                        0 <= k < i && 4 * pixel_index(
                            width as int,
                            (#[trigger] pixels@[k]).x as int,
                            pixels@[k].y as int,
                        ) <= j < 4 * pixel_index(
                            width as int,
                            pixels@[k].x as int,
                            pixels@[k].y as int,
                        ) + 4;
                    assert(0 <= k < i + 1);
                }
            }
        }
        i += 1;
    }
}

} // verus!
