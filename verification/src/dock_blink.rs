//! The icon in the Dock while sessions run.
//!
//! The power button in the lower right of the icon blinks between green and red. The icon
//! is brought to a working size first; the pixels of the button are found by their colour.

use vstd::prelude::*;

use crate::adapters;
use crate::adapters::zlib;

verus! {

/// How long a frame is shown.
pub const FRAME_PERIOD_MILLIS: u64 = 300;

/// The shorter side of the icon is halved until it is no longer than this.
pub const WORK_SIZE_LIMIT: usize = 256;

/// The bytes hold an image of this size: four bytes for each pixel, row by row.
pub open spec fn is_image(rgba: Seq<u8>, width: int, height: int) -> bool {
    width * height * 4 <= rgba.len()
}

// ---------------------------------------------------------------------------
// Halving an image
// ---------------------------------------------------------------------------

/// Where the pixel `(2x + dx, 2y + dy)` begins.
pub open spec fn corner(width: int, x: int, y: int, dx: int, dy: int) -> int {
    ((2 * y + dy) * width + (2 * x + dx)) * 4
}

/// The alpha of a block of four pixels, summed up.
pub open spec fn alpha_sum(rgba: Seq<u8>, width: int, x: int, y: int) -> int {
    rgba[corner(width, x, y, 0, 0) + 3] + rgba[corner(width, x, y, 1, 0) + 3] + rgba[corner(
        width,
        x,
        y,
        0,
        1,
    ) + 3] + rgba[corner(width, x, y, 1, 1) + 3]
}

/// A colour of a pixel, weighted by its alpha.
pub open spec fn weighted(rgba: Seq<u8>, at: int, channel: int) -> int {
    rgba[at + channel] * rgba[at + 3]
}

/// A colour of a block of four pixels, summed up with the alpha as the weight.
pub open spec fn colour_sum(rgba: Seq<u8>, width: int, x: int, y: int, channel: int) -> int {
    weighted(rgba, corner(width, x, y, 0, 0), channel) + weighted(
        rgba,
        corner(width, x, y, 1, 0),
        channel,
    ) + weighted(rgba, corner(width, x, y, 0, 1), channel) + weighted(
        rgba,
        corner(width, x, y, 1, 1),
        channel,
    )
}

/// A byte of the pixel that stands for a block of four: the mean, rounded to the nearest, of
/// the alpha, and of the colours weighted by it.
pub open spec fn mean(rgba: Seq<u8>, width: int, x: int, y: int, channel: int) -> int {
    let alpha = alpha_sum(rgba, width, x, y);
    if channel == 3 {
        (alpha + 2) / 4
    } else if alpha > 0 {
        (2 * colour_sum(rgba, width, x, y, channel) + alpha) / (2 * alpha)
    } else {
        0
    }
}

/// The image at half the size.
pub open spec fn halved(rgba: Seq<u8>, width: int, height: int) -> Seq<u8> {
    Seq::new(
        ((width / 2) * (height / 2) * 4) as nat,
        |i: int|
            mean(rgba, width, (i / 4) % (width / 2), (i / 4) / (width / 2), i % 4) as u8,
    )
}

proof fn lemma_mean_range(sum: int, alpha: int)
    requires
        0 < alpha,
        0 <= sum <= 255 * alpha,
    ensures
        0 <= (2 * sum + alpha) / (2 * alpha) <= 255,
{
    assert(0 <= (2 * sum + alpha) / (2 * alpha) <= 255) by (nonlinear_arith)
        requires
            0 < alpha,
            0 <= sum <= 255 * alpha,
    ;
}

proof fn lemma_corner(width: int, height: int, x: int, y: int, dx: int, dy: int)
    requires
        0 <= x < width / 2,
        0 <= y < height / 2,
        0 <= dx <= 1,
        0 <= dy <= 1,
    ensures
        0 <= (2 * y + dy) * width,
        0 <= (2 * y + dy) * width + (2 * x + dx) < width * height,
        0 <= corner(width, x, y, dx, dy),
        corner(width, x, y, dx, dy) + 3 < width * height * 4,
{
    let row = 2 * y + dy;
    let column = 2 * x + dx;
    assert(0 <= row <= height - 1);
    assert(0 <= column <= width - 1);
    assert(0 <= row * width <= (height - 1) * width) by (nonlinear_arith)
        requires
            0 <= row <= height - 1,
            0 <= width,
    ;
    assert((height - 1) * width == width * height - width) by (nonlinear_arith);
}

proof fn lemma_pixel(p: int, width: int, height: int)
    requires
        0 <= p < width * height,
        0 <= width,
        0 <= height,
    ensures
        0 < width,
        0 <= p % width < width,
        0 <= p / width < height,
        p == (p / width) * width + p % width,
{
    assert(0 < width) by (nonlinear_arith)
        requires
            0 <= p < width * height,
            0 <= width,
    ;
    vstd::arithmetic::div_mod::lemma_fundamental_div_mod(p, width);
    assert(p == (p / width) * width + p % width) by (nonlinear_arith)
        requires
            p == width * (p / width) + p % width,
    ;
    assert(0 <= p % width < width && 0 <= p / width < height) by (nonlinear_arith)
        requires
            0 <= p < width * height,
            0 < width,
    ;
}

fn weigh(colour: u8, alpha: u8) -> (r: u32)
    ensures
        r == colour * alpha,
        r <= 255 * alpha,
{
    assert(colour * alpha <= 255 * alpha) by (nonlinear_arith)
        requires
            colour <= 255,
    ;
    assert(255 * alpha <= 65025);
    colour as u32 * alpha as u32
}

fn corner_of(width: usize, height: usize, x: usize, y: usize, dx: usize, dy: usize) -> (r: usize)
    requires
        x < width / 2,
        y < height / 2,
        dx <= 1,
        dy <= 1,
        width * height * 4 <= usize::MAX,
    ensures
        r == corner(width as int, x as int, y as int, dx as int, dy as int),
        r + 3 < width * height * 4,
{
    proof {
        lemma_corner(width as int, height as int, x as int, y as int, dx as int, dy as int);
    }
    ((2 * y + dy) * width + (2 * x + dx)) * 4
}

/// Halves an image: each pixel stands for a block of four. The colours are weighted by the
/// alpha, so that transparent pixels do not darken the edges.
pub fn downsample_half(rgba: &[u8], width: usize, height: usize) -> (r: Vec<u8>)
    requires
        is_image(rgba@, width as int, height as int),
    ensures
        r@ == halved(rgba@, width as int, height as int),
{
    let bytes: usize = rgba.len();
    let half_width: usize = width / 2;
    let half_height: usize = height / 2;
    let ghost w = width as int;
    let ghost h = height as int;
    let mut out: Vec<u8> = Vec::new();
    let mut y: usize = 0;
    proof {
        assert((h / 2) * (w / 2) == (w / 2) * (h / 2)) by (nonlinear_arith);
    }
    while y < half_height
        invariant
            is_image(rgba@, w, h),
            rgba@.len() == bytes,
            w == width,
            h == height,
            half_width == w / 2,
            half_height == h / 2,
            y <= half_height,
            out@.len() == y * half_width * 4,
            forall|i: int|
                0 <= i < out@.len() ==> #[trigger] out@[i] == mean(
                    rgba@,
                    w,
                    (i / 4) % (w / 2),
                    (i / 4) / (w / 2),
                    i % 4,
                ) as u8,
        decreases half_height - y,
    {
        let mut x: usize = 0;
        assert(y * half_width + 0 == y * half_width);
        while x < half_width
            invariant
                is_image(rgba@, w, h),
                rgba@.len() == bytes,
                w == width,
                h == height,
                half_width == w / 2,
                half_height == h / 2,
                y < half_height,
                x <= half_width,
                out@.len() == (y * half_width + x) * 4,
                forall|i: int|
                    0 <= i < out@.len() ==> #[trigger] out@[i] == mean(
                        rgba@,
                        w,
                        (i / 4) % (w / 2),
                        (i / 4) / (w / 2),
                        i % 4,
                    ) as u8,
            decreases half_width - x,
        {
            let a: usize = corner_of(width, height, x, y, 0, 0);
            let b: usize = corner_of(width, height, x, y, 1, 0);
            let c: usize = corner_of(width, height, x, y, 0, 1);
            let d: usize = corner_of(width, height, x, y, 1, 1);
            let alpha: u32 = rgba[a + 3] as u32 + rgba[b + 3] as u32 + rgba[c + 3] as u32 + rgba[d
                + 3] as u32;
            let ghost before = out@;
            let ghost pixel = y * half_width + x;
            proof {
                vstd::arithmetic::div_mod::lemma_fundamental_div_mod_converse(
                    pixel,
                    w / 2,
                    y as int,
                    x as int,
                );
            }
            let mut channel: usize = 0;
            while channel < 3
                invariant
                    is_image(rgba@, w, h),
                    w == width,
                    h == height,
                    channel <= 3,
                    a == corner(w, x as int, y as int, 0, 0),
                    b == corner(w, x as int, y as int, 1, 0),
                    c == corner(w, x as int, y as int, 0, 1),
                    d == corner(w, x as int, y as int, 1, 1),
                    a + 3 < rgba@.len(),
                    b + 3 < rgba@.len(),
                    c + 3 < rgba@.len(),
                    d + 3 < rgba@.len(),
                    alpha == alpha_sum(rgba@, w, x as int, y as int),
                    before.len() == pixel * 4,
                    out@.len() == before.len() + channel,
                    forall|i: int| 0 <= i < before.len() ==> #[trigger] out@[i] == before[i],
                    forall|k: int|
                        0 <= k < channel ==> out@[before.len() + k] == #[trigger] mean(
                            rgba@,
                            w,
                            x as int,
                            y as int,
                            k,
                        ) as u8,
                decreases 3 - channel,
            {
                let sum: u32 = weigh(rgba[a + channel], rgba[a + 3]) + weigh(
                    rgba[b + channel],
                    rgba[b + 3],
                ) + weigh(rgba[c + channel], rgba[c + 3]) + weigh(rgba[d + channel], rgba[d + 3]);
                assert(sum == colour_sum(rgba@, w, x as int, y as int, channel as int));
                let value: u8 = if alpha > 0 {
                    proof {
                        lemma_mean_range(sum as int, alpha as int);
                    }
                    ((2 * sum + alpha) / (2 * alpha)) as u8
                } else {
                    0
                };
                out.push(value);
                channel = channel + 1;
            }
            out.push(((alpha + 2) / 4) as u8);
            proof {
                assert forall|i: int| 0 <= i < out@.len() implies #[trigger] out@[i] == mean(
                    rgba@,
                    w,
                    (i / 4) % (w / 2),
                    (i / 4) / (w / 2),
                    i % 4,
                ) as u8 by {
                    if i < before.len() {
                        assert(out@[i] == before[i]);
                    } else {
                        let k = i - before.len();
                        assert(i / 4 == pixel && i % 4 == k);
                        assert(out@[before.len() + k] == mean(
                            rgba@,
                            w,
                            x as int,
                            y as int,
                            k,
                        ) as u8);
                    }
                }
            }
            x = x + 1;
        }
        assert((y + 1) * half_width == y * half_width + half_width) by (nonlinear_arith);
        y = y + 1;
    }
    assert(out@ =~= halved(rgba@, w, h));
    out
}

/// An image and its size.
#[derive(Debug)]
pub struct Icon {
    pub rgba: Vec<u8>,
    pub width: usize,
    pub height: usize,
}

/// An image, halved until its shorter side is within the working size.
pub open spec fn at_working_size(rgba: Seq<u8>, width: int, height: int) -> (Seq<u8>, int, int)
    decreases width,
{
    if 256 < width && 256 < height {
        at_working_size(halved(rgba, width, height), width / 2, height / 2)
    } else {
        (rgba, width, height)
    }
}

/// Whether there are enough bytes for an image of this size.
fn holds_image(bytes: usize, width: usize, height: usize) -> (r: bool)
    ensures
        r == (width * height * 4 <= bytes),
{
    let pixels: usize = match width.checked_mul(height) {
        Some(pixels) => pixels,
        None => {
            return false;
        },
    };
    match pixels.checked_mul(4) {
        Some(needed) => needed <= bytes,
        None => false,
    }
}

/// Brings the icon to its working size. What has no column, or fewer bytes than its size
/// needs, is no icon.
pub fn working_icon(rgba: Vec<u8>, width: usize, height: usize) -> (r: Option<Icon>)
    ensures
        ({
            let (pixels, w, h) = at_working_size(rgba@, width as int, height as int);
            match r {
                Some(icon) => is_image(rgba@, width as int, height as int) && icon.rgba@ == pixels
                    && icon.width == w && icon.height == h && w > 0,
                None => !is_image(rgba@, width as int, height as int) || w == 0,
            }
        }),
{
    if !holds_image(rgba.len(), width, height) {
        return None;
    }
    let mut pixels = rgba;
    let mut w: usize = width;
    let mut h: usize = height;
    while WORK_SIZE_LIMIT < w && WORK_SIZE_LIMIT < h
        invariant
            is_image(pixels@, w as int, h as int),
            at_working_size(pixels@, w as int, h as int) == at_working_size(
                rgba@,
                width as int,
                height as int,
            ),
        decreases w,
    {
        pixels = downsample_half(pixels.as_slice(), w, h);
        w = w / 2;
        h = h / 2;
    }
    if w == 0 {
        None
    } else {
        Some(Icon { rgba: pixels, width: w, height: h })
    }
}

// ---------------------------------------------------------------------------
// The margin
// ---------------------------------------------------------------------------

/// The side of the picture in a canvas of this size: four fifths of it, rounded to the
/// nearest, and at least one.
pub open spec fn content_side_of(size: int) -> int {
    let side = (8 * size + 5) / 10;
    if side < 1 {
        1
    } else {
        side
    }
}

pub fn content_side(size: usize) -> (r: usize)
    requires
        0 < size,
        8 * size + 5 <= usize::MAX,
    ensures
        r == content_side_of(size as int),
        r <= size,
{
    let side: usize = (8 * size + 5) / 10;
    if side < 1 {
        1
    } else {
        side
    }
}

/// A square picture in the middle of a transparent canvas.
pub open spec fn embedded(picture: Seq<u8>, content: int, size: int) -> Seq<u8> {
    let offset = (size - content) / 2;
    Seq::new(
        (size * size * 4) as nat,
        |i: int|
            {
                let x = (i / 4) % size - offset;
                let y = (i / 4) / size - offset;
                if 0 <= x < content && 0 <= y < content {
                    picture[(y * content + x) * 4 + i % 4]
                } else {
                    0
                }
            },
    )
}

/// Places a square picture in the middle of a transparent canvas.
pub fn embed(picture: &[u8], content: usize, size: usize) -> (r: Vec<u8>)
    requires
        content <= size,
        is_image(picture@, content as int, content as int),
        size * size * 4 <= usize::MAX,
    ensures
        r@ == embedded(picture@, content as int, size as int),
{
    let offset: usize = (size - content) / 2;
    let ghost n = size as int;
    let ghost c = content as int;
    let mut out: Vec<u8> = Vec::new();
    assert(size * size >= 0) by (nonlinear_arith);
    let pixels: usize = size * size;
    let mut p: usize = 0;
    while p < pixels
        invariant
            n == size,
            c == content,
            content <= size,
            pixels == n * n,
            offset == (n - c) / 2,
            is_image(picture@, c, c),
            p <= pixels,
            pixels * 4 <= usize::MAX,
            out@.len() == p * 4,
            forall|i: int|
                0 <= i < out@.len() ==> #[trigger] out@[i] == embedded(picture@, c, n)[i],
        decreases pixels - p,
    {
        proof {
            lemma_pixel(p as int, n, n);
        }
        let x: usize = p % size;
        let y: usize = p / size;
        let inside = offset <= x && x < offset + content && offset <= y && y < offset + content;
        let ghost before = out@;
        let mut channel: usize = 0;
        while channel < 4
            invariant
                n == size,
                c == content,
                content <= size,
                pixels == n * n,
                p < pixels,
                x == p % size,
                y == p / size,
                offset == (n - c) / 2,
                is_image(picture@, c, c),
                inside == (offset <= x && x < offset + c && offset <= y && y < offset + c),
                channel <= 4,
                before.len() == p * 4,
                pixels * 4 <= usize::MAX,
                out@.len() == before.len() + channel,
                forall|i: int|
                    0 <= i < out@.len() ==> #[trigger] out@[i] == embedded(picture@, c, n)[i],
            decreases 4 - channel,
        {
            let ghost i = p * 4 + channel;
            assert(i / 4 == p && i % 4 == channel);
            assert(0 <= i < n * n * 4);
            let value: u8 = if inside {
                let row: usize = y - offset;
                let column: usize = x - offset;
                proof {
                    assert(0 <= row * content <= (content - 1) * content) by (nonlinear_arith)
                        requires
                            0 <= row <= content - 1,
                    ;
                    assert((content - 1) * content == content * content - content)
                        by (nonlinear_arith);
                    assert(content * content <= size * size) by (nonlinear_arith)
                        requires
                            content <= size,
                    ;
                }
                picture[(row * content + column) * 4 + channel]
            } else {
                0
            };
            out.push(value);
            channel = channel + 1;
        }
        p = p + 1;
    }
    assert(out@ =~= embedded(picture@, c, n));
    out
}

// ---------------------------------------------------------------------------
// The power button
// ---------------------------------------------------------------------------

/// The pixel is in the lower right quarter.
pub open spec fn in_corner(width: int, height: int, pixel: int) -> bool {
    pixel / width >= height / 2 && pixel % width >= width / 2
}

/// The pixel has the green of the button: visible, and clearly more green than red or blue.
pub open spec fn is_green(rgba: Seq<u8>, pixel: int) -> bool {
    let at = 4 * pixel;
    rgba[at + 3] > 60 && rgba[at + 1] > 110 && rgba[at + 1] > rgba[at] + 14 && rgba[at + 1]
        > rgba[at + 2] + 10
}

/// The pixel is in the disc where the button is expected: its centre at 0.73 of the shorter
/// side, its radius 0.12 of it.
pub open spec fn in_disc(width: int, height: int, pixel: int) -> bool {
    let side = if width < height {
        width
    } else {
        height
    };
    let dx = 100 * (pixel % width) - 73 * side;
    let dy = 100 * (pixel / width) - 73 * side;
    dx * dx + dy * dy <= (12 * side) * (12 * side)
}

/// Where the wanted pixels of the corner begin, among the first `pixels`.
pub open spec fn corner_pixels(
    width: int,
    height: int,
    pixels: int,
    wanted: spec_fn(int) -> bool,
) -> Seq<int>
    decreases pixels,
{
    if pixels <= 0 {
        Seq::empty()
    } else {
        let front = corner_pixels(width, height, pixels - 1, wanted);
        if in_corner(width, height, pixels - 1) && wanted(pixels - 1) {
            front.push(4 * (pixels - 1))
        } else {
            front
        }
    }
}

pub open spec fn green_pixels(rgba: Seq<u8>, width: int, height: int) -> Seq<int> {
    corner_pixels(width, height, width * height, |p: int| is_green(rgba, p))
}

pub open spec fn disc_pixels(width: int, height: int) -> Seq<int> {
    corner_pixels(width, height, width * height, |p: int| in_disc(width, height, p))
}

pub open spec fn places(v: Seq<usize>) -> Seq<int> {
    v.map_values(|i: usize| i as int)
}

fn disc_holds(width: usize, height: usize, pixel: usize) -> (r: bool)
    requires
        pixel < width * height,
        width * height * 4 <= usize::MAX,
    ensures
        r == in_disc(width as int, height as int, pixel as int),
{
    proof {
        lemma_pixel(pixel as int, width as int, height as int);
    }
    let side: usize = if width < height {
        width
    } else {
        height
    };
    let x: i128 = (pixel % width) as i128;
    let y: i128 = (pixel / width) as i128;
    let s: i128 = side as i128;
    proof {
        assert(side * side <= width * height) by (nonlinear_arith)
            requires
                side <= width,
                side <= height,
        ;
        assert(side < 0x1_0000_0000) by (nonlinear_arith)
            requires
                side * side * 4 <= u64::MAX,
        ;
    }
    let dx: i128 = 100 * x - 73 * s;
    let dy: i128 = 100 * y - 73 * s;
    let radius: i128 = 12 * s;
    if dx > radius || dx < -radius || dy > radius || dy < -radius {
        proof {
            lemma_outside(dx as int, dy as int, radius as int);
        }
        false
    } else {
        proof {
            lemma_inside(dx as int, radius as int);
            lemma_inside(dy as int, radius as int);
            assert(radius * radius <= 0xf_0000_0000 * 0xf_0000_0000) by (nonlinear_arith)
                requires
                    0 <= radius <= 0xf_0000_0000,
            ;
        }
        dx * dx + dy * dy <= radius * radius
    }
}

proof fn lemma_outside(dx: int, dy: int, radius: int)
    requires
        0 <= radius,
        dx > radius || dx < -radius || dy > radius || dy < -radius,
    ensures
        dx * dx + dy * dy > radius * radius,
{
    assert(dx * dx >= 0) by (nonlinear_arith);
    assert(dy * dy >= 0) by (nonlinear_arith);
    if dx > radius || dx < -radius {
        assert(dx * dx > radius * radius) by (nonlinear_arith)
            requires
                0 <= radius,
                dx > radius || dx < -radius,
        ;
    } else {
        assert(dy * dy > radius * radius) by (nonlinear_arith)
            requires
                0 <= radius,
                dy > radius || dy < -radius,
        ;
    }
}

proof fn lemma_inside(d: int, radius: int)
    requires
        -radius <= d <= radius,
    ensures
        0 <= d * d <= radius * radius,
{
    assert(0 <= d * d <= radius * radius) by (nonlinear_arith)
        requires
            -radius <= d <= radius,
    ;
}

fn green_at(rgba: &[u8], pixel: usize) -> (r: bool)
    requires
        4 * pixel + 3 < rgba@.len(),
    ensures
        r == is_green(rgba@, pixel as int),
{
    let bytes: usize = rgba.len();
    let at: usize = 4 * pixel;
    let red: u16 = rgba[at] as u16;
    let green: u16 = rgba[at + 1] as u16;
    let blue: u16 = rgba[at + 2] as u16;
    rgba[at + 3] > 60 && green > 110 && green > red + 14 && green > blue + 10
}

/// Finds the pixels of the power button, in the order of the image: the green ones of the
/// lower right quarter, or those of the disc where it is expected if there are none.
pub fn locate_button(rgba: &[u8], width: usize, height: usize) -> (r: Vec<usize>)
    requires
        is_image(rgba@, width as int, height as int),
    ensures
        ({
            let green = green_pixels(rgba@, width as int, height as int);
            places(r@) == if green.len() > 0 {
                green
            } else {
                disc_pixels(width as int, height as int)
            }
        }),
{
    let bytes: usize = rgba.len();
    let ghost w = width as int;
    let ghost h = height as int;
    let ghost green = |p: int| is_green(rgba@, p);
    let ghost disc = |p: int| in_disc(w, h, p);
    assert(0 <= w * h) by (nonlinear_arith)
        requires
            0 <= w,
            0 <= h,
    ;
    let pixels: usize = width * height;
    let mut found: Vec<usize> = Vec::new();
    let mut p: usize = 0;
    assert(places(found@) =~= Seq::<int>::empty());
    while p < pixels
        invariant
            w == width,
            h == height,
            pixels == w * h,
            rgba@.len() == bytes,
            is_image(rgba@, w, h),
            green == (|p: int| is_green(rgba@, p)),
            p <= pixels,
            places(found@) == corner_pixels(w, h, p as int, green),
        decreases pixels - p,
    {
        proof {
            lemma_pixel(p as int, w, h);
        }
        let ghost before = found@;
        if p / width >= height / 2 && p % width >= width / 2 && green_at(rgba, p) {
            found.push(4 * p);
            assert(places(found@) =~= places(before).push(4 * p as int));
        }
        p = p + 1;
    }
    if found.len() > 0 {
        assert(places(found@).len() == found@.len());
        return found;
    }
    assert(places(found@).len() == 0);
    let mut q: usize = 0;
    assert(places(found@) =~= Seq::<int>::empty());
    while q < pixels
        invariant
            w == width,
            h == height,
            pixels == w * h,
            pixels * 4 <= usize::MAX,
            disc == (|p: int| in_disc(w, h, p)),
            q <= pixels,
            places(found@) == corner_pixels(w, h, q as int, disc),
        decreases pixels - q,
    {
        proof {
            lemma_pixel(q as int, w, h);
        }
        let ghost before = found@;
        if q / width >= height / 2 && q % width >= width / 2 && disc_holds(width, height, q) {
            found.push(4 * q);
            assert(places(found@) =~= places(before).push(4 * q as int));
        }
        q = q + 1;
    }
    found
}

/// Each is where one of the first pixels begins, in the lower right quarter.
pub open spec fn all_in_corner(found: Seq<int>, width: int, height: int, pixels: int) -> bool {
    forall|i: int|
        0 <= i < found.len() ==> 0 <= #[trigger] found[i] < 4 * pixels && found[i] % 4 == 0
            && in_corner(width, height, found[i] / 4)
}

pub open spec fn ascending(found: Seq<int>) -> bool {
    forall|i: int, j: int| 0 <= i < j < found.len() ==> found[i] < found[j]
}

proof fn lemma_corner_pixels(
    width: int,
    height: int,
    pixels: int,
    wanted: spec_fn(int) -> bool,
)
    ensures
        ({
            let found = corner_pixels(width, height, pixels, wanted);
            all_in_corner(found, width, height, pixels) && ascending(found)
        }),
    decreases pixels,
{
    if pixels > 0 {
        lemma_corner_pixels(width, height, pixels - 1, wanted);
        let front = corner_pixels(width, height, pixels - 1, wanted);
        let found = corner_pixels(width, height, pixels, wanted);
        assert forall|i: int| 0 <= i < found.len() implies 0 <= #[trigger] found[i] < 4 * pixels
            && found[i] % 4 == 0 && in_corner(width, height, found[i] / 4) by {
            if i < front.len() {
                assert(found[i] == front[i]);
            } else {
                assert(found[i] == 4 * (pixels - 1));
                assert(found[i] / 4 == pixels - 1);
            }
        }
        assert forall|i: int, j: int| 0 <= i < j < found.len() implies found[i] < found[j] by {
            assert(found[i] == front[i]);
            if j < front.len() {
                assert(found[j] == front[j]);
            }
        }
    }
}

/// Every pixel that is found begins within the image and lies in its lower right quarter,
/// and none is found twice.
pub proof fn the_button_is_in_the_lower_right(rgba: Seq<u8>, width: int, height: int)
    ensures
        ({
            let green = green_pixels(rgba, width, height);
            let found = if green.len() > 0 {
                green
            } else {
                disc_pixels(width, height)
            };
            all_in_corner(found, width, height, width * height) && ascending(found)
        }),
{
    lemma_corner_pixels(width, height, width * height, |p: int| is_green(rgba, p));
    lemma_corner_pixels(width, height, width * height, |p: int| in_disc(width, height, p));
}

// ---------------------------------------------------------------------------
// Writing a frame as PNG
// ---------------------------------------------------------------------------

/// A number in four bytes, the highest first.
pub open spec fn big_endian(n: u32) -> Seq<u8> {
    seq![
        (n / 0x100_0000) as u8,
        (n / 0x1_0000 % 0x100) as u8,
        (n / 0x100 % 0x100) as u8,
        (n % 0x100) as u8,
    ]
}

/// One bit of the checksum: the polynomial is taken off where a bit falls out.
pub open spec fn crc_bit(crc: u32) -> u32 {
    if crc & 1 == 1 {
        (crc >> 1) ^ 0xEDB8_8320
    } else {
        crc >> 1
    }
}

pub open spec fn crc_bits(crc: u32, bits: nat) -> u32
    decreases bits,
{
    if bits == 0 {
        crc
    } else {
        crc_bit(crc_bits(crc, (bits - 1) as nat))
    }
}

/// The checksum of the bytes before its last inversion.
pub open spec fn crc_of(data: Seq<u8>) -> u32
    decreases data.len(),
{
    if data.len() == 0 {
        0xFFFF_FFFF
    } else {
        crc_bits(crc_of(data.drop_last()) ^ (data.last() as u32), 8)
    }
}

/// CRC-32, as PNG uses it.
pub fn crc32(data: &[u8]) -> (r: u32)
    ensures
        r == !crc_of(data@),
{
    let mut crc: u32 = 0xFFFF_FFFF;
    let mut i: usize = 0;
    assert(data@.take(0) =~= Seq::<u8>::empty());
    while i < data.len()
        invariant
            i <= data@.len(),
            crc == crc_of(data@.take(i as int)),
        decreases data@.len() - i,
    {
        let ghost seen = data@.take(i + 1);
        assert(seen.drop_last() =~= data@.take(i as int));
        let start: u32 = crc ^ (data[i] as u32);
        crc = start;
        let mut bit: usize = 0;
        while bit < 8
            invariant
                bit <= 8,
                crc == crc_bits(start, bit as nat),
            decreases 8 - bit,
        {
            crc = if crc & 1 == 1 {
                (crc >> 1) ^ 0xEDB8_8320
            } else {
                crc >> 1
            };
            bit = bit + 1;
        }
        i = i + 1;
    }
    assert(data@.take(data@.len() as int) =~= data@);
    !crc
}

fn append(out: &mut Vec<u8>, data: &[u8])
    ensures
        final(out)@ == old(out)@ + data@,
{
    let ghost before = out@;
    let mut i: usize = 0;
    assert(before + data@.take(0) =~= before);
    while i < data.len()
        invariant
            i <= data@.len(),
            out@ == before + data@.take(i as int),
        decreases data@.len() - i,
    {
        out.push(data[i]);
        i = i + 1;
        assert(out@ =~= before + data@.take(i as int));
    }
    assert(data@.take(data@.len() as int) =~= data@);
}

fn append_number(out: &mut Vec<u8>, n: u32)
    ensures
        final(out)@ == old(out)@ + big_endian(n),
{
    let ghost before = out@;
    out.push((n / 0x100_0000) as u8);
    out.push((n / 0x1_0000 % 0x100) as u8);
    out.push((n / 0x100 % 0x100) as u8);
    out.push((n % 0x100) as u8);
    assert(out@ =~= before + big_endian(n));
}

/// A chunk of a PNG file: its length, its kind, its data and the checksum of the last two.
pub open spec fn chunk(kind: Seq<u8>, data: Seq<u8>) -> Seq<u8> {
    big_endian(data.len() as u32) + (kind + data) + big_endian(!crc_of(kind + data))
}

fn append_chunk(out: &mut Vec<u8>, kind: &[u8], data: &[u8])
    ensures
        final(out)@ == old(out)@ + chunk(kind@, data@),
{
    let ghost before = out@;
    let mut body: Vec<u8> = Vec::new();
    append(&mut body, kind);
    append(&mut body, data);
    assert(body@ =~= kind@ + data@);
    append_number(out, data.len() as u32);
    append(out, body.as_slice());
    append_number(out, crc32(body.as_slice()));
    assert(out@ =~= before + chunk(kind@, data@));
}

/// The rows of an image, each with the byte in front that says that it is not filtered.
pub open spec fn unfiltered(rgba: Seq<u8>, width: int, rows: int) -> Seq<u8>
    decreases rows,
{
    if rows <= 0 {
        Seq::empty()
    } else {
        unfiltered(rgba, width, rows - 1).push(0) + rgba.subrange(
            (rows - 1) * (width * 4),
            (rows - 1) * (width * 4) + width * 4,
        )
    }
}

/// Eight bits for each of red, green, blue and alpha; nothing is interlaced.
pub open spec fn header(width: u32, height: u32) -> Seq<u8> {
    big_endian(width) + big_endian(height) + seq![8u8, 6u8, 0u8, 0u8, 0u8]
}

/// A PNG file with the compressed rows of an image.
pub open spec fn png_file(width: u32, height: u32, compressed: Seq<u8>) -> Seq<u8> {
    seq![0x89u8, 0x50u8, 0x4Eu8, 0x47u8, 0x0Du8, 0x0Au8, 0x1Au8, 0x0Au8] + chunk(
        seq![0x49u8, 0x48u8, 0x44u8, 0x52u8],
        header(width, height),
    ) + chunk(seq![0x49u8, 0x44u8, 0x41u8, 0x54u8], compressed) + chunk(
        seq![0x49u8, 0x45u8, 0x4Eu8, 0x44u8],
        Seq::empty(),
    )
}

/// Puts a PNG file together, around rows that are compressed already.
pub fn assemble_png(compressed: &[u8], width: usize, height: usize) -> (r: Vec<u8>)
    requires
        width <= u32::MAX,
        height <= u32::MAX,
    ensures
        r@ == png_file(width as u32, height as u32, compressed@),
{
    let mut png: Vec<u8> = vec![0x89, 0x50, 0x4E, 0x47, 0x0D, 0x0A, 0x1A, 0x0A];
    let ghost start = png@;
    assert(start =~= seq![0x89u8, 0x50u8, 0x4Eu8, 0x47u8, 0x0Du8, 0x0Au8, 0x1Au8, 0x0Au8]);
    let mut fields: Vec<u8> = Vec::new();
    append_number(&mut fields, width as u32);
    append_number(&mut fields, height as u32);
    let modes: Vec<u8> = vec![8, 6, 0, 0, 0];
    assert(modes@ =~= seq![8u8, 6u8, 0u8, 0u8, 0u8]);
    append(&mut fields, modes.as_slice());
    assert(fields@ =~= header(width as u32, height as u32));
    let ihdr: Vec<u8> = vec![0x49, 0x48, 0x44, 0x52];
    let idat: Vec<u8> = vec![0x49, 0x44, 0x41, 0x54];
    let iend: Vec<u8> = vec![0x49, 0x45, 0x4E, 0x44];
    let nothing: Vec<u8> = Vec::new();
    assert(ihdr@ =~= seq![0x49u8, 0x48u8, 0x44u8, 0x52u8]);
    assert(idat@ =~= seq![0x49u8, 0x44u8, 0x41u8, 0x54u8]);
    assert(iend@ =~= seq![0x49u8, 0x45u8, 0x4Eu8, 0x44u8]);
    assert(nothing@ =~= Seq::<u8>::empty());
    append_chunk(&mut png, ihdr.as_slice(), fields.as_slice());
    append_chunk(&mut png, idat.as_slice(), compressed);
    append_chunk(&mut png, iend.as_slice(), nothing.as_slice());
    png
}

/// The rows of an image as they are compressed.
pub fn png_rows(rgba: &[u8], width: usize, height: usize) -> (r: Vec<u8>)
    requires
        is_image(rgba@, width as int, height as int),
    ensures
        r@ == unfiltered(rgba@, width as int, height as int),
{
    let bytes: usize = rgba.len();
    let ghost w = width as int;
    let ghost h = height as int;
    let mut raw: Vec<u8> = Vec::new();
    let mut y: usize = 0;
    let mut at: usize = 0;
    while y < height
        invariant
            w == width,
            h == height,
            rgba@.len() == bytes,
            is_image(rgba@, w, h),
            y <= height,
            at == y * (w * 4),
            raw@ == unfiltered(rgba@, w, y as int),
        decreases height - y,
    {
        proof {
            assert((y + 1) * (w * 4) == y * (w * 4) + w * 4) by (nonlinear_arith);
            assert((y + 1) * (w * 4) <= w * h * 4) by (nonlinear_arith)
                requires
                    0 <= y + 1 <= h,
                    0 <= w,
            ;
            assert(0 <= y * (w * 4)) by (nonlinear_arith)
                requires
                    0 <= y,
                    0 <= w,
            ;
        }
        let end: usize = at + width * 4;
        raw.push(0);
        let ghost before = raw@;
        let mut i: usize = at;
        while i < end
            invariant
                at <= i <= end,
                end <= rgba@.len(),
                raw@ == before + rgba@.subrange(at as int, i as int),
            decreases end - i,
        {
            raw.push(rgba[i]);
            i = i + 1;
            assert(raw@ =~= before + rgba@.subrange(at as int, i as int));
        }
        at = end;
        y = y + 1;
    }
    raw
}

/// Writes an image as a PNG file.
pub fn encode_png(rgba: &[u8], width: usize, height: usize) -> (r: Vec<u8>)
    requires
        is_image(rgba@, width as int, height as int),
        width <= u32::MAX,
        height <= u32::MAX,
    ensures
        r@ == png_file(
            width as u32,
            height as u32,
            adapters::zlib_fast(unfiltered(rgba@, width as int, height as int)),
        ),
{
    let rows = png_rows(rgba, width, height);
    let compressed = zlib(rows.as_slice());
    assemble_png(compressed.as_slice(), width, height)
}

// ---------------------------------------------------------------------------
// Blinking
// ---------------------------------------------------------------------------

/// A frame of the icon. The green one is the icon as it always is.
#[derive(Debug, Clone, Copy, PartialEq, Eq, Structural)]
pub enum Frame {
    Green,
    Red,
}

/// What is shown, and which frame is next.
#[derive(Debug, Clone, Copy, PartialEq, Eq, Structural)]
pub struct Blink {
    /// The icon blinks; the original has not been put back.
    pub animated: bool,
    pub red_next: bool,
}

/// One period later: while sessions run the frames alternate; afterwards the original icon
/// is put back once.
pub open spec fn blinked(b: Blink, running: bool) -> (Blink, Option<Frame>) {
    if running {
        (
            Blink { animated: true, red_next: !b.red_next },
            Some(
                if b.red_next {
                    Frame::Red
                } else {
                    Frame::Green
                },
            ),
        )
    } else if b.animated {
        (Blink { animated: false, ..b }, Some(Frame::Green))
    } else {
        (b, None)
    }
}

impl Blink {
    pub fn new() -> (r: Blink)
        ensures
            r == (Blink { animated: false, red_next: false }),
    {
        Blink { animated: false, red_next: false }
    }

    /// The frame to be shown after another period, if it changes.
    pub fn tick(&mut self, running: bool) -> (r: Option<Frame>)
        ensures
            (*final(self), r) == blinked(*old(self), running),
    {
        if running {
            let frame = if self.red_next {
                Frame::Red
            } else {
                Frame::Green
            };
            self.red_next = !self.red_next;
            self.animated = true;
            Some(frame)
        } else if self.animated {
            self.animated = false;
            Some(Frame::Green)
        } else {
            None
        }
    }
}

/// The icon after a frame was shown or not.
pub open spec fn shown_after(shown: Frame, frame: Option<Frame>) -> Frame {
    match frame {
        Some(f) => f,
        None => shown,
    }
}

/// Where no session runs the icon is the original: it is so from the first period without
/// one, and it is not set again.
pub proof fn the_icon_rests_when_nothing_runs(b: Blink, shown: Frame)
    requires
        !b.animated ==> shown == Frame::Green,
    ensures
        ({
            let (after, frame) = blinked(b, false);
            &&& shown_after(shown, frame) == Frame::Green
            &&& !after.animated
            &&& blinked(after, false) == (after, None::<Frame>)
        }),
{
}

/// While sessions run, green and red alternate.
pub proof fn the_frames_alternate(b: Blink)
    ensures
        ({
            let (next, first) = blinked(b, true);
            let (_, second) = blinked(next, true);
            first is Some && second is Some && first != second
        }),
{
}

// ---------------------------------------------------------------------------
// What becomes of an image
// ---------------------------------------------------------------------------

/// Where a byte of the pixel in column `x` and row `y` is, in an image of this width.
pub open spec fn byte_at(width: int, x: int, y: int, channel: int) -> int {
    4 * (y * width + x) + channel
}

/// The pixel of a halved image stands for the four pixels at its place: where they agree in a
/// colour, and one of them is visible, it has that colour, and where they agree in the alpha it
/// has that alpha. Where all of them are transparent, it is nothing at all.
pub proof fn a_pixel_stands_for_the_four_at_its_place(
    rgba: Seq<u8>,
    width: int,
    height: int,
    x: int,
    y: int,
    channel: int,
    value: u8,
)
    requires
        0 <= x < width / 2,
        0 <= y < height / 2,
        0 <= channel < 4,
        ({
            &&& rgba[byte_at(width, 2 * x, 2 * y, channel)] == value
            &&& rgba[byte_at(width, 2 * x + 1, 2 * y, channel)] == value
            &&& rgba[byte_at(width, 2 * x, 2 * y + 1, channel)] == value
            &&& rgba[byte_at(width, 2 * x + 1, 2 * y + 1, channel)] == value
        }),
    ensures
        halved(rgba, width, height).len() == (width / 2) * (height / 2) * 4,
        ({
            let visible = rgba[byte_at(width, 2 * x, 2 * y, 3)] > 0 || rgba[byte_at(
                width,
                2 * x + 1,
                2 * y,
                3,
            )] > 0 || rgba[byte_at(width, 2 * x, 2 * y + 1, 3)] > 0 || rgba[byte_at(
                width,
                2 * x + 1,
                2 * y + 1,
                3,
            )] > 0;
            let r = halved(rgba, width, height)[byte_at(width / 2, x, y, channel)];
            &&& channel == 3 ==> r == value
            &&& channel < 3 && visible ==> r == value
            &&& channel < 3 && !visible ==> r == 0
        }),
{
    let w = width / 2;
    let i = byte_at(w, x, y, channel);
    lemma_halved_place(width, height, x, y, channel);
    assert(corner(width, x, y, 0, 0) + channel == byte_at(width, 2 * x, 2 * y, channel));
    assert(corner(width, x, y, 1, 0) + channel == byte_at(width, 2 * x + 1, 2 * y, channel));
    assert(corner(width, x, y, 0, 1) + channel == byte_at(width, 2 * x, 2 * y + 1, channel));
    assert(corner(width, x, y, 1, 1) + channel == byte_at(width, 2 * x + 1, 2 * y + 1, channel));
    assert(corner(width, x, y, 0, 0) + 3 == byte_at(width, 2 * x, 2 * y, 3));
    assert(corner(width, x, y, 1, 0) + 3 == byte_at(width, 2 * x + 1, 2 * y, 3));
    assert(corner(width, x, y, 0, 1) + 3 == byte_at(width, 2 * x, 2 * y + 1, 3));
    assert(corner(width, x, y, 1, 1) + 3 == byte_at(width, 2 * x + 1, 2 * y + 1, 3));
    let alpha = alpha_sum(rgba, width, x, y);
    if channel < 3 {
        let a = rgba[corner(width, x, y, 0, 0) + 3] as int;
        let b = rgba[corner(width, x, y, 1, 0) + 3] as int;
        let c = rgba[corner(width, x, y, 0, 1) + 3] as int;
        let d = rgba[corner(width, x, y, 1, 1) + 3] as int;
        let v = value as int;
        assert(v * a + v * b + v * c + v * d == v * (a + b + c + d)) by (nonlinear_arith);
        assert(colour_sum(rgba, width, x, y, channel) == v * alpha);
        if alpha > 0 {
            assert((2 * (v * alpha) + alpha) / (2 * alpha) == v) by (nonlinear_arith)
                requires
                    alpha > 0,
            ;
        }
    }
}

proof fn lemma_halved_place(width: int, height: int, x: int, y: int, channel: int)
    requires
        0 <= x < width / 2,
        0 <= y < height / 2,
        0 <= channel < 4,
    ensures
        ({
            let w = width / 2;
            let i = byte_at(w, x, y, channel);
            &&& 0 <= i < w * (height / 2) * 4
            &&& i % 4 == channel
            &&& (i / 4) % w == x
            &&& (i / 4) / w == y
        }),
{
    let w = width / 2;
    let h = height / 2;
    let i = byte_at(w, x, y, channel);
    assert(0 <= y * w) by (nonlinear_arith)
        requires
            0 <= y,
            0 < w,
    ;
    assert(y * w + x < w * h) by (nonlinear_arith)
        requires
            0 <= x < w,
            0 <= y < h,
    ;
    assert(i / 4 == y * w + x);
    vstd::arithmetic::div_mod::lemma_fundamental_div_mod_converse(y * w + x, w, y, x);
}

/// An icon is halved only while both its sides are longer than 256: at the end the shorter one
/// is not, and it is still longer than 127 if it was halved at all.
pub proof fn an_icon_comes_to_the_working_size(rgba: Seq<u8>, width: int, height: int)
    requires
        0 <= width && 0 <= height,
    ensures
        ({
            let (pixels, w, h) = at_working_size(rgba, width, height);
            &&& w <= 256 || h <= 256
            &&& w <= width && h <= height
            &&& width <= 256 || height <= 256 ==> pixels == rgba && w == width && h == height
            &&& width > 256 && height > 256 ==> w >= 128 && h >= 128 && (w < width && h < height)
        }),
    decreases width,
{
    if 256 < width && 256 < height {
        an_icon_comes_to_the_working_size(halved(rgba, width, height), width / 2, height / 2);
    }
}

/// The picture takes four fifths of the canvas, to the nearest pixel.
pub proof fn a_picture_takes_four_fifths(size: int)
    requires
        size > 0,
    ensures
        1 <= content_side_of(size) <= size,
        size >= 2 ==> -5 <= 10 * content_side_of(size) - 8 * size <= 5,
{
}

/// The picture stands in the middle of its canvas, pixel for pixel, with the same margin on all
/// sides, to one pixel; around it the canvas is transparent.
pub proof fn a_picture_stands_in_the_middle(
    picture: Seq<u8>,
    content: int,
    size: int,
    x: int,
    y: int,
    channel: int,
)
    requires
        0 < content <= size,
        0 <= x < size,
        0 <= y < size,
        0 <= channel < 4,
    ensures
        embedded(picture, content, size).len() == size * size * 4,
        ({
            let left = (size - content) / 2;
            let right = size - content - left;
            let r = embedded(picture, content, size)[byte_at(size, x, y, channel)];
            &&& 0 <= right - left <= 1
            &&& left <= x < left + content && left <= y < left + content ==> r == picture[byte_at(
                content,
                x - left,
                y - left,
                channel,
            )]
            &&& !(left <= x < left + content && left <= y < left + content) ==> r == 0
        }),
{
    let i = byte_at(size, x, y, channel);
    assert(0 <= y * size) by (nonlinear_arith)
        requires
            0 <= y,
            0 < size,
    ;
    assert(y * size + x < size * size) by (nonlinear_arith)
        requires
            0 <= x < size,
            0 <= y < size,
    ;
    assert(0 <= size * size * 4);
    assert(i / 4 == y * size + x);
    assert(i % 4 == channel);
    vstd::arithmetic::div_mod::lemma_fundamental_div_mod_converse(y * size + x, size, y, x);
}

/// A pixel of the lower right quarter that is visible and clearly green belongs to the button;
/// no other one does, unless none is green.
pub proof fn the_green_pixels_are_the_button(
    rgba: Seq<u8>,
    width: int,
    height: int,
    x: int,
    y: int,
)
    requires
        0 <= x < width,
        0 <= y < height,
    ensures
        ({
            let red = rgba[byte_at(width, x, y, 0)];
            let green = rgba[byte_at(width, x, y, 1)];
            let blue = rgba[byte_at(width, x, y, 2)];
            let alpha = rgba[byte_at(width, x, y, 3)];
            green_pixels(rgba, width, height).contains(byte_at(width, x, y, 0)) <==> x >= width / 2
                && y >= height / 2 && alpha > 60 && green > 110 && green > red + 14 && green > blue
                + 10
        }),
        disc_pixels(width, height).contains(byte_at(width, x, y, 0)) <==> x >= width / 2 && y
            >= height / 2 && in_disc(width, height, y * width + x),
{
    let p = y * width + x;
    lemma_pixel_place(width, height, x, y);
    lemma_corner_holds(width, height, width * height, |q: int| is_green(rgba, q), p);
    lemma_corner_holds(width, height, width * height, |q: int| in_disc(width, height, q), p);
}

proof fn lemma_pixel_place(width: int, height: int, x: int, y: int)
    requires
        0 <= x < width,
        0 <= y < height,
    ensures
        0 <= y * width + x < width * height,
        (y * width + x) % width == x,
        (y * width + x) / width == y,
{
    assert(0 <= y * width) by (nonlinear_arith)
        requires
            0 <= y,
            0 < width,
    ;
    assert(y * width + x < width * height) by (nonlinear_arith)
        requires
            0 <= x < width,
            0 <= y < height,
    ;
    vstd::arithmetic::div_mod::lemma_fundamental_div_mod_converse(y * width + x, width, y, x);
}

proof fn lemma_corner_holds(
    width: int,
    height: int,
    pixels: int,
    wanted: spec_fn(int) -> bool,
    pixel: int,
)
    requires
        0 <= pixel,
    ensures
        corner_pixels(width, height, pixels, wanted).contains(4 * pixel) <==> pixel < pixels
            && in_corner(width, height, pixel) && wanted(pixel),
    decreases pixels,
{
    let found = corner_pixels(width, height, pixels, wanted);
    if pixels > 0 {
        lemma_corner_holds(width, height, pixels - 1, wanted, pixel);
        let front = corner_pixels(width, height, pixels - 1, wanted);
        if in_corner(width, height, pixels - 1) && wanted(pixels - 1) {
            assert(found[front.len() as int] == 4 * (pixels - 1));
            if front.contains(4 * pixel) {
                let k = choose|k: int| 0 <= k < front.len() && front[k] == 4 * pixel;
                assert(found[k] == 4 * pixel);
            }
            if found.contains(4 * pixel) && pixel != pixels - 1 {
                let k = choose|k: int| 0 <= k < found.len() && found[k] == 4 * pixel;
                assert(front[k] == 4 * pixel);
            }
        }
    }
}

/// A button that is not found by its colour is looked for in a disc around 0.73 of the shorter
/// side, with 0.12 of it as the radius: its centre belongs to it, and nothing farther away than
/// the radius does.
pub proof fn the_disc_has_its_place(width: int, height: int, x: int, y: int)
    requires
        0 <= x < width,
        0 <= y < height,
    ensures
        ({
            let side = if width < height {
                width
            } else {
                height
            };
            let held = in_disc(width, height, y * width + x);
            &&& 100 * x == 73 * side && 100 * y == 73 * side ==> held
            &&& 100 * x > 85 * side || 100 * x < 61 * side || 100 * y > 85 * side || 100 * y < 61
                * side ==> !held
            &&& 100 * y == 73 * side && 61 * side <= 100 * x <= 85 * side ==> held
        }),
{
    lemma_pixel_place(width, height, x, y);
    let side = if width < height {
        width
    } else {
        height
    };
    let dx = 100 * x - 73 * side;
    let dy = 100 * y - 73 * side;
    if dx > 12 * side || dx < -(12 * side) || dy > 12 * side || dy < -(12 * side) {
        lemma_outside(dx, dy, 12 * side);
    }
    if -(12 * side) <= dx <= 12 * side {
        lemma_inside(dx, 12 * side);
    }
    assert(dy == 0 ==> dy * dy == 0) by (nonlinear_arith);
    assert(dx == 0 ==> dx * dx == 0) by (nonlinear_arith);
    assert(0 <= (12 * side) * (12 * side)) by (nonlinear_arith);
}

/// A number is written in four bytes, the highest first.
pub proof fn a_number_is_written_highest_byte_first(n: u32)
    ensures
        big_endian(n).len() == 4,
        n == big_endian(n)[0] * 0x100_0000 + big_endian(n)[1] * 0x1_0000 + big_endian(n)[2] * 0x100
            + big_endian(n)[3],
{
    let a = n / 0x100_0000;
    let b = n / 0x1_0000 % 0x100;
    let c = n / 0x100 % 0x100;
    let d = n % 0x100;
    assert(a < 256 && b < 256 && c < 256 && d < 256);
    assert(n == a * 0x100_0000 + b * 0x1_0000 + c * 0x100 + d) by (bit_vector)
        requires
            a == n / 0x100_0000,
            b == n / 0x1_0000 % 0x100,
            c == n / 0x100 % 0x100,
            d == n % 0x100,
    ;
}

/// The rows of an image stand one below the other, each behind a zero.
pub proof fn the_rows_follow_each_other(rgba: Seq<u8>, width: int, rows: int, row: int, at: int)
    requires
        0 <= row < rows,
        0 <= at < width * 4,
        rows * (width * 4) <= rgba.len(),
    ensures
        unfiltered(rgba, width, rows).len() == rows * (width * 4 + 1),
        unfiltered(rgba, width, rows)[row * (width * 4 + 1)] == 0,
        unfiltered(rgba, width, rows)[row * (width * 4 + 1) + 1 + at] == rgba[row * (width * 4)
            + at],
    decreases rows,
{
    let line = width * 4;
    let front = unfiltered(rgba, width, rows - 1);
    let start = (rows - 1) * line;
    assert(start + line == rows * line) by (nonlinear_arith)
        requires
            start == (rows - 1) * line,
    ;
    assert((rows - 1) * line >= 0) by (nonlinear_arith)
        requires
            rows >= 1,
            line >= 0,
    ;
    lemma_rows(rgba, width, rows);
    lemma_rows(rgba, width, rows - 1);
    let last = rgba.subrange(start, start + line);
    let all = unfiltered(rgba, width, rows);
    assert(all == front.push(0) + last);
    if row < rows - 1 {
        the_rows_follow_each_other(rgba, width, rows - 1, row, at);
        assert(row * (line + 1) + 1 + at < (rows - 1) * (line + 1)) by (nonlinear_arith)
            requires
                0 <= row < rows - 1,
                0 <= at < line,
        ;
        assert(row * (line + 1) >= 0) by (nonlinear_arith)
            requires
                row >= 0,
                line >= 0,
        ;
        assert(all[row * (line + 1)] == front[row * (line + 1)]);
        assert(all[row * (line + 1) + 1 + at] == front[row * (line + 1) + 1 + at]);
    } else {
        assert(all[front.len() as int] == 0);
        assert(all[front.len() + 1 + at] == last[at]);
        assert(last[at] == rgba[start + at]);
    }
}

proof fn lemma_rows(rgba: Seq<u8>, width: int, rows: int)
    requires
        0 <= rows,
        0 <= width,
        rows * (width * 4) <= rgba.len(),
    ensures
        unfiltered(rgba, width, rows).len() == rows * (width * 4 + 1),
    decreases rows,
{
    let line = width * 4;
    if rows > 0 {
        assert((rows - 1) * line + line == rows * line && (rows - 1) * line >= 0) by (nonlinear_arith)
            requires
                rows >= 1,
                line >= 0,
        ;
        lemma_rows(rgba, width, rows - 1);
        let start = (rows - 1) * line;
        assert(rgba.subrange(start, start + line).len() == line);
        assert((rows - 1) * (line + 1) + 1 + line == rows * (line + 1)) by (nonlinear_arith);
    } else {
        assert(rows * (line + 1) == 0) by (nonlinear_arith)
            requires
                rows == 0,
        ;
    }
}

/// A chunk gives the length of its data, its kind, the data and a checksum of four bytes; a
/// file is its signature with the header, the rows and the end.
pub proof fn a_chunk_gives_its_length_and_kind(kind: Seq<u8>, data: Seq<u8>)
    requires
        kind.len() == 4,
        data.len() <= u32::MAX,
    ensures
        ({
            let c = chunk(kind, data);
            &&& c.len() == 12 + data.len()
            &&& c[0] * 0x100_0000 + c[1] * 0x1_0000 + c[2] * 0x100 + c[3] == data.len()
            &&& c.subrange(4, 8) == kind
            &&& c.subrange(8, 8 + data.len() as int) == data
            &&& c.skip(8 + data.len() as int) == big_endian(!crc_of(kind + data))
        }),
{
    let c = chunk(kind, data);
    let n = data.len() as u32;
    a_number_is_written_highest_byte_first(n);
    assert(c[0] == big_endian(n)[0] && c[1] == big_endian(n)[1]);
    assert(c[2] == big_endian(n)[2] && c[3] == big_endian(n)[3]);
    assert(c.subrange(4, 8) =~= kind);
    assert(c.subrange(8, 8 + data.len() as int) =~= data);
    assert(c.skip(8 + data.len() as int) =~= big_endian(!crc_of(kind + data)));
}

/// A checksum tells its last byte: two texts that differ in nothing else have different ones.
pub proof fn a_checksum_tells_the_last_byte(data: Seq<u8>, a: u8, b: u8)
    requires
        a != b,
    ensures
        crc_of(data.push(a)) != crc_of(data.push(b)),
{
    let crc = crc_of(data);
    assert(data.push(a).drop_last() =~= data);
    assert(data.push(b).drop_last() =~= data);
    let x = crc ^ (a as u32);
    let y = crc ^ (b as u32);
    assert(x != y) by (bit_vector)
        requires
            x == crc ^ (a as u32),
            y == crc ^ (b as u32),
            a != b,
    ;
    lemma_bits_differ(x, y, 8);
}

proof fn lemma_bits_differ(x: u32, y: u32, bits: nat)
    requires
        x != y,
    ensures
        crc_bits(x, bits) != crc_bits(y, bits),
    decreases bits,
{
    if bits > 0 {
        lemma_bits_differ(x, y, (bits - 1) as nat);
        let p = crc_bits(x, (bits - 1) as nat);
        let q = crc_bits(y, (bits - 1) as nat);
        assert(crc_bit(p) != crc_bit(q)) by (bit_vector)
            requires
                p != q,
        ;
    }
}

/// The icon blinks while sessions run: the frame that is next is shown, and the other one is
/// next.
pub proof fn the_next_frame_is_shown(b: Blink)
    ensures
        ({
            let (after, frame) = blinked(b, true);
            &&& frame == Some(
                if b.red_next {
                    Frame::Red
                } else {
                    Frame::Green
                },
            )
            &&& after.animated && after.red_next == !b.red_next
        }),
        b.animated ==> blinked(b, false).1 == Some(Frame::Green),
        !b.animated ==> blinked(b, false).1 is None,
{
}

} // verus!
