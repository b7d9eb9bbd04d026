//! Synthetic images for benchmarks: neither noise nor natural, just not
//! constant, and a function of the coordinates alone.

use crate::buffer::{lemma_index_in_grid, Image};
use crate::pixel::{PixelKind, Subpixel};
use vstd::prelude::*;

verus! {

/// The intensity of the grayscale benchmark image, and the red channel of
/// the color one, at column `x`, row `y`.
pub open spec fn bench_intensity(x: int, y: int) -> int {
    x % 7 + y % 6
}

/// The benchmark pixel at `(x, y)`: one channel, or red, green and blue
/// with green the complement of red and blue the smaller of the two.
pub open spec fn bench_pixel_spec(x: int, y: int, color: bool) -> Seq<i64> {
    let red = bench_intensity(x, y);
    let green = 255 - red;
    if color {
        seq![red as i64, green as i64, (if red <= green { red } else { green }) as i64]
    } else {
        seq![red as i64]
    }
}

/// `img` is the `w` by `h` benchmark image, in color or not.
pub open spec fn is_bench_image(img: Image, w: int, h: int, color: bool) -> bool {
    &&& img.wf()
    &&& img.width == w
    &&& img.height == h
    &&& img.kind.channels == (if color { 3usize } else { 1usize })
    &&& img.kind.subpixel == Subpixel::U8
    &&& forall|x: int, y: int|
        0 <= x < w && 0 <= y < h ==> #[trigger] img.at(x, y) == bench_pixel_spec(x, y, color)
}

fn bench_pixel(x: u32, y: u32, color: bool) -> (r: Vec<i64>)
    ensures
        r@ == bench_pixel_spec(x as int, y as int, color),
{
    let red: u8 = (x % 7 + y % 6) as u8;
    if color {
        let green: u8 = 255u8 - red;
        let blue: u8 = if red <= green { red } else { green };
        let r = vec![red as i64, green as i64, blue as i64];
        assert(r@ =~= bench_pixel_spec(x as int, y as int, color));
        r
    } else {
        let r = vec![red as i64];
        assert(r@ =~= bench_pixel_spec(x as int, y as int, color));
        r
    }
}

fn bench_image(width: u32, height: u32, color: bool) -> (r: Image)
    requires
        width * height <= usize::MAX,
    ensures
        is_bench_image(r, width as int, height as int, color),
{
    let kind = if color { PixelKind::rgb(Subpixel::U8) } else { PixelKind::gray(Subpixel::U8) };
    let ghost w = width as int;
    let mut pixels: Vec<Vec<i64>> = Vec::new();
    let mut y: u32 = 0;
    while y < height
        invariant
            w == width,
            kind.channels == (if color { 3usize } else { 1usize }),
            kind.subpixel == Subpixel::U8,
            y <= height,
            pixels@.len() == y * w,
            forall|i: int| 0 <= i < pixels@.len() ==> kind.admits(#[trigger] pixels@[i]@),
            forall|x: int, j: int|
                0 <= x < w && 0 <= j < y ==> #[trigger] pixels@[j * w + x]@ == bench_pixel_spec(
                    x,
                    j,
                    color,
                ),
        decreases height - y,
    {
        let mut x: u32 = 0;
        while x < width
            invariant
                w == width,
                kind.channels == (if color { 3usize } else { 1usize }),
                kind.subpixel == Subpixel::U8,
                y < height,
                x <= width,
                pixels@.len() == y * w + x,
                forall|i: int| 0 <= i < pixels@.len() ==> kind.admits(#[trigger] pixels@[i]@),
                forall|xx: int, j: int|
                    0 <= xx < w && 0 <= j < y ==> #[trigger] pixels@[j * w + xx]@
                        == bench_pixel_spec(xx, j, color),
                forall|xx: int| 0 <= xx < x ==> #[trigger] pixels@[y * w + xx]@ == bench_pixel_spec(
                    xx,
                    y as int,
                    color,
                ),
            decreases width - x,
        {
            let p = bench_pixel(x, y, color);
            assert(kind.admits(p@));
            let ghost before = pixels@;
            pixels.push(p);
            assert forall|xx: int, j: int| 0 <= xx < w && 0 <= j < y implies #[trigger] pixels@[j
                * w + xx]@ == bench_pixel_spec(xx, j, color) by {
                lemma_index_in_grid(xx, j, w, y as int);
                assert(pixels@[j * w + xx] == before[j * w + xx]);
            }
            x += 1;
        }
        assert((y + 1) * w == y * w + w) by (nonlinear_arith);
        y += 1;
    }
    assert(pixels@.len() == w * height) by (nonlinear_arith)
        requires
            pixels@.len() == y * w,
            y == height,
    ;
    let img = Image { width, height, kind, pixels };
    assert forall|x: int, yy: int| 0 <= x < w && 0 <= yy < height implies #[trigger] img.at(x, yy)
        == bench_pixel_spec(x, yy, color) by {}
    img
}

/// The grayscale benchmark image: pixel `(x, y)` has intensity
/// `x % 7 + y % 6`.
pub fn gray_bench_image(width: u32, height: u32) -> (r: Image)
    requires
        width * height <= usize::MAX,
    ensures
        is_bench_image(r, width as int, height as int, false),
{
    bench_image(width, height, false)
}

/// The color benchmark image: at `(x, y)` red is `x % 7 + y % 6`, green is
/// `255 - red` and blue the smaller of the two.
pub fn rgb_bench_image(width: u32, height: u32) -> (r: Image)
    requires
        width * height <= usize::MAX,
    ensures
        is_bench_image(r, width as int, height as int, true),
{
    bench_image(width, height, true)
}

/// Two benchmark images of the same size and kind hold the same pixels.
pub proof fn lemma_bench_deterministic(a: Image, b: Image, w: int, h: int, color: bool)
    requires
        is_bench_image(a, w, h, color),
        is_bench_image(b, w, h, color),
    ensures
        a.width == b.width,
        a.height == b.height,
        a.kind == b.kind,
        a.pixels@.len() == b.pixels@.len(),
        forall|i: int| 0 <= i < a.pixels@.len() ==> #[trigger] a.px(i) == b.px(i),
{
    assert forall|i: int| 0 <= i < a.pixels@.len() implies #[trigger] a.px(i) == b.px(i) by {
        let x = i % w;
        let y = i / w;
        vstd::arithmetic::div_mod::lemma_fundamental_div_mod(i, w);
        assert(0 <= y < h) by (nonlinear_arith)
            requires
                i == w * y + x,
                0 <= x < w,
                0 <= i < w * h,
        ;
        assert(y * w + x == i) by (nonlinear_arith)
            requires
                i == w * y + x,
        ;
        assert(a.at(x, y) == b.at(x, y));
    }
}

} // verus!
