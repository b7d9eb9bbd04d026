//! Small random buffers for property-based tests, and the search that
//! shrinks a failing buffer towards a minimal one by trimming an edge row
//! or column at a time.

use crate::buffer::{lemma_index_in_grid, Image};
use crate::pixel::{copy_pixel, draw_u8, PixelKind};
use quickcheck::Gen;
use vstd::prelude::*;

verus! {

/// A rectangle of a buffer: left column, top row, width, height.
pub type Rect = (int, int, int, int);

/// `s` holds the pixels of `img` inside `rect`, with `img`'s encoding.
pub open spec fn is_sub_image(s: Image, img: Image, rect: Rect) -> bool {
    &&& s.wf()
    &&& s.kind == img.kind
    &&& s.width == rect.2
    &&& s.height == rect.3
    &&& forall|dx: int, dy: int|
        0 <= dx < rect.2 && 0 <= dy < rect.3 ==> #[trigger] s.at(dx, dy) == img.at(
            rect.0 + dx,
            rect.1 + dy,
        )
}

/// The rectangles that shrinking a `w` by `h` buffer keeps, in order: all
/// but the last column, all but the first column, all but the last row,
/// all but the first row. A buffer without columns loses no column, one
/// without rows loses no row.
pub open spec fn shrink_plan(w: int, h: int) -> Seq<Rect> {
    (if w > 0 {
        seq![(0, 0, w - 1, h), (1, 0, w - 1, h)]
    } else {
        Seq::empty()
    }) + (if h > 0 {
        seq![(0, 0, w, h - 1), (0, 1, w, h - 1)]
    } else {
        Seq::empty()
    })
}

/// A copy of the `width` by `height` rectangle of `image` whose top left
/// pixel is `(x, y)`.
pub fn copy_sub(image: &Image, x: u32, y: u32, width: u32, height: u32) -> (r: Image)
    requires
        image.wf(),
        x + width <= image.width,
        y + height <= image.height,
    ensures
        is_sub_image(r, *image, (x as int, y as int, width as int, height as int)),
{
    let ghost w = width as int;
    let ghost big_w = image.width as int;
    let ghost big_h = image.height as int;
    let stride = image.width as usize;
    let n = image.pixels.len();
    let mut pixels: Vec<Vec<i64>> = Vec::new();
    let mut dy: u32 = 0;
    while dy < height
        invariant
            image.wf(),
            w == width,
            big_w == image.width,
            big_h == image.height,
            stride == image.width,
            n == image.pixels@.len(),
            x + width <= image.width,
            y + height <= image.height,
            dy <= height,
            pixels@.len() == dy * w,
            forall|i: int| 0 <= i < pixels@.len() ==> image.kind.admits(#[trigger] pixels@[i]@),
            forall|xx: int, j: int|
                0 <= xx < w && 0 <= j < dy ==> #[trigger] pixels@[j * w + xx]@ == image.at(
                    x + xx,
                    y + j,
                ),
        decreases height - dy,
    {
        let oy = y + dy;
        let mut dx: u32 = 0;
        while dx < width
            invariant
                image.wf(),
                w == width,
                big_w == image.width,
                big_h == image.height,
                stride == image.width,
                n == image.pixels@.len(),
                x + width <= image.width,
                y + height <= image.height,
                dy < height,
                oy == y + dy,
                dx <= width,
                pixels@.len() == dy * w + dx,
                forall|i: int| 0 <= i < pixels@.len() ==> image.kind.admits(#[trigger] pixels@[i]@),
                forall|xx: int, j: int|
                    0 <= xx < w && 0 <= j < dy ==> #[trigger] pixels@[j * w + xx]@ == image.at(
                        x + xx,
                        y + j,
                    ),
                forall|xx: int| 0 <= xx < dx ==> #[trigger] pixels@[dy * w + xx]@ == image.at(
                    x + xx,
                    oy as int,
                ),
            decreases width - dx,
        {
            let ox = x + dx;
            proof {
                lemma_index_in_grid(ox as int, oy as int, big_w, big_h);
            }
            let p = copy_pixel(&image.pixels[(oy as usize) * stride + (ox as usize)]);
            let ghost before = pixels@;
            pixels.push(p);
            assert forall|xx: int, j: int| 0 <= xx < w && 0 <= j < dy implies #[trigger] pixels@[j
                * w + xx]@ == image.at(x + xx, y + j) by {
                lemma_index_in_grid(xx, j, w, dy as int);
                assert(pixels@[j * w + xx] == before[j * w + xx]);
            }
            dx += 1;
        }
        assert((dy + 1) * w == dy * w + w) by (nonlinear_arith);
        dy += 1;
    }
    assert(pixels@.len() == w * height) by (nonlinear_arith)
        requires
            pixels@.len() == dy * w,
            dy == height,
    ;
    let r = Image { width, height, kind: image.kind, pixels };
    assert forall|xx: int, yy: int| 0 <= xx < w && 0 <= yy < height implies #[trigger] r.at(xx, yy)
        == image.at(x + xx, y + yy) by {}
    r
}

/// The candidates that replace a failing buffer in the search for a
/// minimal one: the rectangles of `shrink_plan`, each copied out of
/// `image`. Each is one row or one column smaller; a buffer with neither
/// rows nor columns has none.
pub fn shrink(image: &Image) -> (r: Vec<Image>)
    requires
        image.wf(),
    ensures
        r@.len() == shrink_plan(image.width as int, image.height as int).len(),
        forall|k: int|
            0 <= k < r@.len() ==> is_sub_image(
                #[trigger] r@[k],
                *image,
                shrink_plan(image.width as int, image.height as int)[k],
            ),
{
    let ghost plan = shrink_plan(image.width as int, image.height as int);
    let mut subs: Vec<Image> = Vec::new();
    let w = image.width;
    let h = image.height;
    if w > 0 {
        let left = copy_sub(image, 0, 0, w - 1, h);
        subs.push(left);
        let right = copy_sub(image, 1, 0, w - 1, h);
        subs.push(right);
    }
    let ghost cols = subs@.len();
    if h > 0 {
        let top = copy_sub(image, 0, 0, w, h - 1);
        subs.push(top);
        let bottom = copy_sub(image, 0, 1, w, h - 1);
        subs.push(bottom);
    }
    assert(plan.len() == subs@.len());
    assert forall|k: int| 0 <= k < subs@.len() implies is_sub_image(
        #[trigger] subs@[k],
        *image,
        plan[k],
    ) by {
        if k < cols {
        } else {
        }
    }
    subs
}

/// The dimensions that `shrink_plan` gives its candidates.
pub open spec fn shrink_dims(w: int, h: int) -> Seq<(int, int)> {
    shrink_plan(w, h).map_values(|rect: Rect| (rect.2, rect.3))
}

/// The dimensions reached from `(w, h)` by taking the first candidate `n`
/// times, or stopping early where there is none.
pub open spec fn first_shrinks(w: int, h: int, n: nat) -> (int, int)
    decreases n,
{
    if n == 0 || shrink_dims(w, h).len() == 0 {
        (w, h)
    } else {
        let next = shrink_dims(w, h)[0];
        first_shrinks(next.0, next.1, (n - 1) as nat)
    }
}

/// Shrinking ends: every candidate is smaller than its parent by exactly
/// one in `width + height`, so no chain of candidates is longer than
/// `width + height`; only a buffer with neither columns nor rows has no
/// candidate; and following the first candidate `width + height` times
/// reaches that 0 by 0 buffer.
pub proof fn lemma_shrink_terminates(w: nat, h: nat)
    ensures
        forall|k: int|
            0 <= k < shrink_dims(w as int, h as int).len() ==> {
                let d = #[trigger] shrink_dims(w as int, h as int)[k];
                &&& 0 <= d.0 && 0 <= d.1
                &&& d.0 + d.1 == w + h - 1
            },
        shrink_dims(w as int, h as int).len() == 0 <==> (w == 0 && h == 0),
        first_shrinks(w as int, h as int, w + h) == (0int, 0int),
    decreases w + h,
{
    if w > 0 {
        lemma_shrink_terminates((w - 1) as nat, h);
        assert(shrink_dims(w as int, h as int)[0] == ((w - 1) as int, h as int));
    } else if h > 0 {
        lemma_shrink_terminates(w, (h - 1) as nat);
        assert(shrink_dims(w as int, h as int)[0] == (w as int, (h - 1) as int));
    }
}

/// A pixel buffer as property-based tests generate and shrink it.
#[derive(Clone, Debug)]
pub struct TestBuffer(pub Image);

/// Width and height from two random bytes: each byte modulo ten.
pub fn dimensions_from_bytes(a: u8, b: u8) -> (r: (u32, u32))
    ensures
        r == ((a % 10) as u32, (b % 10) as u32),
{
    ((a % 10) as u32, (b % 10) as u32)
}

/// Small random dimensions: two bytes drawn from `g`, each modulo ten.
pub fn small_image_dimensions(g: &mut Gen) -> (r: (u32, u32))
    ensures
        r.0 < 10,
        r.1 < 10,
{
    let a = draw_u8(g);
    let b = draw_u8(g);
    dimensions_from_bytes(a, b)
}

impl TestBuffer {
    /// A random buffer of encoding `kind`, at most 9 by 9: its dimensions
    /// come first from `g`, then one random pixel per position, row after
    /// row.
    pub fn arbitrary(kind: &PixelKind, g: &mut Gen) -> (r: TestBuffer)
        ensures
            r.0.wf(),
            r.0.kind == *kind,
            r.0.width < 10,
            r.0.height < 10,
    {
        let (width, height) = small_image_dimensions(g);
        let ghost w = width as int;
        let mut pixels: Vec<Vec<i64>> = Vec::new();
        let mut y: u32 = 0;
        while y < height
            invariant
                w == width,
                width < 10,
                y <= height,
                pixels@.len() == y * w,
                forall|i: int| 0 <= i < pixels@.len() ==> kind.admits(#[trigger] pixels@[i]@),
            decreases height - y,
        {
            let mut x: u32 = 0;
            while x < width
                invariant
                    w == width,
                    width < 10,
                    y < height,
                    x <= width,
                    pixels@.len() == y * w + x,
                    forall|i: int| 0 <= i < pixels@.len() ==> kind.admits(#[trigger] pixels@[i]@),
                decreases width - x,
            {
                let p = kind.random_pixel(g);
                pixels.push(p);
                x += 1;
            }
            assert((y + 1) * w == y * w + w) by (nonlinear_arith);
            y += 1;
        }
        assert(pixels@.len() == w * height) by (nonlinear_arith)
            requires
                pixels@.len() == y * w,
                y == height,
        ;
        TestBuffer(Image { width, height, kind: *kind, pixels })
    }

    /// The smaller candidates for this buffer, as `shrink` builds them.
    pub fn shrink(&self) -> (r: Vec<TestBuffer>)
        requires
            self.0.wf(),
        ensures
            r@.len() == shrink_plan(self.0.width as int, self.0.height as int).len(),
            forall|k: int|
                0 <= k < r@.len() ==> is_sub_image(
                    (#[trigger] r@[k]).0,
                    self.0,
                    shrink_plan(self.0.width as int, self.0.height as int)[k],
                ),
    {
        let mut subs = shrink(&self.0);
        let ghost all = subs@;
        let mut out: Vec<TestBuffer> = Vec::new();
        while subs.len() > 0
            invariant
                out@.len() <= all.len(),
                subs@ == all.subrange(out@.len() as int, all.len() as int),
                forall|j: int| 0 <= j < out@.len() ==> (#[trigger] out@[j]).0 == all[j],
            decreases subs@.len(),
        {
            let img = subs.remove(0);
            out.push(TestBuffer(img));
            assert(subs@ =~= all.subrange(out@.len() as int, all.len() as int));
        }
        out
    }
}

} // verus!
