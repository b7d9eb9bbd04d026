//! Rectangular pixel buffers in row-major order.

use crate::pixel::{PixelKind, Subpixel};
use vstd::prelude::*;

verus! {

/// A `width` by `height` grid of pixels, stored row after row. Pixel
/// `(x, y)` stands at index `y * width + x` of `pixels`.
#[derive(Clone, Debug)]
pub struct Image {
    pub width: u32,
    pub height: u32,
    pub kind: PixelKind,
    pub pixels: Vec<Vec<i64>>,
}

/// Why a buffer could not be built from rows of values.
#[derive(PartialEq, Eq, Structural, Clone, Copy, Debug)]
pub enum BuildError {
    /// Not all rows have the length of the first.
    ShapeMismatch,
    /// A value does not fit the channel type.
    OutOfRange,
}

/// `y * w + x < w * h` for a position inside a `w` by `h` grid.
pub proof fn lemma_index_in_grid(x: int, y: int, w: int, h: int)
    requires
        0 <= x < w,
        0 <= y < h,
    ensures
        0 <= y * w + x < w * h,
        y * w + x < h * w,
{
    assert(y * w + x < w * h) by (nonlinear_arith)
        requires
            0 <= x < w,
            0 <= y < h,
    ;
    assert(w * h == h * w) by (nonlinear_arith);
    assert(0 <= y * w) by (nonlinear_arith)
        requires
            0 <= y,
            0 <= w,
    ;
}

impl Image {
    /// The pixel count is `width * height` and every pixel has the buffer's
    /// encoding.
    pub open spec fn wf(&self) -> bool {
        &&& self.pixels@.len() == self.width * self.height
        &&& forall|i: int|
            0 <= i < self.pixels@.len() ==> self.kind.admits(#[trigger] self.pixels@[i]@)
    }

    /// The pixel at index `i` of the row-major order.
    pub open spec fn px(&self, i: int) -> Seq<i64> {
        self.pixels@[i]@
    }

    /// The pixel at column `x`, row `y`.
    pub open spec fn at(&self, x: int, y: int) -> Seq<i64> {
        self.px(y * self.width + x)
    }

    pub open spec fn empty_spec(&self) -> bool {
        self.width == 0 || self.height == 0
    }

    /// The width and the height.
    pub fn dimensions(&self) -> (r: (u32, u32))
        ensures
            r == (self.width, self.height),
    {
        (self.width, self.height)
    }

    /// Whether the buffer has no pixels, by having no rows or no columns.
    pub fn is_empty(&self) -> (r: bool)
        ensures
            r == self.empty_spec(),
    {
        self.width == 0 || self.height == 0
    }

    /// The pixel at column `x`, row `y`.
    pub fn get_pixel(&self, x: u32, y: u32) -> (r: &Vec<i64>)
        requires
            self.wf(),
            x < self.width,
            y < self.height,
        ensures
            r@ == self.at(x as int, y as int),
    {
        let n = self.pixels.len();
        proof {
            lemma_index_in_grid(x as int, y as int, self.width as int, self.height as int);
            assert(n == self.pixels@.len());
        }
        &self.pixels[(y as usize) * (self.width as usize) + (x as usize)]
    }

    /// A grayscale buffer from its rows: as many rows as `rows` holds, each
    /// as wide as the first. Fails when a row has another length, or when a
    /// value does not fit `subpixel`.
    pub fn from_rows(subpixel: Subpixel, rows: &Vec<Vec<i64>>) -> (r: Result<Image, BuildError>)
        requires
            rows@.len() <= u32::MAX,
            rows@.len() > 0 ==> rows@[0]@.len() <= u32::MAX,
        ensures
            ({
                let w = if rows@.len() == 0 { 0 } else { rows@[0]@.len() };
                match r {
                    Ok(img) => {
                        &&& img.wf()
                        &&& img.kind.channels == 1
                        &&& img.kind.subpixel == subpixel
                        &&& img.width == w
                        &&& img.height == rows@.len()
                        &&& forall|x: int, y: int|
                            0 <= x < w && 0 <= y < rows@.len() ==> #[trigger] img.at(x, y)
                                == seq![rows@[y]@[x]]
                    },
                    Err(e) => {
                        &&& e == BuildError::ShapeMismatch <==> exists|y: int|
                            0 <= y < rows@.len() && #[trigger] rows@[y]@.len() != w
                        &&& e == BuildError::OutOfRange ==> exists|x: int, y: int|
                            0 <= y < rows@.len() && 0 <= x < w && !subpixel.holds(
                                #[trigger] rows@[y]@[x],
                            )
                    },
                }
            }),
            r is Ok <==> (forall|y: int| 0 <= y < rows@.len() ==> #[trigger] rows@[y]@.len() == (
            if rows@.len() == 0 {
                0
            } else {
                rows@[0]@.len()
            })) && (forall|x: int, y: int|
                0 <= y < rows@.len() && 0 <= x < rows@[y]@.len() ==> subpixel.holds(
                    #[trigger] rows@[y]@[x],
                )),
    {
        let height = rows.len();
        let width: usize = if height == 0 { 0 } else { rows[0].len() };
        let kind = PixelKind::gray(subpixel);
        let mut y: usize = 0;
        while y < height
            invariant
                height == rows@.len(),
                width == (if height == 0 { 0 } else { rows@[0]@.len() }),
                y <= height,
                forall|j: int| 0 <= j < y ==> #[trigger] rows@[j]@.len() == width,
            decreases height - y,
        {
            if rows[y].len() != width {
                return Err(BuildError::ShapeMismatch);
            }
            y += 1;
        }
        let mut pixels: Vec<Vec<i64>> = Vec::new();
        let mut y: usize = 0;
        while y < height
            invariant
                height == rows@.len(),
                width == (if height == 0 { 0 } else { rows@[0]@.len() }),
                width <= u32::MAX,
                kind.channels == 1,
                kind.subpixel == subpixel,
                y <= height,
                forall|j: int| 0 <= j < height ==> #[trigger] rows@[j]@.len() == width,
                pixels@.len() == y * width,
                forall|i: int| 0 <= i < pixels@.len() ==> kind.admits(#[trigger] pixels@[i]@),
                forall|x: int, j: int|
                    0 <= x < width && 0 <= j < y ==> #[trigger] pixels@[j * width + x]@ == seq![
                        rows@[j]@[x],
                    ],
                forall|x: int, j: int|
                    0 <= j < y && 0 <= x < width ==> subpixel.holds(#[trigger] rows@[j]@[x]),
            decreases height - y,
        {
            let row = &rows[y];
            let mut x: usize = 0;
            while x < width
                invariant
                    height == rows@.len(),
                    width == (if height == 0 { 0 } else { rows@[0]@.len() }),
                    y < height,
                    kind.channels == 1,
                    kind.subpixel == subpixel,
                    row@ == rows@[y as int]@,
                    forall|j: int| 0 <= j < height ==> #[trigger] rows@[j]@.len() == width,
                    x <= width,
                    pixels@.len() == y * width + x,
                    forall|i: int| 0 <= i < pixels@.len() ==> kind.admits(#[trigger] pixels@[i]@),
                    forall|xx: int, j: int|
                        0 <= xx < width && 0 <= j < y ==> #[trigger] pixels@[j * width + xx]@
                            == seq![rows@[j]@[xx]],
                    forall|xx: int| 0 <= xx < x ==> #[trigger] pixels@[y * width + xx]@ == seq![
                        rows@[y as int]@[xx],
                    ],
                    forall|xx: int, j: int|
                        0 <= j < y && 0 <= xx < width ==> subpixel.holds(#[trigger] rows@[j]@[xx]),
                    forall|xx: int| 0 <= xx < x ==> subpixel.holds(#[trigger] rows@[y as int]@[xx]),
                decreases width - x,
            {
                let v = row[x];
                if !subpixel.contains(v) {
                    return Err(BuildError::OutOfRange);
                }
                let p: Vec<i64> = vec![v];
                assert(p@ =~= seq![v]);
                assert(kind.admits(p@));
                let ghost before = pixels@;
                pixels.push(p);
                assert forall|xx: int, j: int| 0 <= xx < width && 0 <= j < y implies #[trigger] pixels@[j
                    * width + xx]@ == seq![rows@[j]@[xx]] by {
                    lemma_index_in_grid(xx, j, width as int, y as int);
                    assert(pixels@[j * width + xx] == before[j * width + xx]);
                }
                x += 1;
            }
            assert((y + 1) * width == y * width + width) by (nonlinear_arith);
            y += 1;
        }
        assert(pixels@.len() == width * height) by (nonlinear_arith)
            requires
                pixels@.len() == y * width,
                y == height,
        ;
        let img = Image { width: width as u32, height: height as u32, kind, pixels };
        assert forall|x: int, yy: int|
            0 <= x < width && 0 <= yy < rows@.len() implies #[trigger] img.at(x, yy) == seq![
            rows@[yy]@[x]] by {
        }
        Ok(img)
    }

    /// A `width` by `height` grayscale buffer from its values in row-major
    /// order, or `None` when `data` does not hold `width * height` values or
    /// a value does not fit `subpixel`.
    pub fn from_raw(width: u32, height: u32, subpixel: Subpixel, data: &Vec<i64>) -> (r: Option<
        Image,
    >)
        ensures
            r is Some <==> data@.len() == width * height && forall|i: int|
                0 <= i < data@.len() ==> subpixel.holds(#[trigger] data@[i]),
            r matches Some(img) ==> {
                &&& img.wf()
                &&& img.width == width
                &&& img.height == height
                &&& img.kind.channels == 1
                &&& img.kind.subpixel == subpixel
                &&& forall|i: int| 0 <= i < data@.len() ==> #[trigger] img.px(i) == seq![data@[i]]
            },
    {
        assert(width as int * height as int <= u32::MAX as int * u32::MAX as int) by (nonlinear_arith)
            requires
                width <= u32::MAX,
                height <= u32::MAX,
        ;
        let area: u64 = width as u64 * height as u64;
        if data.len() as u64 != area {
            return None;
        }
        let kind = PixelKind::gray(subpixel);
        let mut pixels: Vec<Vec<i64>> = Vec::new();
        let mut i: usize = 0;
        while i < data.len()
            invariant
                kind.channels == 1,
                kind.subpixel == subpixel,
                i <= data@.len(),
                pixels@.len() == i,
                forall|j: int| 0 <= j < i ==> subpixel.holds(#[trigger] data@[j]),
                forall|j: int| 0 <= j < i ==> #[trigger] pixels@[j]@ == seq![data@[j]],
                forall|j: int| 0 <= j < pixels@.len() ==> kind.admits(#[trigger] pixels@[j]@),
            decreases data@.len() - i,
        {
            let v = data[i];
            if !subpixel.contains(v) {
                return None;
            }
            let p: Vec<i64> = vec![v];
            assert(p@ =~= seq![v]);
            assert(kind.admits(p@));
            pixels.push(p);
            i += 1;
        }
        Some(Image { width, height, kind, pixels })
    }
}

} // verus!
