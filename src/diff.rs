//! Pixel-level comparison of two buffers and the reports made of it.

use crate::buffer::Image;
use crate::pixel::{copy_pixel, pixels_differ, significant, Criterion};
use crate::text::{dims_text, located_text, push_dims, push_located};
use vstd::prelude::*;
use vstd::string::StringExecFns;

verus! {

/// A pixel seen at a position of one buffer.
#[derive(Clone, Debug)]
pub struct Located {
    pub x: u32,
    pub y: u32,
    pub pixel: Vec<i64>,
}

/// A position at which two buffers hold significantly different pixels: what
/// the buffer under test holds, and what was expected.
#[derive(Clone, Debug)]
pub struct PixelDiff {
    pub actual: Located,
    pub expected: Located,
}

/// Column, row and channel values.
pub type LocatedView = (int, int, Seq<i64>);

impl View for Located {
    type V = LocatedView;

    open spec fn view(&self) -> LocatedView {
        (self.x as int, self.y as int, self.pixel@)
    }
}

impl View for PixelDiff {
    type V = (LocatedView, LocatedView);

    open spec fn view(&self) -> (LocatedView, LocatedView) {
        (self.actual@, self.expected@)
    }
}

/// The indices below `n`, in increasing order, at which `l` and `r` hold
/// pixels that differ under `c`.
pub open spec fn diff_indices(l: Image, r: Image, c: Criterion, n: int) -> Seq<int>
    decreases n,
{
    if n <= 0 {
        Seq::empty()
    } else {
        let s = diff_indices(l, r, c, n - 1);
        if significant(c, l.px(n - 1), r.px(n - 1)) {
            s.push(n - 1)
        } else {
            s
        }
    }
}

/// How many pixels the two buffers both have.
pub open spec fn paired_len(l: Image, r: Image) -> int {
    if l.pixels@.len() <= r.pixels@.len() {
        l.pixels@.len() as int
    } else {
        r.pixels@.len() as int
    }
}

/// The indices at which `l` and `r` differ under `c`: none when either
/// buffer is empty, else the row-major indices that both buffers have.
pub open spec fn diffs_of(l: Image, r: Image, c: Criterion) -> Seq<int> {
    if l.empty_spec() || r.empty_spec() {
        Seq::empty()
    } else {
diff_indices(l, r, c, paired_len(l, r))
    }
}

/// The pixel at row-major index `i` of `img`, with its position.
pub open spec fn located_in(img: Image, i: int) -> LocatedView {
    (i % img.width as int, i / img.width as int, img.px(i))
}

/// The differences between `l` and `r` under `c`, in row-major order.
pub open spec fn diff_views(l: Image, r: Image, c: Criterion) -> Seq<(LocatedView, LocatedView)> {
    diffs_of(l, r, c).map_values(|i: int| (located_in(l, i), located_in(r, i)))
}

/// The views of a list of differences.
pub open spec fn views_of(ds: Seq<PixelDiff>) -> Seq<(LocatedView, LocatedView)> {
    ds.map_values(|d: PixelDiff| d@)
}

/// The line that reports one difference.
pub open spec fn diff_line(d: (LocatedView, LocatedView)) -> Seq<char> {
    "\nactual: "@ + located_text(d.0.0, d.0.1, d.0.2) + ", expected "@ + located_text(
        d.1.0,
        d.1.1,
        d.1.2,
    ) + " "@
}

/// The lines that report the differences of `ds`, one after the other.
pub open spec fn diff_lines(ds: Seq<(LocatedView, LocatedView)>) -> Seq<char>
    decreases ds.len(),
{
    if ds.len() == 0 {
        Seq::empty()
    } else {
        diff_lines(ds.drop_last()) + diff_line(ds.last())
    }
}

/// How many differences a report shows at most.
pub const REPORTED_DIFFS: usize = 5;

/// A report of differences: a header, then a line for each of the first
/// five.
pub open spec fn describe_text(ds: Seq<(LocatedView, LocatedView)>) -> Seq<char> {
    "pixels do not match. "@ + diff_lines(
        ds.take(
            if ds.len() <= REPORTED_DIFFS {
                ds.len() as int
            } else {
                REPORTED_DIFFS as int
            },
        ),
    )
}

/// The report that two buffers have different dimensions.
pub open spec fn dimension_text(actual: Image, expected: Image) -> Seq<char> {
    "dimensions do not match. actual: "@ + dims_text(actual.width as int, actual.height as int)
        + ", expected: "@ + dims_text(expected.width as int, expected.height as int)
}

pub open spec fn same_dims(a: Image, b: Image) -> bool {
    a.width == b.width && a.height == b.height
}

/// Tolerance comparison asks for the same number of channels on both sides.
pub open spec fn comparable(l: Image, r: Image, c: Criterion) -> bool {
    c is Within ==> l.kind.channels == r.kind.channels
}

/// The row of an index inside a `w` by `h` grid is a row of the grid.
proof fn lemma_row_of_index(i: int, w: int, h: int)
    requires
        0 <= i < w * h,
        0 < w,
    ensures
        0 <= i / w < h,
        0 <= i % w < w,
{
    vstd::arithmetic::div_mod::lemma_fundamental_div_mod(i, w);
    assert(0 <= i / w < h) by (nonlinear_arith)
        requires
            i == w * (i / w) + i % w,
            0 <= i % w < w,
            0 <= i < w * h,
            0 < w,
    ;
}

/// Lists the positions at which `left` and `right` hold pixels that differ
/// under `is_diff`, in row-major order. Pixels are paired by their index in
/// row-major order; dimensions are not checked, so callers compare them
/// first. When either buffer is empty the list is empty.
pub fn pixel_diffs(left: &Image, right: &Image, is_diff: Criterion) -> (r: Vec<PixelDiff>)
    requires
        left.wf(),
        right.wf(),
        comparable(*left, *right, is_diff),
    ensures
        views_of(r@) == diff_views(*left, *right, is_diff),
{
    if left.is_empty() || right.is_empty() {
        let r: Vec<PixelDiff> = Vec::new();
        assert(views_of(r@) =~= diff_views(*left, *right, is_diff));
        return r;
    }
    let n: usize = if left.pixels.len() <= right.pixels.len() {
        left.pixels.len()
    } else {
        right.pixels.len()
    };
    let mut out: Vec<PixelDiff> = Vec::new();
    let mut i: usize = 0;
    while i < n
        invariant
            left.wf(),
            right.wf(),
            comparable(*left, *right, is_diff),
            left.width > 0,
            right.width > 0,
            n <= left.pixels@.len(),
            n <= right.pixels@.len(),
            i <= n,
            views_of(out@) == diff_indices(*left, *right, is_diff, i as int).map_values(
                |j: int| (located_in(*left, j), located_in(*right, j)),
            ),
        decreases n - i,
    {
        let p = &left.pixels[i];
        let q = &right.pixels[i];
        let ghost before = out@;
        proof {
            lemma_row_of_index(i as int, left.width as int, left.height as int);
            lemma_row_of_index(i as int, right.width as int, right.height as int);
        }
        if pixels_differ(is_diff, p, q) {
            let d = PixelDiff {
                actual: Located {
                    x: (i % (left.width as usize)) as u32,
                    y: (i / (left.width as usize)) as u32,
                    pixel: copy_pixel(p),
                },
                expected: Located {
                    x: (i % (right.width as usize)) as u32,
                    y: (i / (right.width as usize)) as u32,
                    pixel: copy_pixel(q),
                },
            };
            out.push(d);
            assert(views_of(out@) =~= views_of(before).push(
                (located_in(*left, i as int), located_in(*right, i as int)),
            ));
        } else {
            assert(views_of(out@) =~= views_of(before));
        }
        i += 1;
        assert(views_of(out@) =~= diff_indices(*left, *right, is_diff, i as int).map_values(
            |j: int| (located_in(*left, j), located_in(*right, j)),
        ));
    }
    out
}

/// Appends the line that reports `d`.
fn push_diff_line(s: &mut String, d: &PixelDiff)
    ensures
        final(s)@ == old(s)@ + diff_line(d@),
{
    s.append("\nactual: ");
    push_located(s, d.actual.x, d.actual.y, &d.actual.pixel);
    s.append(", expected ");
    push_located(s, d.expected.x, d.expected.y, &d.expected.pixel);
    s.append(" ");
    assert(final(s)@ =~= old(s)@ + diff_line(d@));
}

/// `idx` lists, in increasing order, exactly the indices below `n` at
/// which `is_diff` judged the pixels of `l` and `r` different.
pub open spec fn picked_by<F: Fn(&Vec<i64>, &Vec<i64>) -> bool>(
    l: Image,
    r: Image,
    is_diff: F,
    idx: Seq<int>,
    n: int,
) -> bool {
    &&& forall|a: int, b: int| 0 <= a < b < idx.len() ==> idx[a] < idx[b]
    &&& forall|k: int|
        0 <= k < idx.len() ==> 0 <= #[trigger] idx[k] < n && is_diff.ensures(
            (&l.pixels@[idx[k]], &r.pixels@[idx[k]]),
            true,
        )
    &&& forall|i: int|
        0 <= i < n && !(#[trigger] idx.contains(i)) ==> is_diff.ensures(
            (&l.pixels@[i], &r.pixels@[i]),
            false,
        )
}

/// Lists the positions at which the caller's predicate `is_diff` judges
/// the pixels of `left` and `right` different, in row-major order, asking
/// it once per index that both buffers have. When either buffer is empty
/// the list is empty and `is_diff` is not asked.
pub fn pixel_diffs_by<F: Fn(&Vec<i64>, &Vec<i64>) -> bool>(
    left: &Image,
    right: &Image,
    is_diff: F,
) -> (r: Vec<PixelDiff>)
    requires
        left.wf(),
        right.wf(),
        forall|p: &Vec<i64>, q: &Vec<i64>| is_diff.requires((p, q)),
    ensures
        left.empty_spec() || right.empty_spec() ==> r@.len() == 0,
        !left.empty_spec() && !right.empty_spec() ==> exists|idx: Seq<int>|
            #[trigger] picked_by(
                *left,
                *right,
                is_diff,
                idx,
                paired_len(*left, *right),
            ) && views_of(r@) == idx.map_values(
                |i: int| (located_in(*left, i), located_in(*right, i)),
            ),
{
    if left.is_empty() || right.is_empty() {
        return Vec::new();
    }
    let n: usize = if left.pixels.len() <= right.pixels.len() {
        left.pixels.len()
    } else {
        right.pixels.len()
    };
    let mut out: Vec<PixelDiff> = Vec::new();
    let ghost mut idx: Seq<int> = Seq::empty();
    let mut i: usize = 0;
    while i < n
        invariant
            left.wf(),
            right.wf(),
            forall|p: &Vec<i64>, q: &Vec<i64>| is_diff.requires((p, q)),
            left.width > 0,
            right.width > 0,
            n <= left.pixels@.len(),
            n <= right.pixels@.len(),
            i <= n,
            picked_by(*left, *right, is_diff, idx, i as int),
            views_of(out@) == idx.map_values(|j: int| (located_in(*left, j), located_in(*right, j))),
        decreases n - i,
    {
        let p = &left.pixels[i];
        let q = &right.pixels[i];
        let ghost before = out@;
        let ghost old_idx = idx;
        proof {
            lemma_row_of_index(i as int, left.width as int, left.height as int);
            lemma_row_of_index(i as int, right.width as int, right.height as int);
        }
        if is_diff(p, q) {
            let d = PixelDiff {
                actual: Located {
                    x: (i % (left.width as usize)) as u32,
                    y: (i / (left.width as usize)) as u32,
                    pixel: copy_pixel(p),
                },
                expected: Located {
                    x: (i % (right.width as usize)) as u32,
                    y: (i / (right.width as usize)) as u32,
                    pixel: copy_pixel(q),
                },
            };
            out.push(d);
            proof {
                idx = old_idx.push(i as int);
                assert(views_of(out@) =~= views_of(before).push(
                    (located_in(*left, i as int), located_in(*right, i as int)),
                ));
                assert(views_of(out@) =~= idx.map_values(
                    |j: int| (located_in(*left, j), located_in(*right, j)),
                ));
                assert forall|j: int| 0 <= j < i + 1 && !(#[trigger] idx.contains(j)) implies is_diff.ensures(
                    (&left.pixels@[j], &right.pixels@[j]),
                    false,
                ) by {
                    if j < i {
                        assert(!old_idx.contains(j)) by {
                            if old_idx.contains(j) {
                                let k = choose|k: int| 0 <= k < old_idx.len() && old_idx[k] == j;
                                assert(idx[k] == j);
                            }
                        }
                    } else {
                        assert(idx[idx.len() - 1] == j);
                    }
                }
            }
        } else {
            proof {
                assert(views_of(out@) =~= views_of(before));
                assert forall|j: int| 0 <= j < i + 1 && !(#[trigger] idx.contains(j)) implies is_diff.ensures(
                    (&left.pixels@[j], &right.pixels@[j]),
                    false,
                ) by {}
            }
        }
        i += 1;
    }
    assert(n == paired_len(*left, *right));
    assert(picked_by(*left, *right, is_diff, idx, paired_len(*left, *right)));
    out
}

/// A summary of the differences in `diffs` for a failure message: a header,
/// then one line for each of the first five.
pub fn describe_pixel_diffs(diffs: &Vec<PixelDiff>) -> (r: String)
    ensures
        r@ == describe_text(views_of(diffs@)),
{
    let mut s = String::from_str("pixels do not match. ");
    let n: usize = if diffs.len() <= REPORTED_DIFFS {
        diffs.len()
    } else {
        REPORTED_DIFFS
    };
    let ghost all = views_of(diffs@);
    let mut k: usize = 0;
    while k < n
        invariant
            n <= diffs@.len(),
            n == (if diffs@.len() <= REPORTED_DIFFS { diffs@.len() } else { REPORTED_DIFFS as nat }),
            all == views_of(diffs@),
            k <= n,
            s@ == "pixels do not match. "@ + diff_lines(all.take(k as int)),
        decreases n - k,
    {
        let d = &diffs[k];
        let ghost s0 = s@;
        push_diff_line(&mut s, d);
        proof {
            assert(all.take(k + 1).drop_last() =~= all.take(k as int));
            assert(all.take(k + 1).last() == d@);
            assert(diff_lines(all.take(k + 1)) == diff_lines(all.take(k as int)) + diff_line(d@));
        }
        k += 1;
        assert(s@ =~= "pixels do not match. "@ + diff_lines(all.take(k as int)));
    }
    s
}

/// Whether the two buffers have the same width and the same height.
pub fn dimensions_match(a: &Image, b: &Image) -> (r: bool)
    ensures
        r == same_dims(*a, *b),
{
    a.width == b.width && a.height == b.height
}

/// The report that `actual` and `expected` have different dimensions.
pub fn describe_dimensions(actual: &Image, expected: &Image) -> (r: String)
    ensures
        r@ == dimension_text(*actual, *expected),
{
    let mut s = String::from_str("dimensions do not match. actual: ");
    push_dims(&mut s, actual.width, actual.height);
    s.append(", expected: ");
    push_dims(&mut s, expected.width, expected.height);
    assert(s@ =~= dimension_text(*actual, *expected));
    s
}

/// A description of the pixels that differ significantly (by `is_diff`)
/// between `actual` and `expected`, or `None` when none do. Buffers of
/// different dimensions are reported as such, with no pixel compared.
pub fn significant_pixel_diff_summary(actual: &Image, expected: &Image, is_diff: Criterion) -> (r:
    Option<String>)
    requires
        actual.wf(),
        expected.wf(),
        comparable(*actual, *expected, is_diff),
    ensures
        !same_dims(*actual, *expected) ==> r is Some && r->0@ == dimension_text(*actual, *expected),
        same_dims(*actual, *expected) && diffs_of(*actual, *expected, is_diff).len() == 0 ==> r
            is None,
        same_dims(*actual, *expected) && diffs_of(*actual, *expected, is_diff).len() > 0 ==> r
            is Some && r->0@ == describe_text(diff_views(*actual, *expected, is_diff)),
{
    if !dimensions_match(actual, expected) {
        return Some(describe_dimensions(actual, expected));
    }
    let diffs = pixel_diffs(actual, expected, is_diff);
    assert(views_of(diffs@).len() == diffs@.len());
    if diffs.len() == 0 {
        return None;
    }
    Some(describe_pixel_diffs(&diffs))
}

/// A description of the pixels that differ between `actual` and
/// `expected`, or `None` when all match.
pub fn pixel_diff_summary(actual: &Image, expected: &Image) -> (r: Option<String>)
    requires
        actual.wf(),
        expected.wf(),
    ensures
        !same_dims(*actual, *expected) ==> r is Some && r->0@ == dimension_text(*actual, *expected),
        same_dims(*actual, *expected) && diffs_of(*actual, *expected, Criterion::Exact).len() == 0
            ==> r is None,
        same_dims(*actual, *expected) && diffs_of(*actual, *expected, Criterion::Exact).len() > 0
            ==> r is Some && r->0@ == describe_text(diff_views(*actual, *expected, Criterion::Exact)),
{
    significant_pixel_diff_summary(actual, expected, Criterion::Exact)
}

} // verus!

verus! {

/// Why two buffers do not match.
#[derive(Debug)]
pub enum Mismatch {
    /// The buffers differ in shape; no pixel was compared.
    Dimensions { actual: (u32, u32), expected: (u32, u32) },
    /// The buffers differ at these positions, in row-major order.
    Pixels(Vec<PixelDiff>),
}

/// Compares `actual` with `expected`: buffers of different dimensions fail
/// with both shapes; buffers of the same dimensions fail with every
/// position at which their pixels differ under `is_diff`.
pub fn compare(actual: &Image, expected: &Image, is_diff: Criterion) -> (r: Result<(), Mismatch>)
    requires
        actual.wf(),
        expected.wf(),
        comparable(*actual, *expected, is_diff),
    ensures
        !same_dims(*actual, *expected) ==> r == Err::<(), Mismatch>(
            Mismatch::Dimensions {
                actual: (actual.width, actual.height),
                expected: (expected.width, expected.height),
            },
        ),
        same_dims(*actual, *expected) ==> (r is Ok <==> diffs_of(*actual, *expected, is_diff).len()
            == 0),
        same_dims(*actual, *expected) && r is Err ==> match r {
            Err(Mismatch::Pixels(ds)) => views_of(ds@) == diff_views(*actual, *expected, is_diff),
            _ => false,
        },
{
    if !dimensions_match(actual, expected) {
        return Err(
            Mismatch::Dimensions {
                actual: actual.dimensions(),
                expected: expected.dimensions(),
            },
        );
    }
    let diffs = pixel_diffs(actual, expected, is_diff);
    assert(views_of(diffs@).len() == diffs@.len());
    if diffs.len() == 0 {
        Ok(())
    } else {
        Err(Mismatch::Pixels(diffs))
    }
}

/// Every pixel is within any tolerance of itself, and equal to itself.
pub proof fn lemma_pixel_not_significant_to_itself(c: Criterion, p: Seq<i64>)
    ensures
        !significant(c, p, p),
{
}

proof fn lemma_indices_of_self_empty(a: Image, c: Criterion, n: int)
    ensures
        diff_indices(a, a, c, n) == Seq::<int>::empty(),
    decreases n,
{
    if n > 0 {
        lemma_indices_of_self_empty(a, c, n - 1);
        lemma_pixel_not_significant_to_itself(c, a.px(n - 1));
    }
}

/// A buffer compared with itself shows no difference, under any criterion.
pub proof fn lemma_diff_reflexive(a: Image, c: Criterion)
    ensures
        diffs_of(a, a, c) == Seq::<int>::empty(),
        diff_views(a, a, c).len() == 0,
{
    if !a.empty_spec() {
        lemma_indices_of_self_empty(a, c, a.pixels@.len() as int);
    }
}

/// An empty buffer (no rows or no columns) shows no difference with any
/// buffer, on either side, whatever that buffer holds.
pub proof fn lemma_empty_diff(a: Image, b: Image, c: Criterion)
    requires
        a.empty_spec(),
    ensures
        diffs_of(a, b, c) == Seq::<int>::empty(),
        diffs_of(b, a, c) == Seq::<int>::empty(),
        diff_views(a, b, c).len() == 0,
        diff_views(b, a, c).len() == 0,
{
}

} // verus!
