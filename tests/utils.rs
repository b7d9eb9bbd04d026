use pixel_testkit::buffer::{BuildError, Image};
use pixel_testkit::diff::{
    compare, describe_pixel_diffs, dimensions_match, pixel_diff_summary, pixel_diffs, pixel_diffs_by,
    significant_pixel_diff_summary, Located, Mismatch, PixelDiff,
};
use pixel_testkit::pixel::{Criterion, PixelKind, Subpixel};

fn gray(rows: &[&[i64]]) -> Image {
    typed_gray(Subpixel::U8, rows)
}

fn typed_gray(subpixel: Subpixel, rows: &[&[i64]]) -> Image {
    let rows: Vec<Vec<i64>> = rows.iter().map(|r| r.to_vec()).collect();
    Image::from_rows(subpixel, &rows).unwrap()
}

fn assert_pixels_eq(actual: &Image, expected: &Image) {
    assert_eq!(actual.dimensions(), expected.dimensions(), "dimensions do not match");
    if let Some(err) = pixel_diff_summary(actual, expected) {
        panic!("{}", err);
    }
}

fn assert_pixels_eq_within(actual: &Image, expected: &Image, tolerance: u32) {
    assert_eq!(actual.dimensions(), expected.dimensions(), "dimensions do not match");
    let diffs = pixel_diffs(actual, expected, Criterion::Within(tolerance));
    if !diffs.is_empty() {
        panic!("{}", describe_pixel_diffs(&diffs));
    }
}

#[test]
fn test_gray_image_empty() {
    let image = Image::from_rows(Subpixel::U8, &vec![]).unwrap();
    assert_eq!(image.dimensions(), (0, 0));
}

#[test]
fn test_gray_image_single_element() {
    let image = gray(&[&[1]]);
    let expected = Image::from_raw(1, 1, Subpixel::U8, &vec![1]).unwrap();
    assert_pixels_eq(&image, &expected);
}

#[test]
fn test_gray_image_single_row() {
    let image = gray(&[&[1, 2, 3]]);
    let expected = Image::from_raw(3, 1, Subpixel::U8, &vec![1, 2, 3]).unwrap();
    assert_pixels_eq(&image, &expected);
}

#[test]
fn test_gray_image_multiple_rows_and_columns() {
    let image = gray(&[&[1, 2, 3], &[4, 5, 6]]);
    let expected = Image::from_raw(3, 2, Subpixel::U8, &vec![1, 2, 3, 4, 5, 6]).unwrap();
    assert_pixels_eq(&image, &expected);
}

#[test]
fn test_gray_image_i16() {
    let image = typed_gray(Subpixel::I16, &[&[1, 2, 3], &[4, 5, 6]]);
    let expected = Image::from_raw(3, 2, Subpixel::I16, &vec![1i64, 2, 3, 4, 5, 6]).unwrap();
    assert_pixels_eq(&image, &expected);
}

#[test]
fn test_gray_image_u16() {
    let image = typed_gray(Subpixel::U16, &[&[1, 2, 3], &[4, 5, 6]]);
    let expected = Image::from_raw(3, 2, Subpixel::U16, &vec![1i64, 2, 3, 4, 5, 6]).unwrap();
    assert_pixels_eq(&image, &expected);
}

#[test]
fn test_gray_image_i32() {
    let image = typed_gray(Subpixel::I32, &[&[1, 2, 3], &[4, 5, 6]]);
    let expected = Image::from_raw(3, 2, Subpixel::I32, &vec![1i64, 2, 3, 4, 5, 6]).unwrap();
    assert_pixels_eq(&image, &expected);
}

#[test]
fn test_gray_image_u32() {
    let image = typed_gray(Subpixel::U32, &[&[1, 2, 3], &[4, 5, 6]]);
    let expected = Image::from_raw(3, 2, Subpixel::U32, &vec![1i64, 2, 3, 4, 5, 6]).unwrap();
    assert_pixels_eq(&image, &expected);
}

#[test]
fn test_assert_pixels_eq_passes() {
    let image = gray(&[&[00, 01, 02], &[10, 11, 12]]);
    assert_pixels_eq(&image, &image);
}

#[test]
#[should_panic]
fn test_assert_pixels_eq_fails() {
    let image = gray(&[&[00, 01, 02], &[10, 11, 12]]);
    let diff = gray(&[&[00, 11, 02], &[10, 11, 12]]);
    assert_pixels_eq(&diff, &image);
}

#[test]
fn test_assert_pixels_eq_within_passes() {
    let image = gray(&[&[00, 01, 02], &[10, 11, 12]]);
    let diff = gray(&[&[00, 02, 02], &[10, 11, 12]]);
    assert_pixels_eq_within(&diff, &image, 1);
}

#[test]
#[should_panic]
fn test_assert_pixels_eq_within_fails() {
    let image = gray(&[&[00, 01, 02], &[10, 11, 12]]);
    let diff = gray(&[&[00, 03, 02], &[10, 11, 12]]);
    assert_pixels_eq_within(&diff, &image, 1);
}

#[test]
fn identical_copy_has_no_diff() {
    let a = gray(&[&[0, 1, 2], &[3, 4, 5]]);
    let b = gray(&[&[0, 1, 2], &[3, 4, 5]]);
    assert!(pixel_diffs(&a, &b, Criterion::Exact).is_empty());
    assert!(pixel_diff_summary(&a, &b).is_none());
    assert!(compare(&a, &b, Criterion::Exact).is_ok());
}

#[test]
fn single_changed_pixel_is_the_only_diff() {
    let a = gray(&[&[0, 1, 2], &[3, 4, 5]]);
    let b = gray(&[&[0, 9, 2], &[3, 4, 5]]);
    let diffs = pixel_diffs(&a, &b, Criterion::Exact);
    assert_eq!(diffs.len(), 1);
    let d = &diffs[0];
    assert_eq!((d.actual.x, d.actual.y, d.actual.pixel.clone()), (1, 0, vec![1]));
    assert_eq!((d.expected.x, d.expected.y, d.expected.pixel.clone()), (1, 0, vec![9]));
}

#[test]
fn tolerance_one_accepts_and_zero_rejects() {
    let a = gray(&[&[0, 2, 2], &[3, 4, 5]]);
    let b = gray(&[&[0, 1, 2], &[3, 4, 5]]);
    assert!(pixel_diffs(&a, &b, Criterion::Within(1)).is_empty());
    let diffs = pixel_diffs(&a, &b, Criterion::Within(0));
    assert_eq!(diffs.len(), 1);
    assert_eq!((diffs[0].actual.x, diffs[0].actual.y), (1, 0));
}

#[test]
fn tolerance_looks_at_every_channel() {
    let kind = PixelKind::rgb(Subpixel::U8);
    let a = Image { width: 1, height: 1, kind, pixels: vec![vec![10, 20, 30]] };
    let b = Image { width: 1, height: 1, kind, pixels: vec![vec![12, 20, 27]] };
    assert!(pixel_diffs(&a, &b, Criterion::Within(3)).is_empty());
    assert_eq!(pixel_diffs(&a, &b, Criterion::Within(2)).len(), 1);
    assert_eq!(pixel_diffs(&a, &b, Criterion::Exact).len(), 1);
}

#[test]
fn self_comparison_is_clean_under_any_criterion() {
    let a = gray(&[&[7, 0], &[255, 3]]);
    assert!(pixel_diffs(&a, &a, Criterion::Exact).is_empty());
    assert!(pixel_diffs(&a, &a, Criterion::Within(0)).is_empty());
}

#[test]
fn empty_buffer_never_differs() {
    let empty = Image::from_raw(0, 4, Subpixel::U8, &vec![]).unwrap();
    let other = gray(&[&[1, 2], &[3, 4]]);
    assert!(pixel_diffs(&empty, &other, Criterion::Exact).is_empty());
    assert!(pixel_diffs(&other, &empty, Criterion::Exact).is_empty());
}

#[test]
fn dimension_mismatch_is_reported_first() {
    let a = gray(&[&[1, 2, 3], &[4, 5, 6]]);
    let b = gray(&[&[1, 2], &[4, 5]]);
    assert!(!dimensions_match(&a, &b));
    assert_eq!(
        pixel_diff_summary(&a, &b).unwrap(),
        "dimensions do not match. actual: (3, 2), expected: (2, 2)"
    );
    match compare(&a, &b, Criterion::Exact) {
        Err(Mismatch::Dimensions { actual, expected }) => {
            assert_eq!(actual, (3, 2));
            assert_eq!(expected, (2, 2));
        }
        other => panic!("unexpected {:?}", other),
    }
}

#[test]
fn content_mismatch_lists_positions() {
    let a = gray(&[&[1, 2], &[3, 4]]);
    let b = gray(&[&[1, 0], &[0, 4]]);
    match compare(&a, &b, Criterion::Exact) {
        Err(Mismatch::Pixels(ds)) => {
            assert_eq!(ds.len(), 2);
            assert_eq!((ds[1].actual.x, ds[1].actual.y), (0, 1));
        }
        other => panic!("unexpected {:?}", other),
    }
}

#[test]
fn summary_text_names_actual_and_expected() {
    let a = gray(&[&[0, 1, 2], &[3, 4, 5]]);
    let b = gray(&[&[0, 9, 2], &[3, 4, 5]]);
    assert_eq!(
        pixel_diff_summary(&a, &b).unwrap(),
        "pixels do not match. \nactual: (1, 0, [1]), expected (1, 0, [9]) "
    );
    assert_eq!(
        significant_pixel_diff_summary(&a, &b, Criterion::Within(7)).unwrap(),
        "pixels do not match. \nactual: (1, 0, [1]), expected (1, 0, [9]) "
    );
    assert!(significant_pixel_diff_summary(&a, &b, Criterion::Within(8)).is_none());
}

#[test]
fn description_shows_at_most_five_diffs() {
    let mut diffs = Vec::new();
    for i in 0..7u32 {
        diffs.push(PixelDiff {
            actual: Located { x: i, y: 0, pixel: vec![-5, 12] },
            expected: Located { x: i, y: 0, pixel: vec![120, 0] },
        });
    }
    let text = describe_pixel_diffs(&diffs);
    assert_eq!(text.matches("\nactual: ").count(), 5);
    assert!(text.starts_with("pixels do not match. \nactual: (0, 0, [-5, 12]), expected (0, 0, [120, 0]) "));
    assert!(text.ends_with("\nactual: (4, 0, [-5, 12]), expected (4, 0, [120, 0]) "));
    assert_eq!(describe_pixel_diffs(&Vec::new()), "pixels do not match. ");
}

#[test]
fn rows_must_share_a_length() {
    let rows = vec![vec![1, 2, 3], vec![4, 5]];
    assert_eq!(Image::from_rows(Subpixel::U8, &rows).unwrap_err(), BuildError::ShapeMismatch);
}

#[test]
fn values_must_fit_the_channel_type() {
    let rows = vec![vec![1, 256]];
    assert_eq!(Image::from_rows(Subpixel::U8, &rows).unwrap_err(), BuildError::OutOfRange);
    let rows = vec![vec![-1, 0]];
    assert_eq!(Image::from_rows(Subpixel::U16, &rows).unwrap_err(), BuildError::OutOfRange);
    assert!(Image::from_rows(Subpixel::I16, &rows).is_ok());
    assert!(Image::from_raw(2, 2, Subpixel::U8, &vec![1, 2, 3]).is_none());
    assert!(Image::from_raw(1, 1, Subpixel::U8, &vec![300]).is_none());
}

#[test]
fn get_pixel_reads_row_major() {
    let a = gray(&[&[1, 2, 3], &[4, 5, 6]]);
    assert_eq!(a.get_pixel(2, 0), &vec![3]);
    assert_eq!(a.get_pixel(0, 1), &vec![4]);
    assert!(!a.is_empty());
    assert!(Image::from_rows(Subpixel::U8, &vec![]).unwrap().is_empty());
}

#[test]
fn caller_predicate_picks_positions() {
    let a = gray(&[&[0, 5, 2], &[9, 4, 5]]);
    let b = gray(&[&[0, 1, 2], &[3, 4, 6]]);
    let brighter = pixel_diffs_by(&a, &b, |p: &Vec<i64>, q: &Vec<i64>| p[0] > q[0]);
    let coords: Vec<(u32, u32)> = brighter.iter().map(|d| (d.actual.x, d.actual.y)).collect();
    assert_eq!(coords, vec![(1, 0), (0, 1)]);
    assert_eq!(brighter[1].expected.pixel, vec![3]);
    let any = pixel_diffs_by(&a, &b, |p: &Vec<i64>, q: &Vec<i64>| p != q);
    assert_eq!(any.len(), 3);
}

#[test]
fn caller_predicate_not_asked_on_empty() {
    let empty = Image::from_raw(3, 0, Subpixel::U8, &vec![]).unwrap();
    let other = gray(&[&[1]]);
    let diffs = pixel_diffs_by(&empty, &other, |_p: &Vec<i64>, _q: &Vec<i64>| -> bool {
        panic!("predicate asked on an empty buffer")
    });
    assert!(diffs.is_empty());
}
