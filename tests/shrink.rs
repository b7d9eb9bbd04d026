use pixel_testkit::buffer::Image;
use pixel_testkit::pixel::{ArbitraryPixel, PixelKind, Subpixel};
use pixel_testkit::shrink::{copy_sub, dimensions_from_bytes, shrink, small_image_dimensions, TestBuffer};
use quickcheck::Gen;

fn grid() -> Image {
    let rows = vec![vec![1, 2, 3], vec![4, 5, 6]];
    Image::from_rows(Subpixel::U8, &rows).unwrap()
}

fn values(img: &Image) -> Vec<i64> {
    img.pixels.iter().map(|p| p[0]).collect()
}

#[test]
fn shrink_order_and_content() {
    let subs = shrink(&grid());
    assert_eq!(subs.len(), 4);
    assert_eq!(subs[0].dimensions(), (2, 2));
    assert_eq!(values(&subs[0]), vec![1, 2, 4, 5]);
    assert_eq!(subs[1].dimensions(), (2, 2));
    assert_eq!(values(&subs[1]), vec![2, 3, 5, 6]);
    assert_eq!(subs[2].dimensions(), (3, 1));
    assert_eq!(values(&subs[2]), vec![1, 2, 3]);
    assert_eq!(subs[3].dimensions(), (3, 1));
    assert_eq!(values(&subs[3]), vec![4, 5, 6]);
}

#[test]
fn shrink_of_empty_is_empty() {
    let empty = Image::from_raw(0, 0, Subpixel::U8, &vec![]).unwrap();
    assert!(shrink(&empty).is_empty());
    let no_columns = Image::from_raw(0, 2, Subpixel::U8, &vec![]).unwrap();
    let subs = shrink(&no_columns);
    assert_eq!(subs.len(), 2);
    assert_eq!(subs[0].dimensions(), (0, 1));
}

#[test]
fn shrinking_reaches_zero_by_zero() {
    let mut current = TestBuffer(grid());
    let mut steps = 0;
    loop {
        let subs = current.shrink();
        if subs.is_empty() {
            break;
        }
        let (w, h) = current.0.dimensions();
        for s in &subs {
            let (sw, sh) = s.0.dimensions();
            assert_eq!(sw + sh + 1, w + h);
        }
        current = subs.into_iter().next().unwrap();
        steps += 1;
    }
    assert_eq!(steps, 5);
    assert_eq!(current.0.dimensions(), (0, 0));
}

#[test]
fn copy_sub_takes_the_rectangle() {
    let sub = copy_sub(&grid(), 1, 1, 2, 1);
    assert_eq!(sub.dimensions(), (2, 1));
    assert_eq!(values(&sub), vec![5, 6]);
}

#[test]
fn dimensions_are_bytes_mod_ten() {
    assert_eq!(dimensions_from_bytes(0, 9), (0, 9));
    assert_eq!(dimensions_from_bytes(255, 17), (5, 7));
    let mut g = Gen::new(10);
    for _ in 0..50 {
        let (w, h) = small_image_dimensions(&mut g);
        assert!(w < 10 && h < 10);
    }
}

#[test]
fn arbitrary_buffers_are_small_and_well_formed() {
    let mut g = Gen::new(10);
    let kind = PixelKind::rgb(Subpixel::U16);
    for _ in 0..30 {
        let b = TestBuffer::arbitrary(&kind, &mut g);
        let (w, h) = b.0.dimensions();
        assert!(w < 10 && h < 10);
        assert_eq!(b.0.pixels.len(), (w * h) as usize);
        assert!(b.0.pixels.iter().all(|p| kind.accepts(p)));
    }
}

#[test]
fn arbitrary_pixel_fits_its_kind() {
    let mut g = Gen::new(10);
    for sub in [Subpixel::U8, Subpixel::I16, Subpixel::U16, Subpixel::I32, Subpixel::U32] {
        let kind = PixelKind::gray(sub);
        for _ in 0..20 {
            let p = kind.arbitrary(&mut g);
            assert_eq!(p.len(), kind.channel_count());
            assert!(kind.accepts(&p));
        }
    }
}
