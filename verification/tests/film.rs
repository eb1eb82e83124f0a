use rust_raytracer::film::{
    bucket_pixel_bounds, bucket_pixel_coords, bucket_pixel_index, film_pixel_index, BucketQueue,
    FilterMethod, TileLayout,
};
use rust_raytracer::geometry::{Bounds, Point2u, Vector2u};

fn bounds(x0: u32, y0: u32, x1: u32, y1: u32) -> Bounds {
    Bounds { p_min: Point2u::new(x0, y0), p_max: Point2u::new(x1, y1) }
}

#[test]
fn filter_method_from_str_names() {
    assert_eq!(FilterMethod::from_str("gaussian"), Some(FilterMethod::Gaussian));
    assert_eq!(FilterMethod::from_str("mitchell"), Some(FilterMethod::Mitchell));
    assert_eq!(FilterMethod::from_str("none"), Some(FilterMethod::Unfiltered));
    assert_eq!(FilterMethod::from_str(""), Some(FilterMethod::Unfiltered));
    assert_eq!(FilterMethod::from_str("Gaussian"), Some(FilterMethod::Unfiltered));
}

#[test]
fn tiles_whole_image_without_crop() {
    let layout = TileLayout {
        image_size: Vector2u::new(10, 7),
        bucket_size: Vector2u::new(4, 4),
        crop_start: None,
        crop_end: None,
    };
    let b = layout.sample_bounds();
    // 3 columns, 2 rows, column by column
    assert_eq!(b.len(), 6);
    assert_eq!(b[0], bounds(0, 0, 4, 4));
    assert_eq!(b[1], bounds(0, 4, 4, 7));
    assert_eq!(b[2], bounds(4, 0, 8, 4));
    assert_eq!(b[3], bounds(4, 4, 8, 7));
    assert_eq!(b[4], bounds(8, 0, 10, 4));
    assert_eq!(b[5], bounds(8, 4, 10, 7));
}

#[test]
fn tiles_cover_each_pixel_once() {
    let layout = TileLayout {
        image_size: Vector2u::new(13, 9),
        bucket_size: Vector2u::new(5, 2),
        crop_start: None,
        crop_end: None,
    };
    let b = layout.sample_bounds();
    for x in 0..13u32 {
        for y in 0..9u32 {
            let n = b
                .iter()
                .filter(|r| r.p_min.x <= x && x < r.p_max.x && r.p_min.y <= y && y < r.p_max.y)
                .count();
            assert_eq!(n, 1, "pixel ({}, {})", x, y);
        }
    }
}

#[test]
fn tiles_crop_window_from_crop_start() {
    let layout = TileLayout {
        image_size: Vector2u::new(100, 100),
        bucket_size: Vector2u::new(8, 8),
        crop_start: Some(Point2u::new(10, 20)),
        crop_end: Some(Point2u::new(20, 28)),
    };
    let b = layout.sample_bounds();
    // ceil(10 / 8) = 2 columns, ceil(8 / 8) = 1 row; the last column runs
    // past the crop end, up to a whole bucket.
    assert_eq!(b.len(), 2);
    assert_eq!(b[0], bounds(10, 20, 18, 28));
    assert_eq!(b[1], bounds(18, 20, 26, 28));
}

#[test]
fn crop_start_alone_only_moves_the_grid() {
    let layout = TileLayout {
        image_size: Vector2u::new(6, 4),
        bucket_size: Vector2u::new(4, 4),
        crop_start: Some(Point2u::new(2, 0)),
        crop_end: None,
    };
    let b = layout.sample_bounds();
    assert_eq!(b.len(), 2);
    assert_eq!(b[0], bounds(2, 0, 6, 4));
    assert_eq!(b[1], bounds(6, 0, 6, 4));
}

#[test]
fn empty_image_has_no_buckets() {
    let layout = TileLayout {
        image_size: Vector2u::new(0, 5),
        bucket_size: Vector2u::new(4, 4),
        crop_start: None,
        crop_end: None,
    };
    assert!(layout.sample_bounds().is_empty());
}

#[test]
fn pixel_bounds_grow_by_margin_and_stop_at_border() {
    let image = Vector2u::new(20, 20);
    let r = bucket_pixel_bounds(&bounds(4, 0, 8, 4), 1, image);
    assert_eq!(r, bounds(3, 0, 9, 5));
    let r = bucket_pixel_bounds(&bounds(16, 16, 20, 20), 3, image);
    assert_eq!(r, bounds(13, 13, 20, 20));
    let r = bucket_pixel_bounds(&bounds(1, 2, 3, 4), 5, image);
    assert_eq!(r, bounds(0, 0, 8, 9));
    let r = bucket_pixel_bounds(&bounds(0, 0, u32::MAX - 1, 1), 5, Vector2u::new(u32::MAX, 10));
    assert_eq!(r, bounds(0, 0, u32::MAX, 6));
}

#[test]
fn bucket_pixel_index_and_coords_roundtrip() {
    let b = bounds(3, 5, 7, 8);
    let area = b.area() as usize;
    assert_eq!(bucket_pixel_index(&b, 3, 5), 0);
    assert_eq!(bucket_pixel_index(&b, 6, 5), 3);
    assert_eq!(bucket_pixel_index(&b, 3, 6), 4);
    assert_eq!(bucket_pixel_index(&b, 6, 7), 11);
    for i in 0..area {
        let p = bucket_pixel_coords(&b, i);
        assert_eq!(bucket_pixel_index(&b, p.x, p.y), i);
    }
    assert_eq!(bucket_pixel_coords(&b, 6), Point2u::new(5, 6));
}

#[test]
fn film_pixel_index_is_row_major() {
    let image = Vector2u::new(10, 4);
    assert_eq!(film_pixel_index(image, 0, 0), 0);
    assert_eq!(film_pixel_index(image, 9, 0), 9);
    assert_eq!(film_pixel_index(image, 0, 1), 10);
    assert_eq!(film_pixel_index(image, 3, 2), 23);
}

#[test]
fn bucket_queue_hands_out_each_bucket_once() {
    let mut q = BucketQueue::new(3);
    assert_eq!(q.get_bucket(), Some(0));
    assert_eq!(q.get_bucket(), Some(1));
    assert_eq!(q.get_bucket(), Some(2));
    assert_eq!(q.get_bucket(), None);
    assert_eq!(q.get_bucket(), None);
    let mut empty = BucketQueue::new(0);
    assert_eq!(empty.get_bucket(), None);
}
