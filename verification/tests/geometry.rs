use rust_raytracer::geometry::{max_dimension_vec_3, permute, Bounds, Point2u, Vector2u, Vector3};

#[test]
fn test_max_dimension_vec_3() {
    let vec = Vector3::new(1, 3, 2);
    let res = max_dimension_vec_3(vec);
    assert_eq!(1, res);
}

#[test]
fn test_permute() {
    let input = Vector3::new(1, 2, 3);

    let res = permute(input, 2, 1, 0);

    assert_eq!(Vector3::new(3, 2, 1), res);
}

#[test]
fn max_dimension_prefers_last_of_equal_maxima() {
    assert_eq!(2, max_dimension_vec_3(Vector3::new(5, 1, 5)));
    assert_eq!(1, max_dimension_vec_3(Vector3::new(5, 5, 1)));
    assert_eq!(2, max_dimension_vec_3(Vector3::new(4, 4, 4)));
    assert_eq!(0, max_dimension_vec_3(Vector3::new(9, -1, 3)));
    assert_eq!(2, max_dimension_vec_3(Vector3::new(-7, -8, -2)));
}

#[test]
fn permute_works_on_floats_and_repeats_axes() {
    let v = Vector3::new(0.5f64, -1.0, 2.0);
    let r = permute(v, 1, 2, 0);
    assert_eq!(Vector3::new(-1.0, 2.0, 0.5), r);
    let r = permute(v, 2, 2, 2);
    assert_eq!(Vector3::new(2.0, 2.0, 2.0), r);
}

#[test]
fn vector3_get_reads_each_axis() {
    let v = Vector3::new(7u8, 8, 9);
    assert_eq!(v.get(0), 7);
    assert_eq!(v.get(1), 8);
    assert_eq!(v.get(2), 9);
}

#[test]
fn bounds_area_and_vector() {
    let b = Bounds { p_min: Point2u::new(2, 3), p_max: Point2u::new(10, 7) };
    assert_eq!(b.vector(), Vector2u::new(8, 4));
    assert_eq!(b.area(), 32);
    let empty = Bounds { p_min: Point2u::new(4, 4), p_max: Point2u::new(4, 9) };
    assert_eq!(empty.area(), 0);
}
