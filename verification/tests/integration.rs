use numerics::integration::simpson_coefficient;

#[test]
fn odd_interior_points_weigh_four() {
    assert_eq!(4, simpson_coefficient(1));
    assert_eq!(4, simpson_coefficient(3));
    assert_eq!(4, simpson_coefficient(999));
}

#[test]
fn even_interior_points_weigh_two() {
    assert_eq!(2, simpson_coefficient(2));
    assert_eq!(2, simpson_coefficient(4));
    assert_eq!(2, simpson_coefficient(1000));
}
