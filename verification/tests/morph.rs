use mr_binaer::game::fixed::{divide_coordinate, lerp_coordinate, scale_coordinate};
use mr_binaer::game::morph::{interpolate, morph_from_christmas_tree, morph_into_christmas_tree};
use mr_binaer::game::shapes::{get_christmas_tree, get_snowman, Point, ShapeError};

fn p(x: i32, y: i32) -> Point {
    Point { x, y }
}

#[test]
fn interpolate_at_none_of_the_way_is_the_source() {
    let source = vec![p(0, 0), p(-7, 13), p(i32::MAX, i32::MIN)];
    let target = vec![p(10, -10), p(1, 1), p(i32::MIN, i32::MAX)];
    assert_eq!(interpolate(&source, &target, 0, 1), Ok(source.clone()));
    assert_eq!(interpolate(&source, &target, 0, 120), Ok(source.clone()));
    assert_eq!(interpolate(&source, &target, 0, -5), Ok(source.clone()));
    assert_eq!(interpolate(&source, &target, 0, i64::MIN), Ok(source));
}

#[test]
fn interpolate_at_all_of_the_way_is_the_target() {
    let source = vec![p(0, 0), p(-7, 13), p(i32::MAX, i32::MIN)];
    let target = vec![p(10, -10), p(1, 1), p(i32::MIN, i32::MAX)];
    assert_eq!(interpolate(&source, &target, 1, 1), Ok(target.clone()));
    assert_eq!(interpolate(&source, &target, 120, 120), Ok(target.clone()));
    assert_eq!(interpolate(&source, &target, -5, -5), Ok(target.clone()));
    assert_eq!(interpolate(&source, &target, i64::MAX, i64::MAX), Ok(target.clone()));
    assert_eq!(interpolate(&source, &target, i64::MIN, i64::MIN), Ok(target));
}

#[test]
fn interpolate_goes_a_straight_way_point_by_point() {
    let source = vec![p(0, 0), p(100, -100)];
    let target = vec![p(10, 20), p(-100, 100)];
    assert_eq!(interpolate(&source, &target, 1, 2), Ok(vec![p(5, 10), p(0, 0)]));
    assert_eq!(interpolate(&source, &target, 1, 4), Ok(vec![p(2, 5), p(50, -50)]));
    assert_eq!(interpolate(&source, &target, 3, 4), Ok(vec![p(7, 15), p(-50, 50)]));
}

#[test]
fn interpolate_goes_on_beyond_the_ends() {
    let source = vec![p(0, 100)];
    let target = vec![p(10, 80)];
    assert_eq!(interpolate(&source, &target, 2, 1), Ok(vec![p(20, 60)]));
    assert_eq!(interpolate(&source, &target, -1, 1), Ok(vec![p(-10, 120)]));
    assert_eq!(interpolate(&source, &target, 300, 100), Ok(vec![p(30, 40)]));
    assert_eq!(interpolate(&source, &target, 1, -1), Ok(vec![p(-10, 120)]));
}

#[test]
fn interpolate_of_no_points_is_no_points() {
    let none: Vec<Point> = Vec::new();
    assert_eq!(interpolate(&none, &none, 1, 2), Ok(Vec::new()));
}

#[test]
fn lerp_rounds_down_for_a_positive_and_up_for_a_negative_denominator() {
    assert_eq!(lerp_coordinate(0, 7, 1, 2), Some(3));
    assert_eq!(lerp_coordinate(0, -7, 1, 2), Some(-4));
    assert_eq!(lerp_coordinate(0, 7, 1, -2), Some(-3));
    assert_eq!(lerp_coordinate(0, -7, 1, -2), Some(4));
    assert_eq!(lerp_coordinate(0, 7, -1, -2), Some(4));
    assert_eq!(lerp_coordinate(0, -7, -1, -2), Some(-3));
    assert_eq!(lerp_coordinate(10, 10, 5, 3), Some(10));
    assert_eq!(lerp_coordinate(1000, 4000, 1, 3), Some(2000));
}

#[test]
fn lerp_has_no_value_for_a_fraction_of_zero_or_beyond_the_range() {
    assert_eq!(lerp_coordinate(0, 7, 1, 0), None);
    assert_eq!(lerp_coordinate(0, 0, 0, 0), None);
    assert_eq!(lerp_coordinate(0, i32::MAX, 2, 1), None);
    assert_eq!(lerp_coordinate(0, i32::MAX, 1, 1), Some(i32::MAX));
    assert_eq!(lerp_coordinate(i32::MAX, i32::MIN, 1, 1), Some(i32::MIN));
    assert_eq!(lerp_coordinate(i32::MAX, i32::MIN, i64::MAX, 1), None);
    assert_eq!(lerp_coordinate(i32::MIN, i32::MAX, i64::MIN, 1), None);
    assert_eq!(lerp_coordinate(i32::MIN, i32::MAX, i64::MIN, i64::MIN), Some(i32::MAX));
    assert_eq!(lerp_coordinate(i32::MIN, i32::MAX, i64::MAX, i64::MIN), None);
}

#[test]
fn scaling_and_dividing_count_in_thousandths() {
    assert_eq!(scale_coordinate(3000, 2000), Some(6000));
    assert_eq!(scale_coordinate(3000, 500), Some(1500));
    assert_eq!(scale_coordinate(-3001, 500), Some(-1501));
    assert_eq!(scale_coordinate(7, 100), Some(0));
    assert_eq!(scale_coordinate(-7, 100), Some(-1));
    assert_eq!(scale_coordinate(i32::MAX, 1001), None);
    assert_eq!(scale_coordinate(i32::MIN, 1000), Some(i32::MIN));
    assert_eq!(divide_coordinate(3000, 2000), Some(1500));
    assert_eq!(divide_coordinate(-3000, 2000), Some(-1500));
    assert_eq!(divide_coordinate(1000, 3000), Some(333));
    assert_eq!(divide_coordinate(-1000, 3000), Some(-334));
    assert_eq!(divide_coordinate(1000, -3000), Some(-333));
    assert_eq!(divide_coordinate(1000, 0), None);
    assert_eq!(divide_coordinate(i32::MAX, 999), None);
    assert_eq!(divide_coordinate(i32::MAX, 1000), Some(i32::MAX));
}

#[test]
fn interpolate_refuses_silhouettes_of_different_length() {
    let two = vec![p(0, 0), p(1, 1)];
    let three = vec![p(0, 0), p(1, 1), p(2, 2)];
    assert_eq!(interpolate(&two, &three, 1, 2), Err(ShapeError::LengthMismatch));
    assert_eq!(interpolate(&three, &two, 1, 2), Err(ShapeError::LengthMismatch));
    assert_eq!(interpolate(&three, &two, 1, 0), Err(ShapeError::LengthMismatch));
}

#[test]
fn interpolate_refuses_a_fraction_of_zero() {
    let source = vec![p(0, 0)];
    let target = vec![p(10, 10)];
    assert_eq!(interpolate(&source, &target, 1, 0), Err(ShapeError::DivisionByZero));
    assert_eq!(interpolate(&source, &target, 0, 0), Err(ShapeError::DivisionByZero));
    assert_eq!(interpolate(&source, &source, i64::MAX, 0), Err(ShapeError::DivisionByZero));
}

#[test]
fn interpolate_refuses_a_point_out_of_range() {
    let source = vec![p(0, 0), p(0, 0)];
    let target = vec![p(1, 1), p(i32::MAX, 0)];
    assert_eq!(interpolate(&source, &target, 2, 1), Err(ShapeError::OutOfRange));
    assert_eq!(interpolate(&source, &target, 1, 1), Ok(target.clone()));
    let high = vec![p(0, 0), p(0, i32::MIN)];
    assert_eq!(interpolate(&source, &high, 3, 2), Err(ShapeError::OutOfRange));
}

#[test]
fn the_morph_into_the_tree_begins_as_snowman_and_ends_as_tree() {
    assert_eq!(morph_into_christmas_tree(0, 120), Ok(get_snowman()));
    assert_eq!(morph_into_christmas_tree(120, 120), Ok(get_christmas_tree()));
    assert_eq!(morph_from_christmas_tree(0, 120), Ok(get_christmas_tree()));
    assert_eq!(morph_from_christmas_tree(120, 120), Ok(get_snowman()));
}

#[test]
fn the_morph_into_the_tree_half_way() {
    let half = morph_into_christmas_tree(60, 120).unwrap();
    assert_eq!(half.len(), 17);
    assert_eq!(half[0], p(4500, 9000));
    assert_eq!(half[5], p(3500, 7000));
    assert_eq!(half[13], p(2750, 7000));
    assert_eq!(half[16], p(5000, 7000));
    let back = morph_from_christmas_tree(60, 120).unwrap();
    assert_eq!(back[0], p(4500, 9000));
    assert_eq!(back[13], p(2750, 7000));
}

#[test]
fn the_morph_into_the_tree_one_frame_in() {
    let first = morph_into_christmas_tree(1, 120).unwrap();
    assert_eq!(first[0], p(4991, 8016));
    assert_eq!(first[13], p(2012, 116));
    assert_eq!(first[12], p(5950, 83));
}

#[test]
fn the_morph_into_the_tree_needs_a_duration() {
    assert_eq!(morph_into_christmas_tree(0, 0), Err(ShapeError::DivisionByZero));
    assert_eq!(morph_from_christmas_tree(5, 0), Err(ShapeError::DivisionByZero));
}

#[test]
fn the_morph_into_the_tree_goes_on_after_its_end() {
    let beyond = morph_into_christmas_tree(240, 120).unwrap();
    assert_eq!(beyond[0], p(3000, 12000));
    assert_eq!(beyond[13], p(5000, 28000));
    let before = morph_into_christmas_tree(-120, 120).unwrap();
    assert_eq!(before[13], p(500, -14000));
    assert_eq!(
        morph_into_christmas_tree(i64::MAX, 1),
        Err(ShapeError::OutOfRange)
    );
}
