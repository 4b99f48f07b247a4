use mr_binaer::game::hat::{edge_height_at, get_max_height_at, hat_outline, step, HAT_DROP};
use mr_binaer::game::shapes::{get_christmas_tree, get_snowman, Point, ShapeError};

fn p(x: i32, y: i32) -> Point {
    Point { x, y }
}

#[test]
fn an_anchor_snaps_up_to_a_level_stretch_below_it() {
    let level = vec![p(0, 3000), p(10000, 3000)];
    assert_eq!(step(p(5000, 3000), &level), p(5000, 3000));
    assert_eq!(step(p(5000, 0), &level), p(5000, 3000));
    assert_eq!(step(p(5000, -90000), &level), p(5000, 3000));
    assert_eq!(step(p(5000, i32::MIN), &level), p(5000, 3000));
    assert_eq!(step(p(0, 2999), &level), p(0, 3000));
    assert_eq!(step(p(10000, 2999), &level), p(10000, 3000));
}

#[test]
fn an_anchor_within_one_drop_above_a_level_stretch_rests_on_it() {
    let level = vec![p(0, 3000), p(10000, 3000)];
    assert_eq!(HAT_DROP, 55);
    assert_eq!(step(p(5000, 3001), &level), p(5000, 3000));
    assert_eq!(step(p(5000, 3055), &level), p(5000, 3000));
    assert_eq!(step(p(5000, 3056), &level), p(5000, 3001));
}

#[test]
fn an_anchor_high_above_the_outline_falls_by_one_drop() {
    let level = vec![p(0, 3000), p(10000, 3000)];
    assert_eq!(step(p(5000, 20000), &level), p(5000, 19945));
    assert_eq!(step(p(5000, 19945), &level), p(5000, 19890));
    assert_eq!(step(p(5000, i32::MAX), &level), p(5000, i32::MAX - 55));
    let low = vec![p(0, i32::MIN), p(10000, i32::MIN)];
    assert_eq!(step(p(5000, i32::MIN + 56), &low), p(5000, i32::MIN + 1));
    assert_eq!(step(p(5000, i32::MIN + 55), &low), p(5000, i32::MIN));
}

#[test]
fn an_anchor_beside_the_outline_stays() {
    let level = vec![p(0, 3000), p(10000, 3000)];
    assert_eq!(step(p(-1, 20000), &level), p(-1, 20000));
    assert_eq!(step(p(10001, -5), &level), p(10001, -5));
    assert_eq!(step(p(5000, 20000), &Vec::new()), p(5000, 20000));
    assert_eq!(step(p(5000, 20000), &vec![p(5000, 1)]), p(5000, 20000));
    assert_eq!(get_max_height_at(-1, &level), None);
    assert_eq!(get_max_height_at(5000, &Vec::new()), None);
    assert_eq!(get_max_height_at(5000, &vec![p(5000, 1)]), None);
}

#[test]
fn the_height_of_an_edge_between_its_ends() {
    assert_eq!(edge_height_at(p(0, 0), p(10000, 5000), 5000), Some(2500));
    assert_eq!(edge_height_at(p(10000, 5000), p(0, 0), 5000), Some(2500));
    assert_eq!(edge_height_at(p(0, 0), p(3, 10), 1), Some(3));
    assert_eq!(edge_height_at(p(3, 10), p(0, 0), 1), Some(4));
    assert_eq!(edge_height_at(p(0, 0), p(3, -10), 1), Some(-4));
    assert_eq!(edge_height_at(p(3, -10), p(0, 0), 1), Some(-3));
    assert_eq!(
        edge_height_at(p(i32::MIN, i32::MIN), p(i32::MAX, i32::MAX), 0),
        Some(0)
    );
    assert_eq!(
        edge_height_at(p(i32::MIN, i32::MAX), p(i32::MAX, i32::MIN), 0),
        Some(-1)
    );
}

#[test]
fn the_height_of_an_edge_at_its_ends() {
    assert_eq!(edge_height_at(p(0, 7), p(10, 9), 0), Some(7));
    assert_eq!(edge_height_at(p(0, 7), p(10, 9), 10), Some(9));
    assert_eq!(edge_height_at(p(4, 7), p(4, 9), 4), Some(9));
    assert_eq!(edge_height_at(p(4, 9), p(4, 7), 4), Some(9));
    assert_eq!(edge_height_at(p(4, 9), p(4, 9), 4), Some(9));
}

#[test]
fn an_edge_that_does_not_reach_has_no_height() {
    assert_eq!(edge_height_at(p(0, 7), p(10, 9), -1), None);
    assert_eq!(edge_height_at(p(0, 7), p(10, 9), 11), None);
    assert_eq!(edge_height_at(p(4, 7), p(4, 9), 5), None);
}

#[test]
fn the_greatest_height_counts() {
    let zigzag = vec![p(0, 0), p(10, 100), p(0, 50), p(10, -30), p(5, 70), p(5, 10)];
    assert_eq!(get_max_height_at(5, &zigzag), Some(75));
    assert_eq!(get_max_height_at(0, &zigzag), Some(50));
    assert_eq!(get_max_height_at(10, &zigzag), Some(100));
    assert_eq!(get_max_height_at(7, &zigzag), Some(85));
    assert_eq!(get_max_height_at(11, &zigzag), None);
    let below = vec![p(0, -100), p(10, -50)];
    assert_eq!(get_max_height_at(5, &below), Some(-75));
}

#[test]
fn the_last_point_is_not_joined_to_the_first() {
    let open = vec![p(0, 0), p(0, 10), p(10, 10)];
    assert_eq!(get_max_height_at(5, &open), Some(10));
    let hook = vec![p(0, 0), p(10, 0), p(10, 10)];
    assert_eq!(get_max_height_at(5, &hook), Some(0));
}

#[test]
fn the_heights_of_the_named_outlines_under_the_hat() {
    assert_eq!(get_max_height_at(3500, &get_snowman()), Some(14000));
    assert_eq!(get_max_height_at(6500, &get_snowman()), Some(12500));
    assert_eq!(get_max_height_at(3500, &get_christmas_tree()), Some(14000));
    assert_eq!(get_max_height_at(6500, &get_christmas_tree()), Some(10571));
    assert_eq!(get_max_height_at(8001, &get_snowman()), None);
    assert_eq!(get_max_height_at(7001, &get_christmas_tree()), None);
}

#[test]
fn the_anchors_settle_on_the_snowman_each_on_its_own() {
    let snowman = get_snowman();
    let mut left = p(3500, 20000);
    let mut right = p(6500, 20000);
    for frame in 1..=140 {
        left = step(left, &snowman);
        right = step(right, &snowman);
        if frame == 109 {
            assert_eq!((left, right), (p(3500, 14005), p(6500, 14005)));
        }
        if frame == 110 {
            assert_eq!((left, right), (p(3500, 14000), p(6500, 13950)));
        }
        if frame == 137 {
            assert_eq!((left, right), (p(3500, 14000), p(6500, 12500)));
        }
    }
    assert_eq!((left, right), (p(3500, 14000), p(6500, 12500)));
}

#[test]
fn the_hat_on_level_anchors() {
    assert_eq!(
        hat_outline(p(3500, 14000), p(6500, 14000)),
        Ok(vec![
            p(3500, 14000),
            p(4500, 14000),
            p(4500, 16000),
            p(5500, 16000),
            p(5500, 14000),
            p(6500, 14000),
            p(3500, 14000),
        ])
    );
}

#[test]
fn the_hat_tilts_with_the_slope_between_its_anchors() {
    assert_eq!(
        hat_outline(p(3500, 14000), p(6500, 12500)),
        Ok(vec![
            p(3500, 14000),
            p(4500, 13500),
            p(4500, 15500),
            p(5500, 15000),
            p(5500, 13000),
            p(6500, 12500),
            p(3500, 14000),
        ])
    );
    assert_eq!(
        hat_outline(p(0, 0), p(7, -5)),
        Ok(vec![
            p(0, 0),
            p(1000, -715),
            p(1000, 1285),
            p(2000, 571),
            p(2000, -1429),
            p(3000, -2143),
            p(0, 0),
        ])
    );
}

#[test]
fn no_hat_on_anchors_at_one_place() {
    assert_eq!(hat_outline(p(5, 0), p(5, 10)), Err(ShapeError::DivisionByZero));
    assert_eq!(hat_outline(p(5, 0), p(5, 0)), Err(ShapeError::DivisionByZero));
}

#[test]
fn no_hat_beyond_the_range_of_a_point() {
    assert_eq!(
        hat_outline(p(i32::MAX - 2999, 0), p(i32::MAX, 0)),
        Err(ShapeError::OutOfRange)
    );
    assert_eq!(
        hat_outline(p(0, i32::MAX - 1999), p(3000, i32::MAX - 1999)),
        Err(ShapeError::OutOfRange)
    );
    assert_eq!(hat_outline(p(10, 2147483000), p(20, 0)), Err(ShapeError::OutOfRange));
    assert!(hat_outline(p(i32::MAX - 3000, 0), p(i32::MAX, 0)).is_ok());
    assert!(hat_outline(p(0, i32::MAX - 2000), p(3000, i32::MAX - 2000)).is_ok());
}
