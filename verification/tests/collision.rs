use unbeatable_pong::collision::{check_aabb_collision, Collision, CollisionBox};
use unbeatable_pong::vector::{Vec2, COORD_MAX};

fn classify(a: (i64, i64), a_size: (i64, i64), b: (i64, i64), b_size: (i64, i64)) -> Collision {
    check_aabb_collision(
        Vec2::new(a.0, a.1),
        Vec2::new(a_size.0, a_size.1),
        Vec2::new(b.0, b.1),
        Vec2::new(b_size.0, b_size.1),
    )
}

#[test]
fn box_edges_are_centre_plus_and_minus_half_the_size() {
    let b = CollisionBox::new(Vec2::new(3, -4), Vec2::new(5, 7));
    // In half units: 3 - 2.5, 3 + 2.5, -4 - 3.5, -4 + 3.5.
    assert_eq!(b, CollisionBox { top: -1, bottom: -15, left: 1, right: 11 });
}

#[test]
fn box_edges_at_the_end_of_the_range() {
    let m = COORD_MAX as i64;
    let b = CollisionBox::new(Vec2::new(m, -m), Vec2::new(m, m));
    assert_eq!(b, CollisionBox { top: -m, bottom: -3 * m, left: m, right: 3 * m });
}

#[test]
fn strikes_the_left_face() {
    assert_eq!(classify((0, 0), (10, 10), (8, 0), (10, 30)), Collision::Left);
}

#[test]
fn strikes_the_right_face() {
    assert_eq!(classify((0, 0), (10, 10), (-8, 0), (10, 30)), Collision::Right);
}

#[test]
fn strikes_the_top_face() {
    assert_eq!(classify((0, 0), (10, 10), (0, -8), (30, 10)), Collision::Top);
}

#[test]
fn strikes_the_bottom_face() {
    assert_eq!(classify((0, 0), (10, 10), (0, 8), (30, 10)), Collision::Bottom);
}

#[test]
fn boxes_apart_do_not_collide() {
    assert_eq!(classify((0, 0), (10, 10), (20, 0), (10, 10)), Collision::NoCollision);
    assert_eq!(classify((0, 0), (10, 10), (0, -20), (10, 10)), Collision::NoCollision);
    assert_eq!(classify((0, 0), (10, 10), (8, 20), (10, 10)), Collision::NoCollision);
}

#[test]
fn boxes_that_only_touch_do_not_collide() {
    assert_eq!(classify((0, 0), (10, 10), (10, 0), (10, 10)), Collision::NoCollision);
    assert_eq!(classify((0, 0), (10, 10), (-10, 0), (10, 10)), Collision::NoCollision);
    assert_eq!(classify((0, 0), (10, 10), (0, 10), (10, 10)), Collision::NoCollision);
    assert_eq!(classify((0, 0), (10, 10), (0, -10), (10, 10)), Collision::NoCollision);
    assert_eq!(classify((0, 0), (10, 10), (10, 10), (10, 10)), Collision::NoCollision);
}

#[test]
fn half_a_unit_of_overlap_counts() {
    // The mover's right edge is at 5.5, the other's left edge at 5.
    assert_eq!(classify((0, 0), (11, 11), (10, 0), (10, 10)), Collision::Left);
    assert_eq!(classify((0, 0), (11, 11), (-10, 0), (10, 10)), Collision::Right);
    assert_eq!(classify((0, 0), (11, 11), (0, 10), (10, 10)), Collision::Bottom);
    assert_eq!(classify((0, 0), (11, 11), (0, -10), (10, 10)), Collision::Top);
}

#[test]
fn the_shallower_axis_wins() {
    // Depth 2 along x and 1 along y.
    assert_eq!(classify((0, 0), (10, 10), (8, 9), (10, 10)), Collision::Bottom);
    // Depth 1 along x and 2 along y.
    assert_eq!(classify((0, 0), (10, 10), (9, 8), (10, 10)), Collision::Left);
    assert_eq!(classify((0, 0), (10, 10), (-9, -8), (10, 10)), Collision::Right);
    assert_eq!(classify((0, 0), (10, 10), (-8, -9), (10, 10)), Collision::Top);
}

#[test]
fn equal_depths_report_the_horizontal_face() {
    assert_eq!(classify((0, 0), (10, 10), (8, 8), (10, 10)), Collision::Left);
    assert_eq!(classify((0, 0), (10, 10), (-8, 8), (10, 10)), Collision::Right);
    assert_eq!(classify((0, 0), (10, 10), (-8, -8), (10, 10)), Collision::Right);
}

#[test]
fn a_mover_nested_in_the_other_box_is_inside() {
    assert_eq!(classify((0, 0), (2, 2), (0, 0), (10, 10)), Collision::Inside);
    assert_eq!(classify((1, -1), (2, 2), (0, 0), (10, 10)), Collision::Inside);
}

#[test]
fn a_mover_around_the_other_box_is_inside() {
    assert_eq!(classify((0, 0), (10, 10), (0, 0), (2, 2)), Collision::Inside);
}

#[test]
fn equal_boxes_are_inside() {
    assert_eq!(classify((5, 5), (10, 10), (5, 5), (10, 10)), Collision::Inside);
}

#[test]
fn a_face_along_one_axis_beats_none_along_the_other() {
    // Nested along y, over the left edge along x, however deep.
    assert_eq!(classify((0, 0), (10, 2), (4, 0), (10, 30)), Collision::Left);
    // Nested along x, over the top edge along y.
    assert_eq!(classify((0, 0), (2, 10), (0, -4), (30, 10)), Collision::Top);
}

#[test]
fn the_puck_on_the_bottom_wall() {
    let c = classify((-420665, -420665), (21600, 21600), (0, -439200), (1130400, 21600));
    assert_eq!(c, Collision::Top);
}

#[test]
fn the_puck_on_the_left_wall() {
    let c = classify((-534492, -306838), (21600, 21600), (-554400, 0), (21600, 900000));
    assert_eq!(c, Collision::Right);
}

#[test]
fn boxes_at_the_ends_of_the_range() {
    let m = COORD_MAX as i64;
    assert_eq!(classify((m, m), (m, m), (-m, -m), (m, m)), Collision::NoCollision);
    assert_eq!(classify((m, m), (m, m), (m, m), (m, m)), Collision::Inside);
    assert_eq!(classify((-m, 0), (m, m), (m, 0), (m, m)), Collision::NoCollision);
    assert_eq!(classify((0, 0), (m, 2), (m, 0), (m, m)), Collision::NoCollision);
    assert_eq!(classify((1, 0), (m, 2), (m, 0), (m, m)), Collision::Left);
}

#[test]
fn every_pair_is_classified_and_overlap_is_symmetric() {
    let sizes: [(i64, i64); 3] = [(4, 4), (7, 3), (2, 9)];
    for a_size in sizes {
        for b_size in sizes {
            for bx in -8i64..=8 {
                for by in -8i64..=8 {
                    let forth = classify((0, 0), a_size, (bx, by), b_size);
                    let back = classify((bx, by), b_size, (0, 0), a_size);
                    let overlap = (2 * bx.abs()) < a_size.0 + b_size.0
                        && (2 * by.abs()) < a_size.1 + b_size.1;
                    assert_eq!(forth != Collision::NoCollision, overlap);
                    assert_eq!(back != Collision::NoCollision, overlap);
                }
            }
        }
    }
}

#[test]
fn mirrored_boxes_strike_the_mirrored_face() {
    for bx in -8i64..=8 {
        for by in -8i64..=8 {
            let c = classify((0, 0), (6, 6), (bx, by), (8, 4));
            let mirrored = classify((0, 0), (6, 6), (-bx, by), (8, 4));
            let expected = match c {
                Collision::Left => Collision::Right,
                Collision::Right => Collision::Left,
                other => other,
            };
            assert_eq!(mirrored, expected);
        }
    }
}
