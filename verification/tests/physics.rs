use unbeatable_pong::collision::Collision;
use unbeatable_pong::entity::{Body, Collider, Goal, Left, Paddle, Right, Velocity};
use unbeatable_pong::events::{CollisionEvent, Events, GoalEvent, LeftCollisionEvent};
use unbeatable_pong::physics::{apply_velocity, check_collisions, reflect_velocity};
use unbeatable_pong::vector::{Vec2, COORD_MAX};

fn px(pixels: f64) -> i64 {
    (pixels * 1440.0).round() as i64
}

fn wall(x: i64, y: i64, width: i64, height: i64) -> Body {
    Body::new(Vec2::new(x, y), Vec2::new(width, height))
}

fn mover(x: i64, y: i64, vx: i64, vy: i64) -> Body {
    Body {
        velocity: Some(Velocity(Vec2::new(vx, vy))),
        ..Body::new(Vec2::new(x, y), Vec2::new(21600, 21600))
    }
}

fn velocity_of(body: &Body) -> (i32, i32) {
    match body.velocity {
        Some(Velocity(v)) => (v.x(), v.y()),
        None => panic!("the body is at rest"),
    }
}

fn squared_speed(v: Vec2) -> i64 {
    (v.x() as i64) * (v.x() as i64) + (v.y() as i64) * (v.y() as i64)
}

#[test]
fn a_new_body_is_a_collider_at_rest() {
    let b = Body::new(Vec2::new(1, 2), Vec2::new(3, 4));
    assert_eq!(b.position, Vec2::new(1, 2));
    assert_eq!(b.size, Vec2::new(3, 4));
    assert_eq!(b.velocity, None);
    assert_eq!(b.collider, Some(Collider));
    assert_eq!(b.paddle, None);
    assert_eq!(b.goal, None);
    assert_eq!(b.left, None);
    assert_eq!(b.right, None);
}

#[test]
fn reflects_a_velocity_that_heads_into_the_face() {
    assert_eq!(reflect_velocity(Vec2::new(5, 3), Collision::Left), Vec2::new(-5, 3));
    assert_eq!(reflect_velocity(Vec2::new(-5, 3), Collision::Right), Vec2::new(5, 3));
    assert_eq!(reflect_velocity(Vec2::new(5, -3), Collision::Top), Vec2::new(5, 3));
    assert_eq!(reflect_velocity(Vec2::new(5, 3), Collision::Bottom), Vec2::new(5, -3));
}

#[test]
fn keeps_a_velocity_that_heads_away_from_the_face() {
    assert_eq!(reflect_velocity(Vec2::new(-5, 3), Collision::Left), Vec2::new(-5, 3));
    assert_eq!(reflect_velocity(Vec2::new(5, 3), Collision::Right), Vec2::new(5, 3));
    assert_eq!(reflect_velocity(Vec2::new(5, 3), Collision::Top), Vec2::new(5, 3));
    assert_eq!(reflect_velocity(Vec2::new(5, -3), Collision::Bottom), Vec2::new(5, -3));
}

#[test]
fn keeps_a_velocity_along_the_face() {
    assert_eq!(reflect_velocity(Vec2::new(0, 3), Collision::Left), Vec2::new(0, 3));
    assert_eq!(reflect_velocity(Vec2::new(0, 3), Collision::Right), Vec2::new(0, 3));
    assert_eq!(reflect_velocity(Vec2::new(5, 0), Collision::Top), Vec2::new(5, 0));
    assert_eq!(reflect_velocity(Vec2::new(5, 0), Collision::Bottom), Vec2::new(5, 0));
}

#[test]
fn keeps_the_velocity_where_no_face_is_struck() {
    assert_eq!(reflect_velocity(Vec2::new(5, -3), Collision::Inside), Vec2::new(5, -3));
    assert_eq!(reflect_velocity(Vec2::new(5, -3), Collision::NoCollision), Vec2::new(5, -3));
}

#[test]
fn reflection_preserves_speed() {
    let faces = [
        Collision::Left,
        Collision::Right,
        Collision::Top,
        Collision::Bottom,
        Collision::Inside,
        Collision::NoCollision,
    ];
    let m = COORD_MAX as i64;
    let velocities: [(i64, i64); 7] =
        [(4949, -4949), (-1, 0), (0, 0), (m, -m), (-m, m), (3, 4), (-700, 20)];
    for face in faces {
        for (x, y) in velocities {
            let before = Vec2::new(x, y);
            let after = reflect_velocity(before, face);
            assert_eq!(squared_speed(after), squared_speed(before));
        }
    }
}

#[test]
fn no_double_reflection() {
    // Still over the left face, but already on its way out.
    let once = reflect_velocity(Vec2::new(4949, 4949), Collision::Left);
    assert_eq!(once, Vec2::new(-4949, 4949));
    let twice = reflect_velocity(once, Collision::Left);
    assert_eq!(twice, once);
}

#[test]
fn no_double_reflection_across_ticks() {
    // The mover overlaps the wall's left face in both ticks.
    let mut bodies = vec![wall(0, 0, 21600, 900000), mover(-20000, 0, 100, 0)];
    let mut events = Events::new();
    check_collisions(&mut bodies, &mut events);
    assert_eq!(velocity_of(&bodies[1]), (-100, 0));
    apply_velocity(&mut bodies);
    assert_eq!(bodies[1].position, Vec2::new(-20100, 0));
    check_collisions(&mut bodies, &mut events);
    assert_eq!(velocity_of(&bodies[1]), (-100, 0));
    assert_eq!(events.collisions.len(), 2);
}

#[test]
fn movers_advance_by_their_velocity() {
    let mut bodies = vec![wall(5, 5, 10, 10), mover(0, 0, -4949, 4949), mover(7, -7, 0, 1)];
    apply_velocity(&mut bodies);
    assert_eq!(bodies[0].position, Vec2::new(5, 5));
    assert_eq!(bodies[1].position, Vec2::new(-4949, 4949));
    assert_eq!(bodies[2].position, Vec2::new(7, -6));
    assert_eq!(velocity_of(&bodies[1]), (-4949, 4949));
    apply_velocity(&mut bodies);
    assert_eq!(bodies[1].position, Vec2::new(-9898, 9898));
}

#[test]
fn motion_stops_at_the_end_of_the_range() {
    let m = COORD_MAX as i64;
    let mut bodies = vec![mover(m - 3, -m + 3, 10, -10)];
    apply_velocity(&mut bodies);
    assert_eq!(bodies[0].position, Vec2::new(m, -m));
    apply_velocity(&mut bodies);
    assert_eq!(bodies[0].position, Vec2::new(m, -m));
}

#[test]
fn nothing_moves_in_an_empty_world() {
    let mut bodies: Vec<Body> = Vec::new();
    let mut events = Events::new();
    apply_velocity(&mut bodies);
    check_collisions(&mut bodies, &mut events);
    assert!(bodies.is_empty());
    assert!(events.collisions.is_empty());
    assert!(events.goals.is_empty());
    assert!(events.left_collisions.is_empty());
}

#[test]
fn a_miss_leaves_no_message() {
    let mut bodies = vec![wall(0, 0, 21600, 900000), mover(-100000, 0, 100, 0)];
    let before = bodies.clone();
    let mut events = Events::new();
    check_collisions(&mut bodies, &mut events);
    assert_eq!(bodies, before);
    assert!(events.collisions.is_empty());
    assert!(events.goals.is_empty());
    assert!(events.left_collisions.is_empty());
}

#[test]
fn a_plain_wall_reflects_and_reports_a_collision() {
    let mut bodies = vec![mover(0, -420665, -4949, -4949), wall(0, -439200, 1130400, 21600)];
    let mut events = Events::new();
    check_collisions(&mut bodies, &mut events);
    assert_eq!(velocity_of(&bodies[0]), (-4949, 4949));
    assert_eq!(bodies[0].position, Vec2::new(0, -420665));
    assert_eq!(events.collisions, vec![CollisionEvent]);
    assert!(events.goals.is_empty());
    assert!(events.left_collisions.is_empty());
}

#[test]
fn goal_on_the_left_wall() {
    let goal = Body { goal: Some(Goal), ..wall(px(-392.5), 0, 21600, 900000) };
    let mut bodies = vec![goal, mover(px(-392.5) + 5200, 0, -4949, 100)];
    let mut events = Events::new();
    check_collisions(&mut bodies, &mut events);
    assert_eq!(events.goals, vec![GoalEvent { is_left_goal: true }]);
    assert_eq!(events.collisions.len(), 1);
    assert_eq!(velocity_of(&bodies[1]), (4949, 100));
}

#[test]
fn goal_on_the_right_wall() {
    let goal = Body { goal: Some(Goal), ..wall(px(392.5), 0, 21600, 900000) };
    let mut bodies = vec![goal, mover(px(392.5) - 5200, 0, 4949, 100)];
    let mut events = Events::new();
    check_collisions(&mut bodies, &mut events);
    assert_eq!(events.goals, vec![GoalEvent { is_left_goal: false }]);
    assert_eq!(events.collisions.len(), 1);
    assert_eq!(velocity_of(&bodies[1]), (-4949, 100));
}

#[test]
fn a_goal_in_the_middle_counts_as_the_right_one() {
    let goal = Body { goal: Some(Goal), ..wall(0, 0, 21600, 900000) };
    let mut bodies = vec![goal, mover(-5200, 0, 4949, 100)];
    let mut events = Events::new();
    check_collisions(&mut bodies, &mut events);
    assert_eq!(events.goals, vec![GoalEvent { is_left_goal: false }]);
}

#[test]
fn the_side_of_a_goal_is_told_by_its_place_not_by_its_mark() {
    let goal =
        Body { goal: Some(Goal), left: Some(Left), ..wall(px(392.5), 0, 21600, 900000) };
    let mut bodies = vec![goal, mover(px(392.5) - 5200, 0, 4949, 0)];
    let mut events = Events::new();
    check_collisions(&mut bodies, &mut events);
    assert_eq!(events.goals, vec![GoalEvent { is_left_goal: false }]);
    assert_eq!(events.left_collisions.len(), 1);
}

#[test]
fn a_bounce_on_the_left_side_carries_place_and_direction() {
    let paddle = Body {
        paddle: Some(Paddle),
        left: Some(Left),
        ..wall(-460800, 0, 21600, 86400)
    };
    let mut bodies = vec![paddle, mover(-440000, 1000, -4949, 100)];
    let mut events = Events::new();
    check_collisions(&mut bodies, &mut events);
    assert_eq!(velocity_of(&bodies[1]), (4949, 100));
    // (4949, 100) is 4950.01 long: 65536 times 0.99980 and 0.02020.
    assert_eq!(
        events.left_collisions,
        vec![LeftCollisionEvent {
            puck_position: Vec2::new(-440000, 1000),
            puck_direction: Vec2::new(65522, 1323),
        }]
    );
    assert!(events.goals.is_empty());
    assert_eq!(events.collisions.len(), 1);
}

#[test]
fn a_bounce_on_the_right_side_leaves_no_bounce_message() {
    let paddle = Body {
        paddle: Some(Paddle),
        right: Some(Right),
        ..wall(460800, 0, 21600, 86400)
    };
    let mut bodies = vec![paddle, mover(440000, 1000, 4949, 100)];
    let mut events = Events::new();
    check_collisions(&mut bodies, &mut events);
    assert_eq!(velocity_of(&bodies[1]), (-4949, 100));
    assert!(events.left_collisions.is_empty());
    assert_eq!(events.collisions.len(), 1);
}

#[test]
fn a_mover_inside_an_obstacle_is_reported_but_not_reflected() {
    let left = Body { left: Some(Left), ..wall(0, 0, 100000, 100000) };
    let mut bodies = vec![left, mover(0, 0, 300, -400)];
    let mut events = Events::new();
    check_collisions(&mut bodies, &mut events);
    assert_eq!(velocity_of(&bodies[1]), (300, -400));
    assert_eq!(events.collisions.len(), 1);
    assert_eq!(
        events.left_collisions,
        vec![LeftCollisionEvent {
            puck_position: Vec2::new(0, 0),
            puck_direction: Vec2::new(39321, -52428),
        }]
    );
}

#[test]
fn two_walls_met_in_one_tick_each_reflect() {
    // The mover sits in the lower left corner, over the left wall's right
    // face and the bottom wall's top face.
    let mut bodies = vec![
        wall(-554400, 0, 21600, 900000),
        wall(0, -439200, 1130400, 21600),
        mover(-534492, -420665, -4949, -4949),
    ];
    let mut events = Events::new();
    check_collisions(&mut bodies, &mut events);
    assert_eq!(velocity_of(&bodies[2]), (4949, 4949));
    assert_eq!(events.collisions.len(), 2);
}

#[test]
fn a_later_obstacle_sees_the_velocity_the_earlier_one_left() {
    // Both walls are struck on their right face. The first turns the mover
    // back; the second finds it heading away and leaves it alone. The bounce
    // message of the second carries the velocity after both.
    let first = wall(-10000, 0, 21600, 900000);
    let second = Body { left: Some(Left), ..wall(-10001, 0, 21600, 900000) };
    let mut bodies = vec![first, second, mover(5000, 0, -65536, 0)];
    let mut events = Events::new();
    check_collisions(&mut bodies, &mut events);
    assert_eq!(velocity_of(&bodies[2]), (65536, 0));
    assert_eq!(events.collisions.len(), 2);
    assert_eq!(
        events.left_collisions,
        vec![LeftCollisionEvent {
            puck_position: Vec2::new(5000, 0),
            puck_direction: Vec2::new(65536, 0),
        }]
    );
}

#[test]
fn movers_do_not_run_into_each_other() {
    let mut bodies = vec![mover(0, 0, 100, 0), mover(1000, 0, -100, 0)];
    let before = bodies.clone();
    let mut events = Events::new();
    check_collisions(&mut bodies, &mut events);
    assert_eq!(bodies, before);
    assert!(events.collisions.is_empty());
}

#[test]
fn a_body_without_the_collider_mark_is_no_obstacle() {
    let dash = Body { collider: None, ..wall(0, 0, 7200, 28800) };
    let mut bodies = vec![dash, mover(1000, 0, -100, 0)];
    let mut events = Events::new();
    check_collisions(&mut bodies, &mut events);
    assert_eq!(velocity_of(&bodies[1]), (-100, 0));
    assert!(events.collisions.is_empty());
}

#[test]
fn a_mover_without_the_collider_mark_still_collides() {
    let ghost = Body { collider: None, ..mover(-20000, 0, 100, 0) };
    let mut bodies = vec![wall(0, 0, 21600, 900000), ghost];
    let mut events = Events::new();
    check_collisions(&mut bodies, &mut events);
    assert_eq!(velocity_of(&bodies[1]), (-100, 0));
    assert_eq!(events.collisions.len(), 1);
}

#[test]
fn every_mover_meets_every_obstacle_in_order() {
    let left_goal = Body { goal: Some(Goal), left: Some(Left), ..wall(-554400, 0, 21600, 900000) };
    let right_goal = Body { goal: Some(Goal), ..wall(554400, 0, 21600, 900000) };
    let mut bodies = vec![
        mover(534492, 10, 4949, 1),
        left_goal,
        mover(-534492, 20, -4949, 2),
        right_goal,
        mover(-534492, 30, 4949, 3),
    ];
    let mut events = Events::new();
    check_collisions(&mut bodies, &mut events);
    assert_eq!(velocity_of(&bodies[0]), (-4949, 1));
    assert_eq!(velocity_of(&bodies[2]), (4949, 2));
    assert_eq!(velocity_of(&bodies[4]), (4949, 3));
    assert_eq!(events.collisions.len(), 3);
    assert_eq!(
        events.goals,
        vec![
            GoalEvent { is_left_goal: false },
            GoalEvent { is_left_goal: true },
            GoalEvent { is_left_goal: true },
        ]
    );
    assert_eq!(events.left_collisions.len(), 2);
    assert_eq!(events.left_collisions[0].puck_position, Vec2::new(-534492, 20));
    assert_eq!(events.left_collisions[1].puck_position, Vec2::new(-534492, 30));
}

#[test]
fn messages_are_added_to_those_already_there() {
    let mut events = Events::new();
    events.collisions.push(CollisionEvent);
    events.goals.push(GoalEvent { is_left_goal: false });
    let goal = Body { goal: Some(Goal), ..wall(-554400, 0, 21600, 900000) };
    let mut bodies = vec![goal, mover(-534492, 0, -4949, 0)];
    check_collisions(&mut bodies, &mut events);
    assert_eq!(events.collisions.len(), 2);
    assert_eq!(
        events.goals,
        vec![GoalEvent { is_left_goal: false }, GoalEvent { is_left_goal: true }]
    );
}

#[test]
fn motion_is_uniform() {
    let mut bodies = vec![mover(0, 0, -4949, -4949), mover(10, -20, 3, 0), wall(1, 2, 3, 4)];
    for n in 1i64..=85 {
        apply_velocity(&mut bodies);
        assert_eq!(bodies[0].position, Vec2::new(-4949 * n, -4949 * n));
        assert_eq!(bodies[1].position, Vec2::new(10 + 3 * n, -20));
        assert_eq!(bodies[2].position, Vec2::new(1, 2));
    }
    // The puck's lower face is below the bottom wall's upper face at -297.5
    // pixels for the first time, and its left face is still right of the
    // left wall's inner face at -377.5 pixels.
    let y = bodies[0].position.y() as i64;
    assert!(y - 10800 < -428400);
    assert!(y + 4949 - 10800 >= -428400);
    assert!(bodies[0].position.x() as i64 - 10800 >= -543600);
}
