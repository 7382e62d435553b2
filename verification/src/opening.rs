//! The opening of every game, tick by tick: left alone, the puck falls to
//! the bottom wall, bounces, and reaches the left goal.

use vstd::prelude::*;
use crate::collision::{classify, Collision};
use crate::entity::BodyModel;
use crate::events::{Bounce, EventLog, GoalEvent};
use crate::layout::{
    BOTTOM_WALL_Y, LEFT_PADDLE_X, LEFT_WALL_X, RIGHT_PADDLE_X, RIGHT_WALL_X, TOP_WALL_Y,
    UNIT_LENGTH,
};
use crate::math::{
    is_sqrt_floor, lemma_quot_of_multiple, lemma_quot_unique, lemma_sqrt_floor_unique, magnitude,
};
use crate::paddle::{all_chased, all_steered};
use crate::predictor::{
    after_bounce, height_at_target, intercept, lemma_one_bounce, reach_at_wall, INTERCEPT_X,
};
use crate::physics::{
    clear_of, impact, lemma_single_mover_log, lemma_sweep_one_obstacle, resolved, sweep, Impact,
};
use crate::vector::Point;
use crate::world::{
    dash, end_wall, initial_world, lemma_initial_puck_velocity, paddle_at, played, puck,
    side_wall, tally, tick_log, tick_motion, ticked, Keys, WorldModel,
};

verus! {

/// The place of the puck in the list of bodies.
pub open spec fn puck_index() -> int {
    6
}

/// The puck at `position` heading along `velocity`.
pub open spec fn puck_at(position: Point, velocity: Point) -> BodyModel {
    BodyModel { position, velocity: Some(velocity), ..puck() }
}

/// The bodies as set up, but with the puck at `position` heading along
/// `velocity`.
pub open spec fn with_puck(position: Point, velocity: Point) -> Seq<BodyModel> {
    initial_world().bodies.update(puck_index(), puck_at(position, velocity))
}

/// The bodies of the game in order: four walls, two paddles, the puck, ten
/// dashes.
pub proof fn lemma_roster()
    ensures
        initial_world().bodies.len() == 17,
        initial_world().bodies[0] == (BodyModel {
            goal: true,
            left: true,
            ..side_wall(LEFT_WALL_X as int)
        }),
        initial_world().bodies[1] == (BodyModel { goal: true, ..side_wall(RIGHT_WALL_X as int) }),
        initial_world().bodies[2] == end_wall(TOP_WALL_Y as int),
        initial_world().bodies[3] == end_wall(BOTTOM_WALL_Y as int),
        initial_world().bodies[4] == (BodyModel { left: true, ..paddle_at(LEFT_PADDLE_X as int) }),
        initial_world().bodies[5] == (BodyModel {
            right: true,
            ..paddle_at(RIGHT_PADDLE_X as int)
        }),
        initial_world().bodies[6] == puck(),
        forall|i: int| 7 <= i < 17 ==> #[trigger] initial_world().bodies[i] == dash(i - 7),
{
}

/// One tick without a key, while the AI aims at the middle: the paddles
/// rest, the puck advances by its velocity, and if it then overlaps no
/// obstacle but perhaps the one at index `struck`, it carries away what that
/// one gives it.
pub proof fn lemma_idle_tick(world: WorldModel, position: Point, velocity: Point, struck: int)
    requires
        world.bodies == with_puck(position, velocity),
        world.y_target == 0,
        position.plus(velocity).in_range(),
        clear_of(
            puck_at(position.plus(velocity), velocity),
            with_puck(position.plus(velocity), velocity),
            17,
            struck,
        ),
    ensures
        ({
            let arrived = position.plus(velocity);
            let met = with_puck(arrived, velocity);
            let outcome = if 0 <= struck < 17 && met[struck].is_obstacle() {
                impact(puck_at(arrived, velocity), velocity, met[struck])
            } else {
                Impact { velocity, log: EventLog::empty() }
            };
            &&& tick_motion(world, false, false) == met
            &&& ticked(world, false, false).bodies == with_puck(arrived, outcome.velocity)
            &&& tick_log(world, false, false) == outcome.log
        }),
{
    lemma_roster();
    let arrived = position.plus(velocity);
    let met = with_puck(arrived, velocity);
    let steered = all_steered(world.bodies, false, false);
    let chased = all_chased(steered, world.y_target);
    assert(steered =~= world.bodies);
    assert(chased =~= world.bodies);
    assert(tick_motion(world, false, false) =~= met);
    lemma_sweep_one_obstacle(puck_at(arrived, velocity), velocity, met, 17, struck);
    lemma_single_mover_log(met, puck_index(), 17);
    let outcome = sweep(puck_at(arrived, velocity), velocity, met, 17);
    assert(resolved(met) =~= with_puck(arrived, outcome.velocity));
}

/// No key held for `n` ticks.
pub open spec fn idle(n: nat) -> Seq<Keys> {
    Seq::new(n, |i: int| Keys { up: false, down: false })
}

/// The tick in which the puck meets the bottom wall.
pub open spec fn bounce_tick() -> nat {
    85
}

/// The tick in which the puck meets the left goal.
pub open spec fn goal_tick() -> nat {
    108
}

/// Where the puck is after `n` ticks of the opening: it falls along the
/// diagonal until it meets the bottom wall, and rises from there.
pub open spec fn opening_position(n: nat) -> Point
    recommends
        n <= goal_tick(),
{
    if n <= bounce_tick() {
        Point { x: -4949 * n, y: -4949 * n }
    } else {
        Point { x: -4949 * n, y: -4949 * bounce_tick() + 4949 * (n - bounce_tick()) }
    }
}

/// How the puck heads after `n` ticks of the opening: down and left until
/// the bottom wall turns it up, and up and left until the left wall turns
/// it back.
pub open spec fn opening_velocity(n: nat) -> Point
    recommends
        n <= goal_tick(),
{
    if n < bounce_tick() {
        Point { x: -4949, y: -4949 }
    } else if n < goal_tick() {
        Point { x: -4949, y: 4949 }
    } else {
        Point { x: 4949, y: 4949 }
    }
}

/// The obstacle that the puck meets in tick `n` of the opening: the bottom
/// wall, the left wall, or none.
pub open spec fn opening_obstacle(n: nat) -> int {
    if n == bounce_tick() {
        3
    } else if n == goal_tick() {
        0
    } else {
        -1
    }
}

/// In no tick of the opening does the puck overlap an obstacle other than
/// the one it is said to meet.
proof fn lemma_opening_is_clear(n: nat)
    requires
        1 <= n <= goal_tick(),
    ensures
        clear_of(
            puck_at(opening_position(n), opening_velocity((n - 1) as nat)),
            with_puck(opening_position(n), opening_velocity((n - 1) as nat)),
            17,
            opening_obstacle(n),
        ),
{
    lemma_roster();
    let mover = puck_at(opening_position(n), opening_velocity((n - 1) as nat));
    let bodies = with_puck(opening_position(n), opening_velocity((n - 1) as nat));
    assert forall|j: int|
        0 <= j < 17 && j != opening_obstacle(n) && (#[trigger] bodies[j]).is_obstacle() implies classify(
        mover.position,
        mover.size,
        bodies[j].position,
        bodies[j].size,
    ) == Collision::NoCollision by {
        if j >= 7 {
            assert(bodies[j] == dash(j - 7));
        }
    }
}

/// What the puck touches during the opening. It overlaps the bottom wall
/// in tick `bounce_tick()` only, and strikes its top face; it overlaps the
/// left wall in tick `goal_tick()` only, and strikes its right face. Until
/// the bounce it is on the falling diagonal, left of and below the middle.
pub proof fn lemma_opening_contacts(n: nat)
    requires
        1 <= n <= goal_tick(),
    ensures
        classify(
            opening_position(n),
            puck().size,
            end_wall(BOTTOM_WALL_Y as int).position,
            end_wall(BOTTOM_WALL_Y as int).size,
        ) == (if n == bounce_tick() {
            Collision::Top
        } else {
            Collision::NoCollision
        }),
        classify(
            opening_position(n),
            puck().size,
            side_wall(LEFT_WALL_X as int).position,
            side_wall(LEFT_WALL_X as int).size,
        ) == (if n == goal_tick() {
            Collision::Right
        } else {
            Collision::NoCollision
        }),
        n <= bounce_tick() ==> opening_position(n).x == opening_position(n).y < 0,
{
}

/// The opening of the game up to the tick before the goal. After `n` ticks
/// without a key the puck is at `opening_position(n)` and heads along
/// `opening_velocity(n)`; nothing else has changed. The only message up to
/// then is the collision with the bottom wall in tick `bounce_tick()`.
pub proof fn lemma_opening(n: nat)
    requires
        n < goal_tick(),
    ensures
        played(initial_world(), idle(n)) == (WorldModel {
            bodies: with_puck(opening_position(n), opening_velocity(n)),
            y_target: 0,
            left_score: 0,
            right_score: 0,
        }),
        n >= 1 ==> tick_log(played(initial_world(), idle((n - 1) as nat)), false, false) == (
        EventLog {
            collisions: if n == bounce_tick() {
                1
            } else {
                0
            },
            ..EventLog::empty()
        }),
    decreases n,
{
    lemma_roster();
    lemma_initial_puck_velocity();
    if n == 0 {
        assert(idle(0) =~= Seq::empty());
        assert(with_puck(opening_position(0), opening_velocity(0)) =~= initial_world().bodies);
    } else {
        let earlier = (n - 1) as nat;
        lemma_opening(earlier);
        assert(idle(n).drop_last() =~= idle(earlier));
        let before = played(initial_world(), idle(earlier));
        lemma_opening_is_clear(n);
        lemma_idle_tick(
            before,
            opening_position(earlier),
            opening_velocity(earlier),
            opening_obstacle(n),
        );
        let log = tick_log(before, false, false);
        assert(log.goals =~= Seq::empty());
        assert(log.left_collisions =~= Seq::empty());
    }
}

/// The direction in which the puck leaves the left wall.
proof fn lemma_direction_after_goal()
    ensures
        (Point { x: 4949, y: 4949 }).normalized() == (Point { x: 46340, y: 46340 }),
{
    let velocity = Point { x: 4949, y: 4949 };
    let fine = velocity.norm_sq() * UNIT_LENGTH * UNIT_LENGTH;
    assert(fine == 210389840577953792) by (nonlinear_arith)
        requires
            fine == (velocity.x * velocity.x + velocity.y * velocity.y) * UNIT_LENGTH
                * UNIT_LENGTH,
            velocity.x == 4949,
            velocity.y == 4949,
            UNIT_LENGTH == 65536,
    ;
    assert(is_sqrt_floor(210389840577953792, 458682723)) by (nonlinear_arith);
    lemma_sqrt_floor_unique(210389840577953792, 458682723);
    assert(velocity.fine_length() == 458682723);
    let numerator = velocity.x * UNIT_LENGTH * UNIT_LENGTH;
    assert(numerator == 21255793147904) by (nonlinear_arith)
        requires
            numerator == velocity.x * UNIT_LENGTH * UNIT_LENGTH,
            velocity.x == 4949,
            UNIT_LENGTH == 65536,
    ;
    assert(velocity.y * UNIT_LENGTH * UNIT_LENGTH == numerator);
    assert(magnitude(46340) * magnitude(458682723) <= magnitude(numerator) < (magnitude(46340)
        + 1) * magnitude(458682723)) by (nonlinear_arith)
        requires
            numerator == 21255793147904,
    ;
    lemma_quot_unique(numerator, 458682723, 46340);
}

/// The intercept predicted from the puck's bounce on the left wall: it
/// meets the top wall at x = 211546 and comes down to the right wall.
proof fn lemma_intercept_after_goal()
    ensures
        intercept(Point { x: -534492, y: -306838 }, Point { x: 46340, y: 46340 }, 0) == (Point {
            x: INTERCEPT_X as int,
            y: 96346,
        }),
{
    let pos = Point { x: -534492, y: -306838 };
    let dir = Point { x: 46340, y: 46340 };
    lemma_quot_of_multiple(INTERCEPT_X - pos.x, 46340);
    assert(height_at_target(pos, dir) == 782054);
    lemma_quot_of_multiple(TOP_WALL_Y - pos.y, 46340);
    assert(reach_at_wall(pos, dir) == 211546);
    let bounce = after_bounce(pos, dir);
    assert(bounce.0 == (Point { x: 211546, y: TOP_WALL_Y as int }));
    assert(bounce.1 == (Point { x: 46340, y: -46340 }));
    lemma_quot_of_multiple(-(INTERCEPT_X - 211546), 46340);
    assert((INTERCEPT_X - 211546) * (-46340) == (-(INTERCEPT_X - 211546)) * 46340)
        by (nonlinear_arith);
    assert(height_at_target(bounce.0, bounce.1) == 96346);
    lemma_one_bounce(pos, dir, 0);
}

/// The first goal. In tick `goal_tick()` of a game without a key the puck
/// meets the left wall: there is a collision, a goal on the left side and a
/// bounce on the left side; the puck turns back to the right; the right
/// side has its first point; and the AI aims at the predicted intercept.
/// Before that tick the puck has bounced off the bottom wall, in tick
/// `bounce_tick()`, and off nothing else.
pub proof fn lemma_first_goal()
    ensures
        bounce_tick() < goal_tick(),
        tick_log(played(initial_world(), idle((goal_tick() - 1) as nat)), false, false) == (
        EventLog {
            collisions: 1,
            left_collisions: seq![
                Bounce {
                    position: opening_position(goal_tick()),
                    direction: Point { x: 46340, y: 46340 },
                },
            ],
            goals: seq![GoalEvent { is_left_goal: true }],
        }),
        played(initial_world(), idle(goal_tick())) == (WorldModel {
            bodies: with_puck(opening_position(goal_tick()), opening_velocity(goal_tick())),
            y_target: 96346,
            left_score: 0,
            right_score: 1,
        }),
{
    lemma_roster();
    let n = goal_tick();
    let earlier = (n - 1) as nat;
    lemma_opening(earlier);
    assert(idle(n).drop_last() =~= idle(earlier));
    let before = played(initial_world(), idle(earlier));
    lemma_opening_is_clear(n);
    lemma_idle_tick(before, opening_position(earlier), opening_velocity(earlier), 0);
    lemma_direction_after_goal();
    lemma_intercept_after_goal();
    let log = tick_log(before, false, false);
    let goal = GoalEvent { is_left_goal: true };
    assert(log.goals =~= seq![goal]);
    assert(log.goals.drop_last() =~= Seq::empty());
    assert(tally(log.goals.drop_last(), true) == 0);
    assert(tally(log.goals.drop_last(), false) == 0);
    assert(tally(log.goals, true) == 1);
    assert(tally(log.goals, false) == 0);
    assert(log.left_collisions =~= seq![
        Bounce { position: opening_position(n), direction: Point { x: 46340, y: 46340 } },
    ]);
}

} // verus!
