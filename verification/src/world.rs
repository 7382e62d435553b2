//! The whole game: its bodies, the AI's target and the score, how they are
//! set up, and what one tick does to them.

use vstd::prelude::*;
use crate::entity::{models, Ai, Body, BodyModel, Goal, Left, Paddle, Right, Velocity};
use crate::events::{CollisionEvent, EventLog, Events, GoalEvent};
use crate::layout::{
    BOTTOM_WALL_Y, END_WALL_HEIGHT, END_WALL_WIDTH, INITIAL_PUCK_DIRECTION_X,
    INITIAL_PUCK_DIRECTION_Y, LEFT_PADDLE_X, LEFT_WALL_X, LINE_HEIGHT, LINE_SPACING, LINE_WIDTH,
    LOWEST_LINE_Y, NUM_DOTTED_LINES, PADDLE_HEIGHT, PADDLE_WIDTH, PUCK_HEIGHT, PUCK_SPEED,
    PUCK_WIDTH, RIGHT_PADDLE_X, RIGHT_WALL_X, SIDE_WALL_HEIGHT, SIDE_WALL_WIDTH, TOP_WALL_Y,
    UNIT_LENGTH,
};
use crate::math::{is_sqrt_floor, lemma_quot_unique, lemma_sqrt_floor_unique, magnitude};
use crate::paddle::{
    ai_move_right_paddle, all_chased, all_steered, move_left_paddle, within_bounds,
};
use crate::physics::{
    all_moved, apply_velocity, check_collisions, lemma_sweep_preserves_speed, resolved,
    resolved_log,
};
use crate::predictor::{retargeted, set_ai_target};
use crate::vector::{Point, Vec2, COORD_MAX};

verus! {

/// The points of the two sides.
#[derive(Clone, Copy, Debug, PartialEq, Eq, Structural)]
pub struct Scoreboard {
    pub left_score: u64,
    pub right_score: u64,
}

/// The state of a game between two ticks.
#[derive(Debug)]
pub struct World {
    pub bodies: Vec<Body>,
    pub ai: Ai,
    pub scoreboard: Scoreboard,
}

/// The state of a game as the rules see it.
pub struct WorldModel {
    pub bodies: Seq<BodyModel>,
    pub y_target: int,
    pub left_score: nat,
    pub right_score: nat,
}

impl View for World {
    type V = WorldModel;

    open spec fn view(&self) -> WorldModel {
        WorldModel {
            bodies: models(self.bodies@),
            y_target: self.ai.y_target as int,
            left_score: self.scoreboard.left_score as nat,
            right_score: self.scoreboard.right_score as nat,
        }
    }
}

/// What a tick leaves for those who draw and play sounds: the goals that
/// fell, in order, and whether anything collided.
#[derive(Debug)]
pub struct TickReport {
    pub goals: Vec<GoalEvent>,
    pub play_sound: bool,
}

/// A collider at rest at `(x, y)`, `width` wide and `height` high, without
/// any other mark.
pub open spec fn block(x: int, y: int, width: int, height: int) -> BodyModel {
    BodyModel {
        position: Point { x, y },
        size: Point { x: width, y: height },
        velocity: None,
        collider: true,
        paddle: false,
        goal: false,
        left: false,
        right: false,
    }
}

/// A side wall at `x`.
pub open spec fn side_wall(x: int) -> BodyModel {
    block(x, 0, SIDE_WALL_WIDTH as int, SIDE_WALL_HEIGHT as int)
}

/// The top or bottom wall at `y`.
pub open spec fn end_wall(y: int) -> BodyModel {
    block(0, y, END_WALL_WIDTH as int, END_WALL_HEIGHT as int)
}

/// The four walls: left, right, top, bottom. The left and the right one are
/// goals, and the left one belongs to the left side.
pub open spec fn walls() -> Seq<BodyModel> {
    seq![
        BodyModel { goal: true, left: true, ..side_wall(LEFT_WALL_X as int) },
        BodyModel { goal: true, ..side_wall(RIGHT_WALL_X as int) },
        end_wall(TOP_WALL_Y as int),
        end_wall(BOTTOM_WALL_Y as int),
    ]
}

/// A paddle at `x`, halfway up.
pub open spec fn paddle_at(x: int) -> BodyModel {
    BodyModel { paddle: true, ..block(x, 0, PADDLE_WIDTH as int, PADDLE_HEIGHT as int) }
}

/// The two paddles, the left one first.
pub open spec fn paddles() -> Seq<BodyModel> {
    seq![
        BodyModel { left: true, ..paddle_at(LEFT_PADDLE_X as int) },
        BodyModel { right: true, ..paddle_at(RIGHT_PADDLE_X as int) },
    ]
}

/// The velocity with which the puck sets off: `PUCK_SPEED` along its
/// initial direction.
pub open spec fn initial_puck_velocity() -> Point {
    (Point { x: INITIAL_PUCK_DIRECTION_X as int, y: INITIAL_PUCK_DIRECTION_Y as int })
        .normalized().scaled(PUCK_SPEED as int).saturate()
}

/// The puck as the game begins: in the middle, on its way.
pub open spec fn puck() -> BodyModel {
    BodyModel {
        velocity: Some(initial_puck_velocity()),
        ..block(0, 0, PUCK_WIDTH as int, PUCK_HEIGHT as int)
    }
}

/// The dash of the centre line that is `i` dashes above the lowest. It is
/// drawn, and nothing runs into it.
pub open spec fn dash(i: int) -> BodyModel {
    BodyModel {
        collider: false,
        ..block(0, LOWEST_LINE_Y + i * LINE_SPACING, LINE_WIDTH as int, LINE_HEIGHT as int)
    }
}

/// The first `n` dashes of the centre line, from the lowest up.
pub open spec fn dotted_line(n: nat) -> Seq<BodyModel> {
    Seq::new(n, |i: int| dash(i))
}

/// The game before its first tick: walls, paddles, puck and centre line, the
/// AI aiming at the middle, no points.
pub open spec fn initial_world() -> WorldModel {
    WorldModel {
        bodies: walls() + paddles() + seq![puck()] + dotted_line(NUM_DOTTED_LINES as nat),
        y_target: 0,
        left_score: 0,
        right_score: 0,
    }
}

/// How many of `goals` fell on the left side, if `left_goal`, or on the
/// right side, if not.
pub open spec fn tally(goals: Seq<GoalEvent>, left_goal: bool) -> nat
    decreases goals.len(),
{
    if goals.len() == 0 {
        0
    } else {
        tally(goals.drop_last(), left_goal) + if goals.last().is_left_goal == left_goal {
            1nat
        } else {
            0nat
        }
    }
}

/// A score after `points` more points. It stops at the largest number it
/// can hold.
pub open spec fn raised(score: nat, points: nat) -> nat {
    if score + points > u64::MAX {
        u64::MAX as nat
    } else {
        score + points
    }
}

/// The bodies as the collision rules find them in a tick: after the
/// player's turn, the AI's turn, and the motion.
pub open spec fn tick_motion(world: WorldModel, up: bool, down: bool) -> Seq<BodyModel> {
    all_moved(all_chased(all_steered(world.bodies, up, down), world.y_target))
}

/// The messages of a tick.
pub open spec fn tick_log(world: WorldModel, up: bool, down: bool) -> EventLog {
    resolved_log(tick_motion(world, up, down), world.bodies.len())
}

/// The game after a tick with the keys `up` and `down`. In order: the
/// player's paddle moves, the AI's paddle moves, the movers advance, the
/// collisions are resolved; then each goal on the left side gives the right
/// side a point and each goal on the right side gives the left side one, and
/// the AI aims anew if the puck bounced on the left side.
pub open spec fn ticked(world: WorldModel, up: bool, down: bool) -> WorldModel {
    let log = tick_log(world, up, down);
    WorldModel {
        bodies: resolved(tick_motion(world, up, down)),
        y_target: retargeted(world.y_target, log.left_collisions),
        left_score: raised(world.left_score, tally(log.goals, false)),
        right_score: raised(world.right_score, tally(log.goals, true)),
    }
}

/// Makes a collider at rest at `(x, y)` without any other mark.
fn make_block(x: i32, y: i32, width: i32, height: i32) -> (body: Body)
    requires
        -COORD_MAX <= x,
        -COORD_MAX <= y,
        -COORD_MAX <= width,
        -COORD_MAX <= height,
    ensures
        body@ == block(x as int, y as int, width as int, height as int),
        body.velocity is None,
{
    Body::new(Vec2::new(x as i64, y as i64), Vec2::new(width as i64, height as i64))
}

/// Adds the four walls.
pub fn setup_walls(bodies: &mut Vec<Body>)
    ensures
        models(final(bodies)@) == models(old(bodies)@) + walls(),
{
    let side_goal: Body = Body {
        goal: Some(Goal),
        ..make_block(LEFT_WALL_X, 0, SIDE_WALL_WIDTH, SIDE_WALL_HEIGHT)
    };
    bodies.push(Body { left: Some(Left), ..side_goal });
    bodies.push(
        Body { goal: Some(Goal), ..make_block(RIGHT_WALL_X, 0, SIDE_WALL_WIDTH, SIDE_WALL_HEIGHT) },
    );
    bodies.push(make_block(0, TOP_WALL_Y, END_WALL_WIDTH, END_WALL_HEIGHT));
    bodies.push(make_block(0, BOTTOM_WALL_Y, END_WALL_WIDTH, END_WALL_HEIGHT));
    assert(models(bodies@) =~= models(old(bodies)@) + walls());
}

/// Adds the two paddles.
pub fn setup_paddles(bodies: &mut Vec<Body>)
    ensures
        models(final(bodies)@) == models(old(bodies)@) + paddles(),
{
    let left: Body = Body {
        paddle: Some(Paddle),
        ..make_block(LEFT_PADDLE_X, 0, PADDLE_WIDTH, PADDLE_HEIGHT)
    };
    bodies.push(Body { left: Some(Left), ..left });
    let right: Body = Body {
        paddle: Some(Paddle),
        ..make_block(RIGHT_PADDLE_X, 0, PADDLE_WIDTH, PADDLE_HEIGHT)
    };
    bodies.push(Body { right: Some(Right), ..right });
    assert(models(bodies@) =~= models(old(bodies)@) + paddles());
}

/// Adds the puck.
pub fn setup_puck(bodies: &mut Vec<Body>)
    ensures
        models(final(bodies)@) == models(old(bodies)@) + seq![puck()],
{
    let direction: Vec2 = Vec2::new(
        INITIAL_PUCK_DIRECTION_X as i64,
        INITIAL_PUCK_DIRECTION_Y as i64,
    );
    let velocity: Vec2 = direction.normalize().scale(PUCK_SPEED);
    bodies.push(
        Body { velocity: Some(Velocity(velocity)), ..make_block(0, 0, PUCK_WIDTH, PUCK_HEIGHT) },
    );
    assert(models(bodies@) =~= models(old(bodies)@) + seq![puck()]);
}

/// Adds the dashes of the centre line.
pub fn setup_dotted_line(bodies: &mut Vec<Body>)
    ensures
        models(final(bodies)@) == models(old(bodies)@) + dotted_line(NUM_DOTTED_LINES as nat),
{
    let mut y_index: i32 = 0;
    while y_index < NUM_DOTTED_LINES
        invariant
            0 <= y_index <= NUM_DOTTED_LINES,
            models(bodies@) == models(old(bodies)@) + dotted_line(y_index as nat),
        decreases NUM_DOTTED_LINES - y_index,
    {
        let ghost so_far = models(bodies@);
        let dash: Body = make_block(
            0,
            y_index * LINE_SPACING + LOWEST_LINE_Y,
            LINE_WIDTH,
            LINE_HEIGHT,
        );
        let dash: Body = Body { collider: None, ..dash };
        bodies.push(dash);
        proof {
            assert(models(bodies@) =~= so_far.push(dash@));
            assert(dotted_line((y_index + 1) as nat) =~= dotted_line(y_index as nat).push(dash@));
        }
        y_index += 1;
    }
}

/// Sets up the game.
pub fn setup() -> (world: World)
    ensures
        world@ == initial_world(),
{
    let mut bodies: Vec<Body> = Vec::new();
    assert(models(bodies@) =~= Seq::empty());
    setup_walls(&mut bodies);
    setup_paddles(&mut bodies);
    setup_puck(&mut bodies);
    setup_dotted_line(&mut bodies);
    assert(models(bodies@) =~= initial_world().bodies);
    World {
        bodies,
        ai: Ai { y_target: 0 },
        scoreboard: Scoreboard { left_score: 0, right_score: 0 },
    }
}

/// Gives each goal's point to the side that scored: a goal on the left side
/// to the right, a goal on the right side to the left.
pub fn on_goal_scored(scoreboard: &mut Scoreboard, goals: &Vec<GoalEvent>)
    ensures
        final(scoreboard).left_score == raised(
            old(scoreboard).left_score as nat,
            tally(goals@, false),
        ),
        final(scoreboard).right_score == raised(
            old(scoreboard).right_score as nat,
            tally(goals@, true),
        ),
{
    let n: usize = goals.len();
    let mut i: usize = 0;
    assert(goals@.take(0) =~= Seq::empty());
    while i < n
        invariant
            i <= n,
            n == goals@.len(),
            scoreboard.left_score == raised(
                old(scoreboard).left_score as nat,
                tally(goals@.take(i as int), false),
            ),
            scoreboard.right_score == raised(
                old(scoreboard).right_score as nat,
                tally(goals@.take(i as int), true),
            ),
        decreases n - i,
    {
        assert(goals@.take(i + 1).drop_last() =~= goals@.take(i as int));
        if goals[i].is_left_goal {
            if scoreboard.right_score < u64::MAX {
                scoreboard.right_score += 1;
            }
        } else {
            if scoreboard.left_score < u64::MAX {
                scoreboard.left_score += 1;
            }
        }
        i += 1;
    }
    assert(goals@.take(n as int) =~= goals@);
}

/// Tells whether the collision sound is due, once however many collisions
/// there were, and empties the list so that it is not played again.
pub fn play_collision_sound(collisions: &mut Vec<CollisionEvent>) -> (play: bool)
    ensures
        play == (old(collisions)@.len() > 0),
        final(collisions)@.len() == 0,
{
    if collisions.len() > 0 {
        collisions.clear();
        true
    } else {
        false
    }
}

/// Runs one tick of the game with the keys `up` and `down`.
pub fn tick(world: &mut World, up: bool, down: bool) -> (report: TickReport)
    ensures
        final(world)@ == ticked(old(world)@, up, down),
        report.goals@ == tick_log(old(world)@, up, down).goals,
        report.play_sound == (tick_log(old(world)@, up, down).collisions > 0),
{
    let mut events: Events = Events::new();
    move_left_paddle(&mut world.bodies, up, down);
    ai_move_right_paddle(&mut world.bodies, &world.ai);
    apply_velocity(&mut world.bodies);
    check_collisions(&mut world.bodies, &mut events);
    proof {
        let log = tick_log(old(world)@, up, down);
        assert(EventLog::empty().then_log(log).left_collisions =~= log.left_collisions);
        assert(EventLog::empty().then_log(log).goals =~= log.goals);
    }
    on_goal_scored(&mut world.scoreboard, &events.goals);
    let play_sound: bool = play_collision_sound(&mut events.collisions);
    set_ai_target(&mut world.ai, &events.left_collisions);
    TickReport { goals: events.goals, play_sound }
}

/// Whether every paddle of a side that rests is within the bounds.
pub open spec fn paddles_within_bounds(bodies: Seq<BodyModel>) -> bool {
    forall|i: int|
        0 <= i < bodies.len() && (#[trigger] bodies[i]).paddle && (bodies[i].left
            || bodies[i].right) && !bodies[i].is_mover() ==> within_bounds(bodies[i].position.y)
}

/// The game begins with the puck heading down and to the left at an angle
/// of 45 degrees.
pub proof fn lemma_initial_puck_velocity()
    ensures
        initial_puck_velocity() == (Point { x: -4949, y: -4949 }),
{
    let direction = Point {
        x: INITIAL_PUCK_DIRECTION_X as int,
        y: INITIAL_PUCK_DIRECTION_Y as int,
    };
    let fine = direction.norm_sq() * UNIT_LENGTH * UNIT_LENGTH;
    assert(fine == 0x8000_0000_0000_0000) by (nonlinear_arith)
        requires
            fine == (direction.x * direction.x + direction.y * direction.y) * UNIT_LENGTH
                * UNIT_LENGTH,
            direction.x == -32768,
            direction.y == -32768,
            UNIT_LENGTH == 65536,
    ;
    assert(is_sqrt_floor(0x8000_0000_0000_0000, 3037000499)) by (nonlinear_arith);
    lemma_sqrt_floor_unique(0x8000_0000_0000_0000, 3037000499);
    assert(direction.fine_length() == 3037000499);
    let numerator = direction.x * UNIT_LENGTH * UNIT_LENGTH;
    assert(numerator == -0x8000_0000_0000) by (nonlinear_arith)
        requires
            numerator == direction.x * UNIT_LENGTH * UNIT_LENGTH,
            direction.x == -32768,
            UNIT_LENGTH == 65536,
    ;
    assert(direction.y * UNIT_LENGTH * UNIT_LENGTH == numerator);
    assert(magnitude(-46340) * magnitude(3037000499) <= magnitude(numerator) < (magnitude(-46340)
        + 1) * magnitude(3037000499)) by (nonlinear_arith)
        requires
            numerator == -0x8000_0000_0000,
    ;
    lemma_quot_unique(numerator, 3037000499, -46340);
    let unit = direction.normalized();
    assert(unit == (Point { x: -46340, y: -46340 }));
    assert(unit.x * PUCK_SPEED == -324380000);
    assert(magnitude(-4949) * magnitude(65536) <= magnitude(-324380000) < (magnitude(-4949) + 1)
        * magnitude(65536)) by (nonlinear_arith);
    lemma_quot_unique(-324380000, 65536, -4949);
}

/// The paddles never leave the field: if at the start of a tick every
/// resting paddle of a side is within the bounds, so it is at its end, and
/// after a player's turn the left paddle is within the bounds in any case.
pub proof fn lemma_tick_keeps_paddles_within_bounds(world: WorldModel, up: bool, down: bool)
    requires
        paddles_within_bounds(world.bodies),
    ensures
        paddles_within_bounds(ticked(world, up, down).bodies),
        ticked(world, up, down).bodies.len() == world.bodies.len(),
{
    let after = ticked(world, up, down).bodies;
    assert forall|i: int|
        0 <= i < after.len() && (#[trigger] after[i]).paddle && (after[i].left || after[i].right)
            && !after[i].is_mover() implies within_bounds(after[i].position.y) by {
        let b = world.bodies[i];
        assert(b.paddle);
    }
}

/// The keys held during one tick.
pub struct Keys {
    pub up: bool,
    pub down: bool,
}

/// The game after one tick for each entry of `keys`, in order.
pub open spec fn played(world: WorldModel, keys: Seq<Keys>) -> WorldModel
    decreases keys.len(),
{
    if keys.len() == 0 {
        world
    } else {
        ticked(played(world, keys.drop_last()), keys.last().up, keys.last().down)
    }
}

/// However long a game lasts and whatever keys are held, the resting
/// paddles of both sides stay within the bounds if they started there.
pub proof fn lemma_paddles_stay_in_the_field(world: WorldModel, keys: Seq<Keys>)
    requires
        paddles_within_bounds(world.bodies),
    ensures
        paddles_within_bounds(played(world, keys).bodies),
        played(world, keys).bodies.len() == world.bodies.len(),
    decreases keys.len(),
{
    if keys.len() > 0 {
        lemma_paddles_stay_in_the_field(world, keys.drop_last());
        lemma_tick_keeps_paddles_within_bounds(
            played(world, keys.drop_last()),
            keys.last().up,
            keys.last().down,
        );
    }
}

/// In a game that starts from the set-up, the paddles are within the bounds
/// after every tick.
pub proof fn lemma_game_keeps_paddles_in_the_field(keys: Seq<Keys>)
    ensures
        paddles_within_bounds(played(initial_world(), keys).bodies),
{
    let bodies = initial_world().bodies;
    assert forall|i: int|
        0 <= i < bodies.len() && (#[trigger] bodies[i]).paddle implies within_bounds(
        bodies[i].position.y,
    ) by {
        if i >= 7 {
            assert(bodies[i] == dash(i - 7));
        }
    }
    lemma_paddles_stay_in_the_field(initial_world(), keys);
}

/// A tick neither starts nor stops a body, and a mover leaves it as fast
/// as it entered.
pub proof fn lemma_tick_preserves_speed(world: WorldModel, up: bool, down: bool, i: int)
    requires
        0 <= i < world.bodies.len(),
    ensures
        ticked(world, up, down).bodies[i].velocity is Some <==> world.bodies[i].velocity is Some,
        world.bodies[i].velocity matches Some(before) ==> ticked(
            world,
            up,
            down,
        ).bodies[i].velocity.unwrap().norm_sq() == before.norm_sq(),
{
    let met = tick_motion(world, up, down);
    if let Some(before) = world.bodies[i].velocity {
        lemma_sweep_preserves_speed(met[i], before, met, met.len());
    }
}

} // verus!
