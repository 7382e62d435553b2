//! The AI's look-ahead: where a puck that bounces between the top and
//! bottom walls will reach the right wall.

use vstd::prelude::*;
use crate::entity::Ai;
use crate::events::{bounces, Bounce, LeftCollisionEvent};
use crate::layout::{BOTTOM_WALL_Y, MAX_BOUNCES, RIGHT_WALL_X, TOP_WALL_Y};
use crate::math::{div_toward_zero, lemma_quot_bounds, quot};
use crate::vector::{saturate, Point, Vec2, COORD_MAX};

verus! {

/// The vertical line that the search aims for: the middle of the right
/// wall.
pub const INTERCEPT_X: i32 = RIGHT_WALL_X;

/// The height at which the straight line from `pos` along `dir` crosses the
/// target line, rounded toward `pos.y`.
pub open spec fn height_at_target(pos: Point, dir: Point) -> int
    recommends
        dir.x != 0,
{
    pos.y + quot((INTERCEPT_X - pos.x) * dir.y, dir.x)
}

/// The wall that a puck heading along `dir` comes to: the top wall if it
/// rises, the bottom wall if it falls.
pub open spec fn wall_ahead(dir: Point) -> int {
    if dir.y >= 0 {
        TOP_WALL_Y as int
    } else {
        BOTTOM_WALL_Y as int
    }
}

/// The place along the wall ahead at which the straight line from `pos`
/// along `dir` meets that wall, rounded toward `pos.x`.
pub open spec fn reach_at_wall(pos: Point, dir: Point) -> int
    recommends
        dir.y != 0,
{
    pos.x + quot((wall_ahead(dir) - pos.y) * dir.x, dir.y)
}

/// Where the puck stands and heads after its bounce off the wall ahead: on
/// that wall, as far along it as the coordinate range lets it, with its
/// vertical direction turned back.
pub open spec fn after_bounce(pos: Point, dir: Point) -> (Point, Point) {
    (Point { x: saturate(reach_at_wall(pos, dir)), y: wall_ahead(dir) }, dir.flip_y())
}

/// How a search ended: the point it settled on and the number of bounces it
/// had followed by then.
pub struct Search {
    pub point: Point,
    pub bounces: nat,
}

/// The search for the intercept of a puck at `pos` heading along `dir`,
/// after `bounces` bounces have been followed already.
///
/// - After `MAX_BOUNCES` bounces the search gives up and settles on `pos`.
/// - A puck that does not move sideways never reaches the target line: the
///   search settles on `pos`.
/// - Where the straight line reaches the target line strictly between the
///   bottom and the top wall, that crossing is the intercept.
/// - Otherwise the puck bounces first. If it meets the wall ahead short of
///   the target line, the search goes on from there with the vertical
///   direction turned back. If it does not, or if it moves along the walls
///   and meets neither, the search settles on `pos`.
pub open spec fn search(pos: Point, dir: Point, bounces: nat) -> Search
    decreases MAX_BOUNCES - bounces,
{
    if bounces >= MAX_BOUNCES || dir.x == 0 {
        Search { point: pos, bounces }
    } else if BOTTOM_WALL_Y < height_at_target(pos, dir) < TOP_WALL_Y {
        Search { point: Point { x: INTERCEPT_X as int, y: height_at_target(pos, dir) }, bounces }
    } else if dir.y != 0 && reach_at_wall(pos, dir) < INTERCEPT_X {
        search(after_bounce(pos, dir).0, after_bounce(pos, dir).1, bounces + 1)
    } else {
        Search { point: pos, bounces }
    }
}

/// The predicted intercept of a puck at `pos` heading along `dir`, after
/// `bounces` bounces have been followed already.
pub open spec fn intercept(pos: Point, dir: Point, bounces: nat) -> Point {
    search(pos, dir, bounces).point
}

/// The AI's target after a tick in which the puck left the bounces
/// `left_collisions` on the left side: the height of the intercept predicted
/// from the last of them, or the target as it was if there was none.
pub open spec fn retargeted(y_target: int, left_collisions: Seq<Bounce>) -> int {
    if left_collisions.len() == 0 {
        y_target
    } else {
        intercept(left_collisions.last().position, left_collisions.last().direction, 0).y
    }
}

/// Predicts where a puck at `pos` heading along `dir` will reach the right
/// wall, following its bounces off the top and bottom walls.
/// `bounces` is the number of bounces followed so far: a caller starts at 0.
pub fn recursive_solve_right_wall_intercept(pos: Vec2, dir: Vec2, bounces: usize) -> (hit: Vec2)
    ensures
        hit@ == intercept(pos@, dir@, bounces as nat),
    decreases MAX_BOUNCES - bounces,
{
    if bounces >= MAX_BOUNCES {
        return pos;
    }
    let px: i128 = pos.x() as i128;
    let py: i128 = pos.y() as i128;
    let dx: i128 = dir.x() as i128;
    let dy: i128 = dir.y() as i128;
    if dx == 0 {
        return pos;
    }
    let run: i128 = INTERCEPT_X as i128 - px;
    proof {
        lemma_product_bound(run as int, dy as int);
        lemma_quot_bounds(run * dy, dx as int);
    }
    let cy: i128 = py + div_toward_zero(run * dy, dx);
    if cy > BOTTOM_WALL_Y as i128 && cy < TOP_WALL_Y as i128 {
        return Vec2::new(INTERCEPT_X as i64, cy as i64);
    }
    if dy == 0 {
        return pos;
    }
    let tby: i128 = if dy >= 0 {
        TOP_WALL_Y as i128
    } else {
        BOTTOM_WALL_Y as i128
    };
    let rise: i128 = tby - py;
    proof {
        lemma_product_bound(rise as int, dx as int);
        lemma_quot_bounds(rise * dx, dy as int);
    }
    let cx: i128 = px + div_toward_zero(rise * dx, dy);
    if cx < INTERCEPT_X as i128 {
        let lowest: i128 = -(COORD_MAX as i128);
        let sx: i128 = if cx < lowest {
            lowest
        } else {
            cx
        };
        return recursive_solve_right_wall_intercept(
            Vec2::new(sx as i64, tby as i64),
            dir.flip_y(),
            bounces + 1,
        );
    }
    pos
}

/// Points the AI at the intercept predicted from the last bounce on the left
/// side, if there was one during the tick.
pub fn set_ai_target(ai: &mut Ai, left_collisions: &Vec<LeftCollisionEvent>)
    ensures
        final(ai).y_target == retargeted(old(ai).y_target as int, bounces(left_collisions@)),
{
    let n: usize = left_collisions.len();
    if n > 0 {
        let collision: LeftCollisionEvent = left_collisions[n - 1];
        ai.y_target = recursive_solve_right_wall_intercept(
            collision.puck_position,
            collision.puck_direction,
            0,
        ).y();
    }
}

/// The product of two numbers of up to 34 bits has at most 68.
proof fn lemma_product_bound(a: int, b: int)
    requires
        -0x2_0000_0000 <= a <= 0x2_0000_0000,
        -0x2_0000_0000 <= b <= 0x2_0000_0000,
    ensures
        -0x4_0000_0000_0000_0000 <= a * b <= 0x4_0000_0000_0000_0000,
{
    assert(-0x4_0000_0000_0000_0000 <= a * b <= 0x4_0000_0000_0000_0000) by (nonlinear_arith)
        requires
            -0x2_0000_0000 <= a <= 0x2_0000_0000,
            -0x2_0000_0000 <= b <= 0x2_0000_0000,
    ;
}

/// The search ends: it never follows more than `MAX_BOUNCES` bounces, that
/// is, it takes at most `MAX_BOUNCES + 1` steps.
pub proof fn lemma_search_terminates(pos: Point, dir: Point, bounces: nat)
    ensures
        search(pos, dir, bounces).bounces >= bounces,
        bounces <= MAX_BOUNCES ==> search(pos, dir, bounces).bounces <= MAX_BOUNCES,
    decreases MAX_BOUNCES - bounces,
{
    if bounces < MAX_BOUNCES {
        lemma_search_terminates(after_bounce(pos, dir).0, after_bounce(pos, dir).1, bounces + 1);
    }
}

/// A puck whose straight line reaches the target line between the walls is
/// intercepted there, without a bounce.
pub proof fn lemma_straight_shot(pos: Point, dir: Point, bounces: nat)
    requires
        bounces < MAX_BOUNCES,
        dir.x != 0,
        BOTTOM_WALL_Y < height_at_target(pos, dir) < TOP_WALL_Y,
    ensures
        intercept(pos, dir, bounces) == (Point {
            x: INTERCEPT_X as int,
            y: height_at_target(pos, dir),
        }),
        search(pos, dir, bounces).bounces == bounces,
{
}

/// A puck that meets the wall ahead short of the target line, and from there
/// reaches the target line between the walls, is intercepted where the
/// mirrored line from the bounce crosses the target line.
pub proof fn lemma_one_bounce(pos: Point, dir: Point, bounces: nat)
    requires
        bounces + 1 < MAX_BOUNCES,
        dir.x != 0,
        dir.y != 0,
        !(BOTTOM_WALL_Y < height_at_target(pos, dir) < TOP_WALL_Y),
        reach_at_wall(pos, dir) < INTERCEPT_X,
        BOTTOM_WALL_Y < height_at_target(after_bounce(pos, dir).0, after_bounce(pos, dir).1)
            < TOP_WALL_Y,
    ensures
        intercept(pos, dir, bounces) == (Point {
            x: INTERCEPT_X as int,
            y: height_at_target(after_bounce(pos, dir).0, after_bounce(pos, dir).1),
        }),
        search(pos, dir, bounces).bounces == bounces + 1,
{
    lemma_straight_shot(after_bounce(pos, dir).0, after_bounce(pos, dir).1, bounces + 1);
}

/// What a search can settle on: a point of the target line strictly between
/// the walls, or a place where the puck stood when the search gave up, which
/// is `pos` or a point of the top or bottom wall. Either way the point is
/// one that a `Vec2` can hold if `pos` is.
pub proof fn lemma_search_settles(pos: Point, dir: Point, bounces: nat)
    requires
        pos.in_range(),
    ensures
        intercept(pos, dir, bounces).in_range(),
        ({
            let hit = intercept(pos, dir, bounces);
            ||| hit.x == INTERCEPT_X && BOTTOM_WALL_Y < hit.y < TOP_WALL_Y
            ||| hit == pos
            ||| hit.y == TOP_WALL_Y
            ||| hit.y == BOTTOM_WALL_Y
        }),
    decreases MAX_BOUNCES - bounces,
{
    if bounces < MAX_BOUNCES {
        lemma_search_settles(after_bounce(pos, dir).0, after_bounce(pos, dir).1, bounces + 1);
    }
}

} // verus!
