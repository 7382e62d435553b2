//! The two paddle controllers: the player's paddle follows the up and down
//! keys, the AI's paddle follows its target. Neither leaves the field.

use vstd::prelude::*;
use crate::entity::{models, Ai, Body, BodyModel};
use crate::layout::{
    AI_PADDLE_SPEED, BOTTOM_BOUND, HALF_PUCK_HEIGHT, PLAYER_PADDLE_SPEED, TOP_BOUND,
};
use crate::math::clamp;
use crate::vector::{Point, Vec2};

verus! {

/// The way the keys push: 1 for up, -1 for down, 0 for neither or both.
pub open spec fn thrust(up: bool, down: bool) -> int {
    (if up {
        1int
    } else {
        0int
    }) - (if down {
        1int
    } else {
        0int
    })
}

/// The height of the player's paddle one tick after it stood at `y`: moved
/// by its speed the way the keys push, and held between the bounds.
pub open spec fn steer(y: int, up: bool, down: bool) -> int {
    clamp(y + thrust(up, down) * PLAYER_PADDLE_SPEED, BOTTOM_BOUND as int, TOP_BOUND as int)
}

/// The height of the AI's paddle one tick after it stood at `y`. It rests
/// while the target is within half a puck's height of it; otherwise it moves
/// toward the target by its speed, but not past the bound on that side.
pub open spec fn chase(y: int, y_target: int) -> int {
    if y_target > y + HALF_PUCK_HEIGHT {
        if y + AI_PADDLE_SPEED < TOP_BOUND {
            y + AI_PADDLE_SPEED
        } else {
            TOP_BOUND as int
        }
    } else if y_target < y - HALF_PUCK_HEIGHT {
        if y - AI_PADDLE_SPEED > BOTTOM_BOUND {
            y - AI_PADDLE_SPEED
        } else {
            BOTTOM_BOUND as int
        }
    } else {
        y
    }
}

/// The body with its centre at the height `y`.
pub open spec fn at_height(body: BodyModel, y: int) -> BodyModel {
    BodyModel { position: Point { x: body.position.x, y }, ..body }
}

/// A body after the player's turn: the left paddle is steered, any other
/// body is unchanged.
pub open spec fn steered(body: BodyModel, up: bool, down: bool) -> BodyModel {
    if body.paddle && body.left {
        at_height(body, steer(body.position.y, up, down))
    } else {
        body
    }
}

/// A body after the AI's turn: the right paddle chases the target, any
/// other body is unchanged.
pub open spec fn chased(body: BodyModel, y_target: int) -> BodyModel {
    if body.paddle && body.right {
        at_height(body, chase(body.position.y, y_target))
    } else {
        body
    }
}

/// All bodies after the player's turn.
pub open spec fn all_steered(bodies: Seq<BodyModel>, up: bool, down: bool) -> Seq<BodyModel> {
    Seq::new(bodies.len(), |i: int| steered(bodies[i], up, down))
}

/// All bodies after the AI's turn.
pub open spec fn all_chased(bodies: Seq<BodyModel>, y_target: int) -> Seq<BodyModel> {
    Seq::new(bodies.len(), |i: int| chased(bodies[i], y_target))
}

/// One tick of a paddle: steered by the keys or chasing a target.
pub enum PaddleMove {
    Steer { up: bool, down: bool },
    Chase { y_target: int },
}

/// The height of a paddle that stood at `y` after the moves `moves`, one
/// per tick.
pub open spec fn paddle_after(y: int, moves: Seq<PaddleMove>) -> int
    decreases moves.len(),
{
    if moves.len() == 0 {
        y
    } else {
        let before = paddle_after(y, moves.drop_last());
        match moves.last() {
            PaddleMove::Steer { up, down } => steer(before, up, down),
            PaddleMove::Chase { y_target } => chase(before, y_target),
        }
    }
}

/// Computes the height of the player's paddle after one tick.
pub fn steer_paddle(y: i32, up: bool, down: bool) -> (new_y: i32)
    ensures
        new_y == steer(y as int, up, down),
{
    let mut direction: i64 = 0;
    if up {
        direction += 1;
    }
    if down {
        direction -= 1;
    }
    let new_paddle_position: i64 = y as i64 + direction * PLAYER_PADDLE_SPEED as i64;
    if new_paddle_position < BOTTOM_BOUND as i64 {
        BOTTOM_BOUND
    } else if new_paddle_position > TOP_BOUND as i64 {
        TOP_BOUND
    } else {
        new_paddle_position as i32
    }
}

/// Computes the height of the AI's paddle after one tick.
pub fn chase_target(y: i32, y_target: i32) -> (new_y: i32)
    ensures
        new_y == chase(y as int, y_target as int),
{
    let at: i64 = y as i64;
    let target: i64 = y_target as i64;
    if target > at + HALF_PUCK_HEIGHT as i64 {
        let risen: i64 = at + AI_PADDLE_SPEED as i64;
        if risen < TOP_BOUND as i64 {
            risen as i32
        } else {
            TOP_BOUND
        }
    } else if target < at - HALF_PUCK_HEIGHT as i64 {
        let sunk: i64 = at - AI_PADDLE_SPEED as i64;
        if sunk > BOTTOM_BOUND as i64 {
            sunk as i32
        } else {
            BOTTOM_BOUND
        }
    } else {
        y
    }
}

/// Moves the left paddle the way the keys push.
pub fn move_left_paddle(bodies: &mut Vec<Body>, up: bool, down: bool)
    ensures
        models(final(bodies)@) == all_steered(models(old(bodies)@), up, down),
{
    let n: usize = bodies.len();
    let mut i: usize = 0;
    while i < n
        invariant
            i <= n,
            bodies@.len() == n,
            old(bodies)@.len() == n,
            forall|j: int|
                0 <= j < i ==> (#[trigger] bodies@[j])@ == steered(old(bodies)@[j]@, up, down),
            forall|j: int| i <= j < n ==> #[trigger] bodies@[j] == old(bodies)@[j],
        decreases n - i,
    {
        let body: Body = bodies[i];
        if body.paddle.is_some() && body.left.is_some() {
            let y: i32 = steer_paddle(body.position.y(), up, down);
            bodies.set(i, Body { position: Vec2::new(body.position.x() as i64, y as i64), ..body });
        }
        i += 1;
    }
    assert(models(bodies@) =~= all_steered(models(old(bodies)@), up, down));
}

/// Moves the right paddle toward the AI's target.
pub fn ai_move_right_paddle(bodies: &mut Vec<Body>, ai: &Ai)
    ensures
        models(final(bodies)@) == all_chased(models(old(bodies)@), ai.y_target as int),
{
    let n: usize = bodies.len();
    let mut i: usize = 0;
    while i < n
        invariant
            i <= n,
            bodies@.len() == n,
            old(bodies)@.len() == n,
            forall|j: int|
                0 <= j < i ==> (#[trigger] bodies@[j])@ == chased(
                    old(bodies)@[j]@,
                    ai.y_target as int,
                ),
            forall|j: int| i <= j < n ==> #[trigger] bodies@[j] == old(bodies)@[j],
        decreases n - i,
    {
        let body: Body = bodies[i];
        if body.paddle.is_some() && body.right.is_some() {
            let y: i32 = chase_target(body.position.y(), ai.y_target);
            bodies.set(i, Body { position: Vec2::new(body.position.x() as i64, y as i64), ..body });
        }
        i += 1;
    }
    assert(models(bodies@) =~= all_chased(models(old(bodies)@), ai.y_target as int));
}

/// Whether `y` is a height at which a paddle touches neither wall or just
/// touches one.
pub open spec fn within_bounds(y: int) -> bool {
    BOTTOM_BOUND <= y <= TOP_BOUND
}

/// The player's paddle is within the bounds after every tick, wherever it
/// stood; the AI's paddle is if it was before.
pub proof fn lemma_move_stays_within_bounds(y: int, up: bool, down: bool, y_target: int)
    ensures
        within_bounds(steer(y, up, down)),
        within_bounds(y) ==> within_bounds(chase(y, y_target)),
{
}

/// A paddle that starts within the bounds is within them after any run of
/// moves, however long, and at every tick on the way.
pub proof fn lemma_paddle_stays_within_bounds(y: int, moves: Seq<PaddleMove>, ticks: int)
    requires
        within_bounds(y),
        0 <= ticks <= moves.len(),
    ensures
        within_bounds(paddle_after(y, moves.take(ticks))),
    decreases ticks,
{
    let run = moves.take(ticks);
    if ticks > 0 {
        assert(run.drop_last() =~= moves.take(ticks - 1));
        lemma_paddle_stays_within_bounds(y, moves, ticks - 1);
    }
}

/// The AI's paddle never moves away from its target: it comes closer or
/// rests.
pub proof fn lemma_chase_approaches(y: int, y_target: int)
    requires
        within_bounds(y),
    ensures
        y_target >= y ==> y <= chase(y, y_target),
        y_target <= y ==> chase(y, y_target) <= y,
        y - AI_PADDLE_SPEED <= chase(y, y_target) <= y + AI_PADDLE_SPEED,
{
}

} // verus!
