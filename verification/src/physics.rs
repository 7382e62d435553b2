//! Motion and collision response: movers advance by their velocity, bounce
//! off what stands in their way, and leave messages about what they hit.

use vstd::prelude::*;
use crate::collision::{
    check_aabb_collision, classify, edges, lemma_classify_total, overlaps, Collision,
};
use crate::entity::{models, Body, BodyModel, Velocity};
use crate::events::{Bounce, CollisionEvent, EventLog, Events, GoalEvent, LeftCollisionEvent};
use crate::vector::{Point, Vec2, COORD_MAX};

verus! {

/// A body after one tick of motion: a mover has advanced by its velocity,
/// as far as the coordinate range lets it; any other body is where it was.
pub open spec fn moved(body: BodyModel) -> BodyModel {
    match body.velocity {
        Some(v) => BodyModel { position: body.position.plus(v).saturate(), ..body },
        None => body,
    }
}

/// All bodies after one tick of motion.
pub open spec fn all_moved(bodies: Seq<BodyModel>) -> Seq<BodyModel> {
    Seq::new(bodies.len(), |i: int| moved(bodies[i]))
}

/// A body after `n` ticks of motion.
pub open spec fn moved_times(body: BodyModel, n: nat) -> BodyModel
    decreases n,
{
    if n == 0 {
        body
    } else {
        moved(moved_times(body, (n - 1) as nat))
    }
}

/// Where a mover that starts at `start` and heads along `velocity` is
/// after `n` ticks, if nothing holds it up.
pub open spec fn travelled(start: Point, velocity: Point, n: nat) -> Point {
    Point { x: start.x + n * velocity.x, y: start.y + n * velocity.y }
}

/// The velocity with which a mover leaves a collision. It turns back along
/// one axis where it was heading into the face it struck, and keeps its
/// course where it was already heading away or struck no face.
pub open spec fn reflect(velocity: Point, collision: Collision) -> Point {
    match collision {
        Collision::Left => if velocity.x > 0 {
            velocity.flip_x()
        } else {
            velocity
        },
        Collision::Right => if velocity.x < 0 {
            velocity.flip_x()
        } else {
            velocity
        },
        Collision::Top => if velocity.y < 0 {
            velocity.flip_y()
        } else {
            velocity
        },
        Collision::Bottom => if velocity.y > 0 {
            velocity.flip_y()
        } else {
            velocity
        },
        Collision::Inside => velocity,
        Collision::NoCollision => velocity,
    }
}

/// What a mover carries away from the obstacles it has met: its velocity and
/// the messages it has left.
pub struct Impact {
    pub velocity: Point,
    pub log: EventLog,
}

/// What meeting one obstacle does to a mover that arrives with `velocity`.
///
/// Where the two overlap there is a collision message; a goal message if
/// the obstacle is a goal, scored against the left side if the obstacle
/// stands left of the middle; the velocity is reflected; and if the obstacle
/// belongs to the left side there is a bounce message with the mover's
/// position and the direction of the reflected velocity.
pub open spec fn impact(mover: BodyModel, velocity: Point, obstacle: BodyModel) -> Impact {
    let collision = classify(mover.position, mover.size, obstacle.position, obstacle.size);
    if collision == Collision::NoCollision {
        Impact { velocity, log: EventLog::empty() }
    } else {
        let reflected = reflect(velocity, collision);
        Impact {
            velocity: reflected,
            log: EventLog {
                collisions: 1,
                left_collisions: if obstacle.left {
                    seq![Bounce { position: mover.position, direction: reflected.normalized() }]
                } else {
                    Seq::empty()
                },
                goals: if obstacle.goal {
                    seq![GoalEvent { is_left_goal: obstacle.position.x < 0 }]
                } else {
                    Seq::empty()
                },
            },
        }
    }
}

/// What a mover carries away from the first `k` of `bodies`, met in order.
/// It arrives with `velocity` and meets those bodies that are obstacles,
/// each at the place where the mover stands, with the velocity that the
/// obstacles before have left it.
pub open spec fn sweep(mover: BodyModel, velocity: Point, bodies: Seq<BodyModel>, k: nat) -> Impact
    recommends
        k <= bodies.len(),
    decreases k,
{
    if k == 0 {
        Impact { velocity, log: EventLog::empty() }
    } else {
        let before = sweep(mover, velocity, bodies, (k - 1) as nat);
        let other = bodies[k - 1];
        if other.is_obstacle() {
            let hit = impact(mover, before.velocity, other);
            Impact { velocity: hit.velocity, log: before.log.then_log(hit.log) }
        } else {
            before
        }
    }
}

/// The body at index `i` after all collisions: a mover has the velocity
/// that the obstacles have left it, any other body is unchanged.
pub open spec fn resolved_body(bodies: Seq<BodyModel>, i: int) -> BodyModel
    recommends
        0 <= i < bodies.len(),
{
    let body = bodies[i];
    match body.velocity {
        Some(v) => BodyModel {
            velocity: Some(sweep(body, v, bodies, bodies.len()).velocity),
            ..body
        },
        None => body,
    }
}

/// All bodies after all collisions.
pub open spec fn resolved(bodies: Seq<BodyModel>) -> Seq<BodyModel> {
    Seq::new(bodies.len(), |i: int| resolved_body(bodies, i))
}

/// The messages left by the movers among the first `n` of `bodies`, mover
/// by mover in the order of the list.
pub open spec fn resolved_log(bodies: Seq<BodyModel>, n: nat) -> EventLog
    recommends
        n <= bodies.len(),
    decreases n,
{
    if n == 0 {
        EventLog::empty()
    } else {
        let before = resolved_log(bodies, (n - 1) as nat);
        let body = bodies[n - 1];
        match body.velocity {
            Some(v) => before.then_log(sweep(body, v, bodies, bodies.len()).log),
            None => before,
        }
    }
}

/// Advances each mover by its velocity.
pub fn apply_velocity(bodies: &mut Vec<Body>)
    ensures
        models(final(bodies)@) == all_moved(models(old(bodies)@)),
{
    let n: usize = bodies.len();
    let mut i: usize = 0;
    while i < n
        invariant
            i <= n,
            bodies@.len() == n,
            old(bodies)@.len() == n,
            forall|j: int| 0 <= j < i ==> (#[trigger] bodies@[j])@ == moved(old(bodies)@[j]@),
            forall|j: int| i <= j < n ==> #[trigger] bodies@[j] == old(bodies)@[j],
        decreases n - i,
    {
        let body: Body = bodies[i];
        if let Some(Velocity(v)) = body.velocity {
            let x: i64 = body.position.x() as i64 + v.x() as i64;
            let y: i64 = body.position.y() as i64 + v.y() as i64;
            bodies.set(i, Body { position: Vec2::new(x, y), ..body });
        }
        i += 1;
    }
    assert(models(bodies@) =~= all_moved(models(old(bodies)@)));
}

/// Turns `velocity` back where it heads into the face that `collision`
/// names.
pub fn reflect_velocity(velocity: Vec2, collision: Collision) -> (reflected: Vec2)
    ensures
        reflected@ == reflect(velocity@, collision),
{
    match collision {
        Collision::Left => if velocity.x() > 0 {
            velocity.flip_x()
        } else {
            velocity
        },
        Collision::Right => if velocity.x() < 0 {
            velocity.flip_x()
        } else {
            velocity
        },
        Collision::Top => if velocity.y() < 0 {
            velocity.flip_y()
        } else {
            velocity
        },
        Collision::Bottom => if velocity.y() > 0 {
            velocity.flip_y()
        } else {
            velocity
        },
        Collision::Inside => velocity,
        Collision::NoCollision => velocity,
    }
}

/// Lets each mover meet each obstacle: reflects the movers' velocities and
/// appends to `events` the messages they leave.
pub fn check_collisions(bodies: &mut Vec<Body>, events: &mut Events)
    ensures
        models(final(bodies)@) == resolved(models(old(bodies)@)),
        final(events)@ == old(events)@.then_log(
            resolved_log(models(old(bodies)@), old(bodies)@.len()),
        ),
{
    let ghost before = models(bodies@);
    let n: usize = bodies.len();
    let mut i: usize = 0;
    proof {
        lemma_then_empty(events@);
    }
    while i < n
        invariant
            i <= n,
            bodies@.len() == n,
            before == models(old(bodies)@),
            before.len() == n,
            forall|j: int| 0 <= j < i ==> (#[trigger] bodies@[j])@ == resolved_body(before, j),
            forall|j: int| i <= j < n ==> #[trigger] bodies@[j] == old(bodies)@[j],
            events@ == old(events)@.then_log(resolved_log(before, i as nat)),
        decreases n - i,
    {
        let mover: Body = bodies[i];
        if let Some(Velocity(arriving)) = mover.velocity {
            let ghost now = models(bodies@);
            let ghost earlier = events@;
            let mut velocity: Vec2 = arriving;
            let mut j: usize = 0;
            proof {
                lemma_then_empty(earlier);
            }
            while j < n
                invariant
                    j <= n,
                    bodies@.len() == n,
                    now == models(bodies@),
                    velocity@ == sweep(mover@, arriving@, now, j as nat).velocity,
                    events@ == earlier.then_log(sweep(mover@, arriving@, now, j as nat).log),
                decreases n - j,
            {
                let other: Body = bodies[j];
                let ghost swept = sweep(mover@, arriving@, now, j as nat);
                assert(now[j as int] == other@);
                if other.collider.is_some() && other.velocity.is_none() {
                    let collision: Collision = check_aabb_collision(
                        mover.position,
                        mover.size,
                        other.position,
                        other.size,
                    );
                    let ghost hit = impact(mover@, velocity@, other@);
                    match collision {
                        Collision::NoCollision => {
                            proof {
                                lemma_then_empty(swept.log);
                            }
                        },
                        _ => {
                            let ghost log = events@;
                            events.collisions.push(CollisionEvent);
                            if other.goal.is_some() {
                                events.goals.push(
                                    GoalEvent { is_left_goal: other.position.x() < 0 },
                                );
                            }
                            velocity = reflect_velocity(velocity, collision);
                            if other.left.is_some() {
                                events.left_collisions.push(
                                    LeftCollisionEvent {
                                        puck_position: mover.position,
                                        puck_direction: velocity.normalize(),
                                    },
                                );
                            }
                            proof {
                                assert(events@.left_collisions =~= log.left_collisions
                                    + hit.log.left_collisions);
                                assert(events@.goals =~= log.goals + hit.log.goals);
                                assert(events@ == log.then_log(hit.log));
                                lemma_then_assoc(earlier, swept.log, hit.log);
                            }
                        },
                    }
                }
                j += 1;
            }
            proof {
                let whole = sweep(mover@, arriving@, now, n as nat);
                assert(before[i as int] == mover@);
                assert forall|j: int| 0 <= j < n implies (#[trigger] now[j]).is_obstacle()
                    == before[j].is_obstacle() && (now[j].is_obstacle() ==> now[j]
                    == before[j]) by {
                    assert(now[j] == bodies@[j]@);
                    assert(before[j] == old(bodies)@[j]@);
                }
                lemma_sweep_frame(mover@, arriving@, now, before, n as nat);
                lemma_then_assoc(
                    old(events)@,
                    resolved_log(before, i as nat),
                    whole.log,
                );
            }
            bodies.set(i, Body { velocity: Some(Velocity(velocity)), ..mover });
        }
        i += 1;
    }
    assert(models(bodies@) =~= resolved(before));
}

/// A log followed by nothing is that log.
proof fn lemma_then_empty(log: EventLog)
    ensures
        log.then_log(EventLog::empty()) == log,
{
    assert(log.left_collisions + Seq::<Bounce>::empty() =~= log.left_collisions);
    assert(log.goals + Seq::<GoalEvent>::empty() =~= log.goals);
}

/// It makes no difference how a run of logs is grouped.
proof fn lemma_then_assoc(a: EventLog, b: EventLog, c: EventLog)
    ensures
        a.then_log(b).then_log(c) == a.then_log(b.then_log(c)),
{
    assert((a.left_collisions + b.left_collisions) + c.left_collisions =~= a.left_collisions + (
    b.left_collisions + c.left_collisions));
    assert((a.goals + b.goals) + c.goals =~= a.goals + (b.goals + c.goals));
}

/// A sweep depends on the obstacles alone: two lists with the same obstacles
/// at the same places give the same sweep.
proof fn lemma_sweep_frame(
    mover: BodyModel,
    velocity: Point,
    a: Seq<BodyModel>,
    b: Seq<BodyModel>,
    k: nat,
)
    requires
        k <= a.len(),
        a.len() == b.len(),
        forall|j: int|
            0 <= j < a.len() ==> (#[trigger] a[j]).is_obstacle() == b[j].is_obstacle() && (
            a[j].is_obstacle() ==> a[j] == b[j]),
    ensures
        sweep(mover, velocity, a, k) == sweep(mover, velocity, b, k),
    decreases k,
{
    if k > 0 {
        lemma_sweep_frame(mover, velocity, a, b, (k - 1) as nat);
        assert(a[k - 1].is_obstacle() == b[k - 1].is_obstacle());
    }
}

/// Reflection preserves speed: the velocity after a collision is as long as
/// the velocity before it.
pub proof fn lemma_reflect_preserves_speed(velocity: Point, collision: Collision)
    ensures
        reflect(velocity, collision).norm_sq() == velocity.norm_sq(),
{
    assert((-velocity.x) * (-velocity.x) == velocity.x * velocity.x) by (nonlinear_arith);
    assert((-velocity.y) * (-velocity.y) == velocity.y * velocity.y) by (nonlinear_arith);
}

/// Motion is uniform: `n` ticks of motion take a mover `n` times its
/// velocity from where it started, as long as that is within the coordinate
/// range. A body at rest stays where it is.
pub proof fn lemma_uniform_motion(body: BodyModel, n: nat)
    requires
        body.position.in_range(),
        body.velocity matches Some(v) ==> travelled(body.position, v, n).in_range(),
    ensures
        moved_times(body, n) == (match body.velocity {
            Some(v) => BodyModel { position: travelled(body.position, v, n), ..body },
            None => body,
        }),
    decreases n,
{
    if n > 0 {
        let k = (n - 1) as nat;
        match body.velocity {
            Some(v) => {
                lemma_on_the_way(body.position.x, v.x, k, n);
                lemma_on_the_way(body.position.y, v.y, k, n);
                lemma_uniform_motion(body, k);
                assert(travelled(body.position, v, k).plus(v) == travelled(body.position, v, n));
            },
            None => {
                lemma_uniform_motion(body, k);
            },
        }
    } else if let Some(v) = body.velocity {
        assert(n * v.x == 0 && n * v.y == 0) by (nonlinear_arith)
            requires
                n == 0,
        ;
    }
}

/// A point between the start and the end of a straight run lies between
/// them, and follows the point before it by one step.
proof fn lemma_on_the_way(start: int, step: int, k: nat, n: nat)
    requires
        k + 1 == n,
        -COORD_MAX <= start <= COORD_MAX,
        -COORD_MAX <= start + n * step <= COORD_MAX,
    ensures
        -COORD_MAX <= start + k * step <= COORD_MAX,
        start + k * step + step == start + n * step,
{
    assert(start + k * step + step == start + n * step) by (nonlinear_arith)
        requires
            k + 1 == n,
    ;
    assert(-COORD_MAX <= start + k * step <= COORD_MAX) by (nonlinear_arith)
        requires
            k + 1 == n,
            -COORD_MAX <= start <= COORD_MAX,
            -COORD_MAX <= start + n * step <= COORD_MAX,
    ;
}

/// Whether the mover overlaps none of the obstacles among the first `k` of
/// `bodies`, but perhaps the one at index `except`.
pub open spec fn clear_of(mover: BodyModel, bodies: Seq<BodyModel>, k: nat, except: int) -> bool {
    forall|j: int|
        0 <= j < k && j != except && (#[trigger] bodies[j]).is_obstacle() ==> classify(
            mover.position,
            mover.size,
            bodies[j].position,
            bodies[j].size,
        ) == Collision::NoCollision
}

/// A mover that overlaps at most one obstacle carries away what that
/// obstacle gives it, and one that overlaps none keeps its velocity and
/// leaves no message.
pub proof fn lemma_sweep_one_obstacle(
    mover: BodyModel,
    velocity: Point,
    bodies: Seq<BodyModel>,
    k: nat,
    except: int,
)
    requires
        k <= bodies.len(),
        clear_of(mover, bodies, k, except),
    ensures
        sweep(mover, velocity, bodies, k) == (if 0 <= except < k && bodies[except].is_obstacle() {
            impact(mover, velocity, bodies[except])
        } else {
            Impact { velocity, log: EventLog::empty() }
        }),
    decreases k,
{
    if k > 0 {
        lemma_sweep_one_obstacle(mover, velocity, bodies, (k - 1) as nat, except);
        let before = sweep(mover, velocity, bodies, (k - 1) as nat);
        let other = bodies[k - 1];
        if other.is_obstacle() {
            let hit = impact(mover, before.velocity, other);
            if k - 1 == except {
                assert(before.log == EventLog::empty());
                assert(EventLog::empty().then_log(hit.log).left_collisions
                    =~= hit.log.left_collisions);
                assert(EventLog::empty().then_log(hit.log).goals =~= hit.log.goals);
            } else {
                assert(hit.log == EventLog::empty());
                lemma_then_empty(before.log);
            }
        }
    }
}

/// Where only the body at index `m` moves, the messages of a tick are those
/// that this one mover leaves.
pub proof fn lemma_single_mover_log(bodies: Seq<BodyModel>, m: int, n: nat)
    requires
        0 <= m < bodies.len(),
        n <= bodies.len(),
        bodies[m].velocity is Some,
        forall|i: int| 0 <= i < bodies.len() && i != m ==> (#[trigger] bodies[i]).velocity is None,
    ensures
        resolved_log(bodies, n) == (if m < n {
            sweep(bodies[m], bodies[m].velocity.unwrap(), bodies, bodies.len()).log
        } else {
            EventLog::empty()
        }),
    decreases n,
{
    if n > 0 {
        lemma_single_mover_log(bodies, m, (n - 1) as nat);
        if n - 1 == m {
            let log = sweep(bodies[m], bodies[m].velocity.unwrap(), bodies, bodies.len()).log;
            assert(EventLog::empty().then_log(log).left_collisions =~= log.left_collisions);
            assert(EventLog::empty().then_log(log).goals =~= log.goals);
        } else {
            assert(bodies[n - 1].velocity is None);
        }
    }
}

/// A mover keeps its speed through any number of collisions in a tick.
pub proof fn lemma_sweep_preserves_speed(
    mover: BodyModel,
    velocity: Point,
    bodies: Seq<BodyModel>,
    k: nat,
)
    ensures
        sweep(mover, velocity, bodies, k).velocity.norm_sq() == velocity.norm_sq(),
    decreases k,
{
    if k > 0 {
        lemma_sweep_preserves_speed(mover, velocity, bodies, (k - 1) as nat);
        let before = sweep(mover, velocity, bodies, (k - 1) as nat);
        let other = bodies[k - 1];
        lemma_reflect_preserves_speed(
            before.velocity,
            classify(mover.position, mover.size, other.position, other.size),
        );
    }
}

/// Goal attribution: a mover that overlaps a goal leaves one goal message,
/// and the goal is the left one exactly if the obstacle stands left of the
/// middle. Nothing else leaves a goal message. Every overlap leaves one
/// collision message, and one bounce message if the obstacle belongs to the
/// left side.
pub proof fn lemma_goal_attribution(mover: BodyModel, velocity: Point, obstacle: BodyModel)
    ensures
        ({
            let log = impact(mover, velocity, obstacle).log;
            let hit = overlaps(
                edges(mover.position, mover.size),
                edges(obstacle.position, obstacle.size),
            );
            &&& hit && obstacle.goal ==> log.goals == seq![
                GoalEvent { is_left_goal: obstacle.position.x < 0 },
            ]
            &&& !(hit && obstacle.goal) ==> log.goals == Seq::<GoalEvent>::empty()
            &&& log.collisions == (if hit {
                1nat
            } else {
                0nat
            })
            &&& log.left_collisions.len() == (if hit && obstacle.left {
                1nat
            } else {
                0nat
            })
        }),
{
    lemma_classify_total(mover.position, mover.size, obstacle.position, obstacle.size);
}

/// No double reflection: a mover that already heads away from the face it
/// overlaps keeps its velocity, so reflecting a reflected velocity at the
/// same face changes nothing; and after a reflection the mover never heads
/// into the face.
pub proof fn lemma_reflect_once(velocity: Point, collision: Collision)
    ensures
        collision == Collision::Left && velocity.x <= 0 ==> reflect(velocity, collision)
            == velocity,
        collision == Collision::Right && velocity.x >= 0 ==> reflect(velocity, collision)
            == velocity,
        collision == Collision::Top && velocity.y >= 0 ==> reflect(velocity, collision)
            == velocity,
        collision == Collision::Bottom && velocity.y <= 0 ==> reflect(velocity, collision)
            == velocity,
        reflect(reflect(velocity, collision), collision) == reflect(velocity, collision),
        collision == Collision::Left ==> reflect(velocity, collision).x <= 0,
        collision == Collision::Right ==> reflect(velocity, collision).x >= 0,
        collision == Collision::Top ==> reflect(velocity, collision).y >= 0,
        collision == Collision::Bottom ==> reflect(velocity, collision).y <= 0,
{
}

} // verus!
