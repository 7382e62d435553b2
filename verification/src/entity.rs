//! The bodies of the game and the marks that tell them apart.
//!
//! A body is a rectangle with a position and a size. What else it is, is
//! said by the marks it carries: one with a velocity moves, one marked
//! `Collider` without a velocity stands in the way of those that move.

use vstd::prelude::*;
use crate::vector::{Point, Vec2};

verus! {

/// Marks a body that others can run into.
#[derive(Clone, Copy, Debug, PartialEq, Eq, Structural)]
pub struct Collider;

/// Marks a paddle.
#[derive(Clone, Copy, Debug, PartialEq, Eq, Structural)]
pub struct Paddle;

/// Marks a wall that scores when it is hit.
#[derive(Clone, Copy, Debug, PartialEq, Eq, Structural)]
pub struct Goal;

/// Marks what belongs to the left side.
#[derive(Clone, Copy, Debug, PartialEq, Eq, Structural)]
pub struct Left;

/// Marks what belongs to the right side.
#[derive(Clone, Copy, Debug, PartialEq, Eq, Structural)]
pub struct Right;

/// The distance a body covers in one tick.
#[derive(Clone, Copy, Debug, PartialEq, Eq, Structural)]
pub struct Velocity(pub Vec2);

impl View for Velocity {
    type V = Point;

    open spec fn view(&self) -> Point {
        self.0@
    }
}

/// What the AI knows: the height at which it expects the puck.
#[derive(Clone, Copy, Debug, PartialEq, Eq, Structural)]
pub struct Ai {
    pub y_target: i32,
}

/// A body as the rules see it.
pub struct BodyModel {
    pub position: Point,
    pub size: Point,
    pub velocity: Option<Point>,
    pub collider: bool,
    pub paddle: bool,
    pub goal: bool,
    pub left: bool,
    pub right: bool,
}

impl BodyModel {
    /// Whether the body moves.
    pub open spec fn is_mover(self) -> bool {
        self.velocity is Some
    }

    /// Whether the body stands in the way of those that move.
    pub open spec fn is_obstacle(self) -> bool {
        self.collider && self.velocity is None
    }
}

/// A rectangle of the game.
#[derive(Clone, Copy, Debug, PartialEq, Eq)]
pub struct Body {
    pub position: Vec2,
    pub size: Vec2,
    pub velocity: Option<Velocity>,
    pub collider: Option<Collider>,
    pub paddle: Option<Paddle>,
    pub goal: Option<Goal>,
    pub left: Option<Left>,
    pub right: Option<Right>,
}

impl View for Body {
    type V = BodyModel;

    open spec fn view(&self) -> BodyModel {
        BodyModel {
            position: self.position@,
            size: self.size@,
            velocity: match self.velocity {
                Some(v) => Some(v@),
                None => None,
            },
            collider: self.collider is Some,
            paddle: self.paddle is Some,
            goal: self.goal is Some,
            left: self.left is Some,
            right: self.right is Some,
        }
    }
}

impl Body {
    /// A collider at `position` of the given `size`, at rest and without any
    /// other mark.
    pub fn new(position: Vec2, size: Vec2) -> (body: Body)
        ensures
            body@ == (BodyModel {
                position: position@,
                size: size@,
                velocity: None,
                collider: true,
                paddle: false,
                goal: false,
                left: false,
                right: false,
            }),
    {
        Body {
            position,
            size,
            velocity: None,
            collider: Some(Collider),
            paddle: None,
            goal: None,
            left: None,
            right: None,
        }
    }
}

/// The bodies of a list as the rules see them.
pub open spec fn models(bodies: Seq<Body>) -> Seq<BodyModel> {
    Seq::new(bodies.len(), |i: int| bodies[i]@)
}

} // verus!
