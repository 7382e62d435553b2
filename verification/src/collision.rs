//! Collisions between axis-aligned boxes: whether two boxes overlap, and
//! which face of the second the first has struck.

use vstd::prelude::*;
use crate::math::magnitude;
use crate::vector::{Point, Vec2, COORD_MAX};

verus! {

/// How a moving box meets another box: the face of the other box that it has
/// struck, `Inside` where the boxes overlap without a face between them, or
/// `NoCollision` where they do not overlap.
#[derive(Clone, Copy, Debug, PartialEq, Eq, Structural)]
pub enum Collision {
    Left,
    Right,
    Top,
    Bottom,
    Inside,
    NoCollision,
}

/// The four edges of a box, each twice its coordinate: half of an odd size
/// is then still a whole number.
pub struct Edges {
    pub top: int,
    pub bottom: int,
    pub left: int,
    pub right: int,
}

impl Edges {
    /// Whether each edge is one that a box made of two [`Vec2`] can have.
    pub open spec fn bounded(self) -> bool {
        &&& -3 * COORD_MAX <= self.top <= 3 * COORD_MAX
        &&& -3 * COORD_MAX <= self.bottom <= 3 * COORD_MAX
        &&& -3 * COORD_MAX <= self.left <= 3 * COORD_MAX
        &&& -3 * COORD_MAX <= self.right <= 3 * COORD_MAX
    }
}

/// The edges of the box with its centre at `pos` and the full width and
/// height `size`: the centre plus and minus half the size.
pub open spec fn edges(pos: Point, size: Point) -> Edges {
    Edges {
        top: 2 * pos.y + size.y,
        bottom: 2 * pos.y - size.y,
        left: 2 * pos.x - size.x,
        right: 2 * pos.x + size.x,
    }
}

/// Whether two boxes share some area. Boxes that only touch do not.
pub open spec fn overlaps(a: Edges, b: Edges) -> bool {
    &&& a.left < b.right
    &&& a.right > b.left
    &&& a.bottom < b.top
    &&& a.top > b.bottom
}

/// What one axis says of a collision: the face struck along it and how far
/// beyond that face the mover has come. Where the mover straddles no face
/// along the axis, the side is `Inside` and the depth is without bound.
pub struct AxisHit {
    pub side: Collision,
    pub depth: Option<int>,
}

/// The horizontal part of a collision: `Left` where `a` reaches over the left
/// edge of `b` but not over its right edge, `Right` the other way round.
pub open spec fn x_axis_hit(a: Edges, b: Edges) -> AxisHit {
    if a.left < b.left && a.right > b.left && a.right < b.right {
        AxisHit { side: Collision::Left, depth: Some(b.left - a.right) }
    } else if a.left > b.left && a.left < b.right && a.right > b.right {
        AxisHit { side: Collision::Right, depth: Some(a.left - b.right) }
    } else {
        AxisHit { side: Collision::Inside, depth: None }
    }
}

/// The vertical part of a collision: `Bottom` where `a` reaches over the
/// bottom edge of `b` but not over its top edge, `Top` the other way round.
pub open spec fn y_axis_hit(a: Edges, b: Edges) -> AxisHit {
    if a.bottom < b.bottom && a.top > b.bottom && a.top < b.top {
        AxisHit { side: Collision::Bottom, depth: Some(b.bottom - a.top) }
    } else if a.bottom > b.bottom && a.bottom < b.top && a.top > b.top {
        AxisHit { side: Collision::Top, depth: Some(a.bottom - b.top) }
    } else {
        AxisHit { side: Collision::Inside, depth: None }
    }
}

/// Whether the depth `d` is strictly smaller in size than the depth `e`. A
/// depth without bound is smaller than none and larger than every other.
pub open spec fn shallower(d: Option<int>, e: Option<int>) -> bool {
    match (d, e) {
        (Some(d), Some(e)) => magnitude(d) < magnitude(e),
        (Some(_), None) => true,
        (None, _) => false,
    }
}

/// How the box at `a_pos` of size `a_size` meets the box at `b_pos` of size
/// `b_size`. Of two faces struck at once, the one with the smaller depth is
/// reported: the mover reached it first. At equal depths the horizontal one
/// is reported.
pub open spec fn classify(a_pos: Point, a_size: Point, b_pos: Point, b_size: Point) -> Collision {
    let a = edges(a_pos, a_size);
    let b = edges(b_pos, b_size);
    if !overlaps(a, b) {
        Collision::NoCollision
    } else if shallower(y_axis_hit(a, b).depth, x_axis_hit(a, b).depth) {
        y_axis_hit(a, b).side
    } else {
        x_axis_hit(a, b).side
    }
}

/// A box by its four edges, each in half units.
#[derive(Clone, Copy, Debug, PartialEq, Eq, Structural)]
pub struct CollisionBox {
    pub top: i64,
    pub bottom: i64,
    pub left: i64,
    pub right: i64,
}

impl View for CollisionBox {
    type V = Edges;

    open spec fn view(&self) -> Edges {
        Edges {
            top: self.top as int,
            bottom: self.bottom as int,
            left: self.left as int,
            right: self.right as int,
        }
    }
}

impl CollisionBox {
    /// The box with its centre at `pos` and the full width and height
    /// `size`.
    pub fn new(pos: Vec2, size: Vec2) -> (b: CollisionBox)
        ensures
            b@ == edges(pos@, size@),
            b@.bounded(),
    {
        let x: i64 = pos.x() as i64;
        let y: i64 = pos.y() as i64;
        let w: i64 = size.x() as i64;
        let h: i64 = size.y() as i64;
        CollisionBox { top: 2 * y + h, bottom: 2 * y - h, left: 2 * x - w, right: 2 * x + w }
    }
}

/// The size of `v`.
fn abs_i64(v: i64) -> (a: i64)
    requires
        v > i64::MIN,
    ensures
        a == magnitude(v as int),
{
    if v < 0 {
        -v
    } else {
        v
    }
}

/// Whether the depth `d` is strictly smaller in size than the depth `e`.
fn is_shallower(d: Option<i64>, e: Option<i64>) -> (s: bool)
    requires
        d matches Some(v) ==> v > i64::MIN,
        e matches Some(v) ==> v > i64::MIN,
    ensures
        s == shallower(
            match d {
                Some(v) => Some(v as int),
                None => None,
            },
            match e {
                Some(v) => Some(v as int),
                None => None,
            },
        ),
{
    match (d, e) {
        (Some(d), Some(e)) => abs_i64(d) < abs_i64(e),
        (Some(_), None) => true,
        (None, _) => false,
    }
}

/// Tells how the box at `a_pos` of size `a_size` meets the box at `b_pos` of
/// size `b_size`.
pub fn check_aabb_collision(a_pos: Vec2, a_size: Vec2, b_pos: Vec2, b_size: Vec2) -> (c: Collision)
    ensures
        c == classify(a_pos@, a_size@, b_pos@, b_size@),
{
    let a: CollisionBox = CollisionBox::new(a_pos, a_size);
    let b: CollisionBox = CollisionBox::new(b_pos, b_size);

    if a.left < b.right && a.right > b.left && a.bottom < b.top && a.top > b.bottom {
        let (x_collision, x_depth): (Collision, Option<i64>) = if a.left < b.left && a.right
            > b.left && a.right < b.right {
            (Collision::Left, Some(b.left - a.right))
        } else if a.left > b.left && a.left < b.right && a.right > b.right {
            (Collision::Right, Some(a.left - b.right))
        } else {
            (Collision::Inside, None)
        };

        let (y_collision, y_depth): (Collision, Option<i64>) = if a.bottom < b.bottom && a.top
            > b.bottom && a.top < b.top {
            (Collision::Bottom, Some(b.bottom - a.top))
        } else if a.bottom > b.bottom && a.bottom < b.top && a.top > b.top {
            (Collision::Top, Some(a.bottom - b.top))
        } else {
            (Collision::Inside, None)
        };

        if is_shallower(y_depth, x_depth) {
            y_collision
        } else {
            x_collision
        }
    } else {
        Collision::NoCollision
    }
}

/// Every pair of boxes has a classification: `NoCollision` exactly where the
/// boxes do not overlap, and one of the five others where they do. Overlap
/// does not depend on which box is taken first.
pub proof fn lemma_classify_total(a_pos: Point, a_size: Point, b_pos: Point, b_size: Point)
    ensures
        classify(a_pos, a_size, b_pos, b_size) == Collision::NoCollision <==> !overlaps(
            edges(a_pos, a_size),
            edges(b_pos, b_size),
        ),
        overlaps(edges(a_pos, a_size), edges(b_pos, b_size)) <==> overlaps(
            edges(b_pos, b_size),
            edges(a_pos, a_size),
        ),
        classify(a_pos, a_size, b_pos, b_size) == Collision::NoCollision <==> classify(
            b_pos,
            b_size,
            a_pos,
            a_size,
        ) == Collision::NoCollision,
{
}

/// What each classification says of the edges. A face is reported only
/// where the mover straddles that face and no other face along the same
/// axis, and is no deeper beyond it than beyond a face of the other axis.
/// `Inside` is reported only where the mover straddles no single face along
/// either axis.
pub proof fn lemma_struck_face(a_pos: Point, a_size: Point, b_pos: Point, b_size: Point)
    ensures
        ({
            let a = edges(a_pos, a_size);
            let b = edges(b_pos, b_size);
            let x = x_axis_hit(a, b);
            let y = y_axis_hit(a, b);
            match classify(a_pos, a_size, b_pos, b_size) {
                Collision::Left => a.left < b.left < a.right < b.right && !shallower(
                    y.depth,
                    x.depth,
                ),
                Collision::Right => b.left < a.left < b.right < a.right && !shallower(
                    y.depth,
                    x.depth,
                ),
                Collision::Top => b.bottom < a.bottom < b.top < a.top && shallower(
                    y.depth,
                    x.depth,
                ),
                Collision::Bottom => a.bottom < b.bottom < a.top < b.top && shallower(
                    y.depth,
                    x.depth,
                ),
                Collision::Inside => overlaps(a, b) && x.side == Collision::Inside && y.side
                    == Collision::Inside,
                Collision::NoCollision => !overlaps(a, b),
            }
        }),
{
}

} // verus!
