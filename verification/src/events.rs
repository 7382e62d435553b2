//! What happened during a tick: the messages that the collision rules leave
//! for the rest of the tick to act on.

use vstd::prelude::*;
use crate::vector::{Point, Vec2};

verus! {

/// A mover has run into something.
#[derive(Clone, Copy, Debug, PartialEq, Eq, Structural)]
pub struct CollisionEvent;

/// A mover has run into something on the left side. It carries where the
/// mover was and the normalized direction in which it left.
#[derive(Clone, Copy, Debug, PartialEq, Eq, Structural)]
pub struct LeftCollisionEvent {
    pub puck_position: Vec2,
    pub puck_direction: Vec2,
}

/// A mover has reached a goal. `is_left_goal` tells whose: the point goes to
/// the other side.
#[derive(Clone, Copy, Debug, PartialEq, Eq, Structural)]
pub struct GoalEvent {
    pub is_left_goal: bool,
}

/// A bounce on the left side as the rules see it.
pub struct Bounce {
    pub position: Point,
    pub direction: Point,
}

impl View for LeftCollisionEvent {
    type V = Bounce;

    open spec fn view(&self) -> Bounce {
        Bounce { position: self.puck_position@, direction: self.puck_direction@ }
    }
}

/// The bounces of a list of messages as the rules see them.
pub open spec fn bounces(events: Seq<LeftCollisionEvent>) -> Seq<Bounce> {
    Seq::new(events.len(), |i: int| events[i]@)
}

/// The messages of a tick as the rules see them: how many collisions there
/// were, and the bounces on the left side and the goals in the order in
/// which they happened.
pub struct EventLog {
    pub collisions: nat,
    pub left_collisions: Seq<Bounce>,
    pub goals: Seq<GoalEvent>,
}

impl EventLog {
    /// The log of a tick in which nothing has happened yet.
    pub open spec fn empty() -> EventLog {
        EventLog { collisions: 0, left_collisions: Seq::empty(), goals: Seq::empty() }
    }

    /// This log followed by `later`.
    pub open spec fn then_log(self, later: EventLog) -> EventLog {
        EventLog {
            collisions: self.collisions + later.collisions,
            left_collisions: self.left_collisions + later.left_collisions,
            goals: self.goals + later.goals,
        }
    }
}

/// The three message lists of a tick.
#[derive(Debug)]
pub struct Events {
    pub collisions: Vec<CollisionEvent>,
    pub left_collisions: Vec<LeftCollisionEvent>,
    pub goals: Vec<GoalEvent>,
}

impl View for Events {
    type V = EventLog;

    open spec fn view(&self) -> EventLog {
        EventLog {
            collisions: self.collisions@.len(),
            left_collisions: bounces(self.left_collisions@),
            goals: self.goals@,
        }
    }
}

impl Events {
    /// Three empty lists.
    pub fn new() -> (events: Events)
        ensures
            events@ == EventLog::empty(),
    {
        let events = Events {
            collisions: Vec::new(),
            left_collisions: Vec::new(),
            goals: Vec::new(),
        };
        assert(events@.left_collisions =~= Seq::empty());
        events
    }
}

} // verus!
