//! Tolerance-based hit detection between two points of the playfield.

use vstd::prelude::*;

verus! {

/// Two points closer than this on both axes have collided.
pub const COLLISION_TOLERANCE: i32 = 5000;

/// What a collision test found.
#[derive(Clone, Copy, Debug, PartialEq, Eq, Structural)]
pub enum CollisionOutcome {
    Hit,
    Miss,
}

/// A point of the playfield.
#[derive(Clone, Copy, Debug)]
pub struct CollisionObject {
    pub x: i32,
    pub y: i32,
}

/// The two points of one collision test.
#[derive(Clone, Copy, Debug)]
pub struct Collision {
    pub a: CollisionObject,
    pub b: CollisionObject,
}

/// Distance between two coordinates.
pub open spec fn distance(p: int, q: int) -> int {
    if p >= q {
        p - q
    } else {
        q - p
    }
}

/// Two points overlap when they are closer than the tolerance on the x axis
/// and on the y axis.
pub open spec fn overlaps(ax: int, ay: int, bx: int, by: int) -> bool {
    distance(ax, bx) < COLLISION_TOLERANCE && distance(ay, by) < COLLISION_TOLERANCE
}

/// The outcome that a test of the two points must give.
pub open spec fn outcome_of(ax: int, ay: int, bx: int, by: int) -> CollisionOutcome {
    if overlaps(ax, ay, bx, by) {
        CollisionOutcome::Hit
    } else {
        CollisionOutcome::Miss
    }
}

/// Decides whether two points of the playfield have collided.
pub fn check(scenario: Collision) -> (outcome: CollisionOutcome)
    ensures
        outcome == outcome_of(
            scenario.a.x as int,
            scenario.a.y as int,
            scenario.b.x as int,
            scenario.b.y as int,
        ),
{
    let ax: i64 = scenario.a.x as i64;
    let ay: i64 = scenario.a.y as i64;
    let bx: i64 = scenario.b.x as i64;
    let by: i64 = scenario.b.y as i64;
    let tolerance: i64 = COLLISION_TOLERANCE as i64;
    if ax < bx + tolerance && ax > bx - tolerance && ay < by + tolerance && ay > by
        - tolerance {
        return CollisionOutcome::Hit;
    }
    CollisionOutcome::Miss
}

/// Collision does not depend on the order in which the two points are given.
pub proof fn lemma_overlap_symmetric(ax: int, ay: int, bx: int, by: int)
    ensures
        overlaps(ax, ay, bx, by) == overlaps(bx, by, ax, ay),
        outcome_of(ax, ay, bx, by) == outcome_of(bx, by, ax, ay),
{
}

/// Points that overlap lie strictly within the tolerance of each other on
/// both axes, and points that do not are at least the tolerance apart on one.
pub proof fn lemma_overlap_bounded(ax: int, ay: int, bx: int, by: int)
    ensures
        overlaps(ax, ay, bx, by) <==> (bx - COLLISION_TOLERANCE < ax < bx + COLLISION_TOLERANCE
            && by - COLLISION_TOLERANCE < ay < by + COLLISION_TOLERANCE),
{
}

} // verus!
