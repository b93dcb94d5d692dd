//! The random scatter of an exploding entity's fragments.

use vstd::prelude::*;
use crate::chance::{draw_bool, draw_between};

verus! {

/// The slowest a fragment flies along an axis, per tick.
pub const SCATTER_MIN: i32 = 100;

/// The speed along an axis, per tick, that a fragment stays under.
pub const SCATTER_MAX: i32 = 500;

/// How one fragment flies apart: its displacement along each axis per tick.
#[derive(Clone, Copy, Debug, PartialEq, Eq, Structural)]
pub struct Trajectory {
    pub x: i32,
    pub y: i32,
    pub z: i32,
}

/// A component of a trajectory is never near zero: it lies in the negative
/// band or in the positive band, so fragments visibly fly apart.
pub open spec fn scatters(v: int) -> bool {
    (-SCATTER_MAX <= v < -SCATTER_MIN) || (SCATTER_MIN <= v < SCATTER_MAX)
}

/// A component that only ever points upward: the size of a scattering one.
pub open spec fn scatters_upward(v: int) -> bool {
    SCATTER_MIN <= v <= SCATTER_MAX
}

impl Trajectory {
    /// A fragment at rest.
    pub open spec fn still() -> Trajectory {
        Trajectory { x: 0, y: 0, z: 0 }
    }

    /// Every component scatters.
    pub open spec fn scattered(self) -> bool {
        scatters(self.x as int) && scatters(self.y as int) && scatters(self.z as int)
    }

    /// The sideways components scatter and the vertical one points upward.
    pub open spec fn scattered_upward(self) -> bool {
        scatters(self.x as int) && scatters_upward(self.y as int) && scatters(self.z as int)
    }
}

/// Every trajectory of the sequence scatters.
pub open spec fn all_scattered(fragments: Seq<Trajectory>) -> bool {
    forall|i: int| 0 <= i < fragments.len() ==> (#[trigger] fragments[i]).scattered()
}

/// Every trajectory of the sequence scatters, and upward.
pub open spec fn all_scattered_upward(fragments: Seq<Trajectory>) -> bool {
    forall|i: int| 0 <= i < fragments.len() ==> (#[trigger] fragments[i]).scattered_upward()
}

/// Draws one component of an explosion trajectory: with even odds a value
/// in the negative band, otherwise one in the positive band.
pub fn random_explosion_vector(rng: &mut rand::ThreadRng) -> (component: i32)
    ensures
        scatters(component as int),
{
    if draw_bool(rng) {
        return draw_between(rng, -SCATTER_MAX, -SCATTER_MIN);
    }
    draw_between(rng, SCATTER_MIN, SCATTER_MAX)
}

/// Draws trajectories for `count` fragments, each component on its own.
pub fn random_scatter(rng: &mut rand::ThreadRng, count: usize) -> (fragments: Vec<Trajectory>)
    ensures
        fragments@.len() == count,
        all_scattered(fragments@),
{
    let mut fragments: Vec<Trajectory> = Vec::new();
    let mut i: usize = 0;
    while i < count
        invariant
            i <= count,
            fragments@.len() == i,
            all_scattered(fragments@),
        decreases count - i,
    {
        let x: i32 = random_explosion_vector(rng);
        let y: i32 = random_explosion_vector(rng);
        let z: i32 = random_explosion_vector(rng);
        fragments.push(Trajectory { x, y, z });
        i += 1;
    }
    fragments
}

/// Draws trajectories for `count` fragments that only fly upward: each
/// component is drawn on its own, and the vertical one is turned upward.
pub fn random_scatter_upward(rng: &mut rand::ThreadRng, count: usize) -> (fragments: Vec<
    Trajectory,
>)
    ensures
        fragments@.len() == count,
        all_scattered_upward(fragments@),
{
    let mut fragments: Vec<Trajectory> = Vec::new();
    let mut i: usize = 0;
    while i < count
        invariant
            i <= count,
            fragments@.len() == i,
            all_scattered_upward(fragments@),
        decreases count - i,
    {
        let x: i32 = random_explosion_vector(rng);
        let drawn: i32 = random_explosion_vector(rng);
        let y: i32 = if drawn < 0 {
            -drawn
        } else {
            drawn
        };
        let z: i32 = random_explosion_vector(rng);
        fragments.push(Trajectory { x, y, z });
        i += 1;
    }
    fragments
}

} // verus!
