//! A projectile in flight: the player's shot or the squadron's bomb.

use vstd::prelude::*;
use crate::units::{clamp_coord, shift};

verus! {

/// A single moving point with a constant vertical speed. A positive speed
/// climbs, as the player's shot does; a negative speed falls, as a bomb does.
#[derive(Clone, Copy, Debug, PartialEq, Eq, Structural)]
pub struct Bullet {
    pub x: i32,
    pub y: i32,
    pub z: i32,
    pub speed: i32,
}

impl Bullet {
    /// The projectile one tick later: it has moved by its speed along the
    /// y axis and nowhere else.
    pub open spec fn advanced(self) -> Bullet {
        Bullet { y: clamp_coord(self.y as int + self.speed as int) as i32, ..self }
    }

    /// A projectile at `(x, y)` in the plane of play, with the given speed.
    pub fn new(x: i32, y: i32, speed: i32) -> (shell: Bullet)
        ensures
            shell == (Bullet { x, y, z: 0, speed }),
    {
        Bullet { x, y, z: 0, speed }
    }

    /// Moves the projectile by one tick.
    pub fn animate(&mut self)
        ensures
            *final(self) == old(self).advanced(),
    {
        self.y = shift(self.y, self.speed);
    }

    /// The projectile's position.
    pub fn get_coords(&self) -> (coords: (i32, i32, i32))
        ensures
            coords == (self.x, self.y, self.z),
    {
        (self.x, self.y, self.z)
    }
}

/// The projectile in a slot one tick later: an empty slot stays empty.
pub open spec fn advanced_slot(slot: Option<Bullet>) -> Option<Bullet> {
    match slot {
        Some(shell) => Some(shell.advanced()),
        None => None,
    }
}

/// A projectile that climbs gains exactly its speed in height each tick, as
/// long as it stays on the playfield; one that falls loses it.
pub proof fn lemma_advance_by_speed(shell: Bullet)
    requires
        i32::MIN <= shell.y + shell.speed <= i32::MAX,
    ensures
        shell.advanced().y == shell.y + shell.speed,
        shell.advanced().x == shell.x,
        shell.advanced().speed == shell.speed,
{
}

} // verus!
