//! The player's ship: its movement, its single shot, its destruction and
//! its return.

use vstd::prelude::*;
use crate::bullet::{advanced_slot, Bullet};
use crate::collision::{check, outcome_of, Collision, CollisionObject, CollisionOutcome};
use crate::explosion::{all_scattered_upward, random_scatter_upward, Trajectory};
use crate::lifecycle::{Lifecycle, LifecycleModel};
use crate::units::{clamp_coord, saturate};

pub use crate::lifecycle::State;

verus! {

/// Height of the ship.
pub const HERO_HEIGHT: i32 = 13000;

/// Distance the ship moves per tick while a movement key is held.
pub const HERO_MOVE_STEP: i32 = 1000;

/// Altitude of the ship.
pub const HERO_Y_BASE: i32 = -90000;

/// The altitude below which nothing of the ship is.
pub const HERO_Y_FLOOR: i32 = -96500;

/// Altitude at which a shot leaves the ship: its tip.
pub const BULLET_Y_START: i32 = -83500;

/// Vertical speed of a shot.
pub const BULLET_ASCENT: i32 = 2000;

/// Pieces of debris that the ship bursts into.
pub const HERO_DEBRIS: usize = 20;

/// Whole seconds that the ship's explosion outlasts.
pub const HERO_EXPLOSION_SECONDS: u64 = 4;

/// The player's ship.
pub struct Hero {
    x: i32,
    y: i32,
    z: i32,
    life: Lifecycle,
    debris: Vec<Trajectory>,
    bullet: Option<Bullet>,
    reach: Option<i32>,
}

/// What the ship is to the game, as plain values. The trajectories of its
/// debris are kept apart, see [`Hero::debris`].
pub ghost struct HeroModel {
    pub x: i32,
    pub y: i32,
    pub z: i32,
    pub state: State,
    /// When the ship began to explode.
    pub time_of_death: Option<u64>,
    /// The one shot that the ship may have in flight.
    pub bullet: Option<Bullet>,
    /// How far from the centre the ship may move to either side; `None`
    /// where the playfield is open.
    pub reach: Option<i32>,
}

/// The coordinate `x` held within `reach` of the centre on either side.
pub open spec fn confined(x: int, reach: Option<i32>) -> int {
    match reach {
        Some(limit) => if x > limit {
            limit as int
        } else if x < -limit {
            -limit
        } else {
            x
        },
        None => x,
    }
}

impl HeroModel {
    /// The ship's life-cycle.
    pub open spec fn life(self) -> LifecycleModel {
        LifecycleModel { state: self.state, time_of_death: self.time_of_death }
    }

    /// A moment of death is on record exactly when the ship is not alive,
    /// a limit to its movement is never negative, and a shot in flight
    /// climbs at the speed of a shot.
    pub open spec fn valid(self) -> bool {
        &&& self.life().valid()
        &&& match self.reach {
            Some(limit) => limit >= 0,
            None => true,
        }
        &&& match self.bullet {
            Some(shot) => shot.speed == BULLET_ASCENT,
            None => true,
        }
    }

    /// A new ship at `x`: alive, on the ship's altitude, with no shot in
    /// flight, on an open playfield.
    pub open spec fn fresh(x: i32) -> HeroModel {
        HeroModel {
            x,
            y: HERO_Y_BASE,
            z: 0,
            state: State::Alive,
            time_of_death: None,
            bullet: None,
            reach: None,
        }
    }

    /// The ship with its movement limited to `reach` on either side of the
    /// centre, or free where `reach` is `None`. A negative limit counts as
    /// none to either side.
    pub open spec fn limited(self, reach: Option<i32>) -> HeroModel {
        HeroModel {
            reach: match reach {
                Some(limit) => Some(
                    if limit < 0 {
                        0
                    } else {
                        limit
                    },
                ),
                None => None,
            },
            ..self
        }
    }

    /// The ship after a request at `now` to destroy it: only a ship that is
    /// alive begins to explode, and its shot goes with it.
    pub open spec fn destroyed(self, now: u64) -> HeroModel {
        if self.state == State::Alive {
            HeroModel { state: State::Dying, time_of_death: Some(now), bullet: None, ..self }
        } else {
            self
        }
    }

    /// The ship one tick later: the explosion is over once it has lasted
    /// its time, and the shot has climbed.
    pub open spec fn animated(self, now: u64) -> HeroModel {
        HeroModel {
            state: self.life().expired(now, HERO_EXPLOSION_SECONDS).state,
            bullet: advanced_slot(self.bullet),
            ..self
        }
    }

    /// The ship brought back after its explosion: only a dead ship returns.
    pub open spec fn resurrected(self) -> HeroModel {
        HeroModel {
            state: self.life().revived().state,
            time_of_death: self.life().revived().time_of_death,
            ..self
        }
    }

    /// The shot that the ship fires from where it is.
    pub open spec fn shot(self) -> Bullet {
        Bullet { x: self.x, y: BULLET_Y_START, z: 0, speed: BULLET_ASCENT }
    }

    /// The ship after it was asked to fire: with a shot in flight it fires
    /// no second one.
    pub open spec fn fired(self) -> HeroModel {
        if self.bullet.is_none() {
            HeroModel { bullet: Some(self.shot()), ..self }
        } else {
            self
        }
    }

    /// The ship without its shot.
    pub open spec fn disarmed(self) -> HeroModel {
        HeroModel { bullet: None, ..self }
    }

    /// The ship moved sideways by `distance`, as far as its reach allows.
    pub open spec fn moved(self, distance: int) -> HeroModel {
        HeroModel {
            x: confined(clamp_coord(self.x as int + distance), self.reach) as i32,
            ..self
        }
    }

    /// What a test of the ship against the point `(x, y)` finds.
    pub open spec fn strike_outcome(self, x: i32, y: i32) -> CollisionOutcome {
        outcome_of(x as int, y as int, self.x as int, self.y as int)
    }
}

/// Whether the trajectories are those of the debris of a ship in the given
/// state: while it explodes one for each piece, all scattering upward, and
/// none at any other time.
pub open spec fn debris_fit(state: State, debris: Seq<Trajectory>) -> bool {
    if state == State::Dying {
        debris.len() == HERO_DEBRIS && all_scattered_upward(debris)
    } else {
        debris.len() == 0
    }
}

impl View for Hero {
    type V = HeroModel;

    closed spec fn view(&self) -> HeroModel {
        HeroModel {
            x: self.x,
            y: self.y,
            z: self.z,
            state: self.life@.state,
            time_of_death: self.life@.time_of_death,
            bullet: self.bullet,
            reach: self.reach,
        }
    }
}

impl Hero {
    /// The ship has debris exactly while it explodes, a limit to its
    /// movement is never negative, and a shot in flight climbs at the speed
    /// of a shot.
    #[verifier::type_invariant]
    pub closed spec fn well_formed(self) -> bool {
        &&& debris_fit(self.life@.state, self.debris@)
        &&& match self.reach {
            Some(limit) => limit >= 0,
            None => true,
        }
        &&& match self.bullet {
            Some(shot) => shot.speed == BULLET_ASCENT,
            None => true,
        }
    }

    /// The trajectory of each piece of debris.
    pub closed spec fn debris(&self) -> Seq<Trajectory> {
        self.debris@
    }

    /// A well-formed ship is valid and its debris fits its state.
    pub proof fn lemma_valid(&self)
        requires
            self.well_formed(),
        ensures
            self@.valid(),
            debris_fit(self@.state, self.debris()),
    {
        self.life.lemma_valid();
    }

    /// A new ship at `x`, alive and on an open playfield.
    pub fn new(x: i32) -> (hero: Hero)
        ensures
            hero@ == HeroModel::fresh(x),
            hero@.valid(),
            hero.debris() == Seq::<Trajectory>::empty(),
    {
        let hero = Hero {
            x,
            y: HERO_Y_BASE,
            z: 0,
            life: Lifecycle::new(),
            debris: Vec::new(),
            bullet: None,
            reach: None,
        };
        hero
    }

    /// Limits the ship's movement to `reach` on either side of the centre,
    /// or opens the playfield with `None`.
    pub fn set_reach(&mut self, reach: Option<i32>)
        ensures
            final(self)@ == old(self)@.limited(reach),
            final(self)@.valid(),
            final(self).debris() == old(self).debris(),
    {
        proof {
            use_type_invariant(&*self);
            self.life.lemma_valid();
        }
        self.reach = match reach {
            Some(limit) => Some(
                if limit < 0 {
                    0
                } else {
                    limit
                },
            ),
            None => None,
        };
    }

    /// Removes the ship from play: its shot is destroyed with it.
    pub fn delete(&mut self)
        ensures
            final(self)@ == old(self)@.disarmed(),
            final(self)@.valid(),
            final(self).debris() == old(self).debris(),
    {
        self.destroy_bullet();
    }

    /// Starts blowing up the ship at `now`: it begins to die, bursts into
    /// debris that scatters upward, and loses its shot. A ship that is
    /// already exploding or dead is left as it is.
    pub fn destroy(&mut self, now: u64)
        ensures
            final(self)@ == old(self)@.destroyed(now),
            final(self)@.valid(),
            debris_fit(final(self)@.state, final(self).debris()),
            old(self)@.state != State::Alive ==> final(self).debris() == old(self).debris(),
    {
        proof {
            use_type_invariant(&*self);
            self.life.lemma_valid();
        }
        let mut life: Lifecycle = self.life;
        if life.die(now) {
            let mut rng = rand::thread_rng();
            let debris: Vec<Trajectory> = random_scatter_upward(&mut rng, HERO_DEBRIS);
            *self = Hero {
                x: self.x,
                y: self.y,
                z: self.z,
                life,
                debris,
                bullet: None,
                reach: self.reach,
            };
        }
    }

    /// Advances the ship by one tick at `now`: an explosion that has lasted
    /// its time ends and its debris is cleared away, and the shot climbs.
    pub fn animate(&mut self, now: u64)
        ensures
            final(self)@ == old(self)@.animated(now),
            final(self)@.valid(),
            debris_fit(final(self)@.state, final(self).debris()),
            final(self)@.state == old(self)@.state ==> final(self).debris() == old(
                self,
            ).debris(),
    {
        proof {
            use_type_invariant(&*self);
            self.life.lemma_valid();
        }
        let bullet: Option<Bullet> = match self.bullet {
            Some(shell) => {
                let mut shell: Bullet = shell;
                shell.animate();
                Some(shell)
            },
            None => None,
        };
        let mut life: Lifecycle = self.life;
        if life.expire(now, HERO_EXPLOSION_SECONDS) {
            *self = Hero {
                x: self.x,
                y: self.y,
                z: self.z,
                life,
                debris: Vec::new(),
                bullet,
                reach: self.reach,
            };
        } else {
            self.bullet = bullet;
        }
    }

    /// Brings the ship back after its explosion. A ship that is not dead is
    /// left as it is.
    pub fn resurrect(&mut self)
        ensures
            final(self)@ == old(self)@.resurrected(),
            final(self)@.valid(),
            final(self).debris() == old(self).debris(),
    {
        proof {
            use_type_invariant(&*self);
            self.life.lemma_valid();
        }
        let mut life: Lifecycle = self.life;
        life.revive();
        self.life = life;
    }

    /// Fires a shot from the tip of the ship, unless one is in flight.
    pub fn fire(&mut self)
        ensures
            final(self)@ == old(self)@.fired(),
            final(self)@.valid(),
            final(self).debris() == old(self).debris(),
    {
        proof {
            use_type_invariant(&*self);
            self.life.lemma_valid();
        }
        if self.bullet.is_none() {
            self.bullet = Some(Bullet::new(self.x, BULLET_Y_START, BULLET_ASCENT));
        }
    }

    /// Removes the shot from play, if there is one.
    pub fn destroy_bullet(&mut self)
        ensures
            final(self)@ == old(self)@.disarmed(),
            final(self)@.valid(),
            final(self).debris() == old(self).debris(),
    {
        proof {
            use_type_invariant(&*self);
            self.life.lemma_valid();
        }
        self.bullet = None;
    }

    /// Tests whether the ship overlaps the point `(x, y)`. The test leaves
    /// the ship as it is: what a hit means is for the caller to decide.
    pub fn collision(&self, x: i32, y: i32) -> (outcome: CollisionOutcome)
        ensures
            outcome == self@.strike_outcome(x, y),
    {
        let scenario = Collision {
            a: CollisionObject { x, y },
            b: CollisionObject { x: self.x, y: self.y },
        };
        check(scenario)
    }

    /// The ship's position.
    pub fn get_coords(&self) -> (coords: (i32, i32, i32))
        ensures
            coords == (self@.x, self@.y, self@.z),
    {
        (self.x, self.y, self.z)
    }

    /// Moves the ship one step to the left, towards rising x.
    pub fn move_left(&mut self)
        ensures
            final(self)@ == old(self)@.moved(HERO_MOVE_STEP as int),
            final(self)@.valid(),
            final(self).debris() == old(self).debris(),
    {
        self.move_ship(HERO_MOVE_STEP);
    }

    /// Moves the ship one step to the right, towards falling x.
    pub fn move_right(&mut self)
        ensures
            final(self)@ == old(self)@.moved(-HERO_MOVE_STEP as int),
            final(self)@.valid(),
            final(self).debris() == old(self).debris(),
    {
        self.move_ship(0 - HERO_MOVE_STEP);
    }

    /// Moves the ship sideways by `distance`, as far as its reach allows.
    fn move_ship(&mut self, distance: i32)
        ensures
            final(self)@ == old(self)@.moved(distance as int),
            final(self)@.valid(),
            final(self).debris() == old(self).debris(),
    {
        proof {
            use_type_invariant(&*self);
            self.life.lemma_valid();
        }
        let target: i32 = saturate(self.x as i64 + distance as i64);
        self.x = match self.reach {
            Some(limit) => if target > limit {
                limit
            } else if target < 0 - limit {
                0 - limit
            } else {
                target
            },
            None => target,
        };
    }

    /// The ship's state.
    pub fn state(&self) -> (state: State)
        ensures
            state == self@.state,
            self@.valid(),
    {
        proof {
            use_type_invariant(self);
        }
        self.life.state()
    }

    /// Whole seconds since the ship began to explode, if it has.
    pub fn seconds_since_death(&self, now: u64) -> (secs: Option<u64>)
        ensures
            secs == self@.life().seconds_since_death(now),
            secs.is_some() <==> self@.state != State::Alive,
    {
        self.life.seconds_since_death(now)
    }

    /// The shot in flight, if there is one.
    pub fn bullet(&self) -> (bullet: Option<Bullet>)
        ensures
            bullet == self@.bullet,
            self@.valid(),
    {
        proof {
            use_type_invariant(self);
            self.life.lemma_valid();
        }
        self.bullet
    }

    /// How far from the centre the ship may move, if the playfield is not
    /// open.
    pub fn reach(&self) -> (reach: Option<i32>)
        ensures
            reach == self@.reach,
            self@.valid(),
    {
        proof {
            use_type_invariant(self);
            self.life.lemma_valid();
        }
        self.reach
    }

    /// The trajectory of each piece of debris: twenty while the ship
    /// explodes, none at any other time.
    pub fn debris_trajectories(&self) -> (debris: &Vec<Trajectory>)
        ensures
            debris@ == self.debris(),
            debris_fit(self@.state, debris@),
    {
        proof {
            use_type_invariant(self);
        }
        &self.debris
    }
}

/// Asked to fire twice in a row, the ship has the shot of the first call in
/// flight and no other: the second call changes nothing.
pub proof fn lemma_fire_once(hero: HeroModel)
    ensures
        hero.fired().fired() == hero.fired(),
        hero.fired().bullet.is_some(),
        hero.bullet.is_none() ==> hero.fired().bullet == Some(hero.shot()),
        hero.bullet.is_some() ==> hero.fired() == hero,
{
}

/// Destroying the ship twice is the same as destroying it once: the second
/// call changes neither its state nor its moment of death.
pub proof fn lemma_destroy_idempotent(hero: HeroModel, first: u64, second: u64)
    ensures
        hero.destroyed(first).destroyed(second) == hero.destroyed(first),
        hero.state == State::Alive ==> hero.destroyed(first).state == State::Dying
            && hero.destroyed(first).time_of_death == Some(first),
        hero.state == State::Alive ==> hero.destroyed(first).bullet.is_none(),
{
}

/// Whatever happens to the ship, it keeps its moment of death on record
/// exactly while it is not alive.
pub proof fn lemma_hero_steps_keep_valid(hero: HeroModel, now: u64, distance: int)
    requires
        hero.valid(),
    ensures
        hero.destroyed(now).valid(),
        hero.animated(now).valid(),
        hero.resurrected().valid(),
        hero.fired().valid(),
        hero.disarmed().valid(),
        hero.moved(distance).valid(),
        hero.state != State::Alive ==> hero.animated(now).state != State::Alive,
{
}

/// A ship with a limit to its movement is within it after every move, and
/// a ship on an open playfield moves by the full distance wherever the
/// playfield has room for it.
pub proof fn lemma_move_within_reach(hero: HeroModel, distance: int)
    requires
        hero.valid(),
    ensures
        match hero.reach {
            Some(limit) => -limit <= hero.moved(distance).x <= limit,
            None => i32::MIN <= hero.x + distance <= i32::MAX ==> hero.moved(distance).x
                == hero.x + distance,
        },
{
}

/// The floor is half the ship's height under its altitude, and a shot
/// starts half the ship's height above it.
pub proof fn lemma_ship_geometry()
    ensures
        HERO_Y_FLOOR == HERO_Y_BASE - HERO_HEIGHT / 2,
        BULLET_Y_START == HERO_Y_BASE + HERO_HEIGHT / 2,
{
}

/// A shot in flight climbs by exactly the speed of a shot each tick, as
/// long as it stays on the playfield, and keeps its column and its speed.
pub proof fn lemma_shot_climbs(hero: HeroModel, now: u64)
    requires
        hero.valid(),
        match hero.bullet {
            Some(shot) => shot.y + BULLET_ASCENT <= i32::MAX,
            None => false,
        },
    ensures
        match (hero.bullet, hero.animated(now).bullet) {
            (Some(before), Some(after)) => after.y == before.y + BULLET_ASCENT && after.x
                == before.x && after.z == before.z && after.speed == BULLET_ASCENT,
            _ => false,
        },
{
}

} // verus!
