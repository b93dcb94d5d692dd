//! One alien: its movement, its two poses, its death and its explosion.

use vstd::prelude::*;
use crate::explosion::{all_scattered, random_scatter, Trajectory};
use crate::lifecycle::{Lifecycle, LifecycleModel, State};
use crate::units::{clamp_coord, elapsed_secs, saturate, seconds_between, shift};

verus! {

/// Height of one alien, and so of one row of the formation.
pub const ALIEN_HEIGHT: i32 = 10000;

/// Width of one alien, and so of one column of the formation.
pub const ALIEN_WIDTH: i32 = 13000;

/// Visual fragments that an alien bursts into.
pub const ALIEN_FRAGMENTS: usize = 18;

/// Whole seconds that an alien's explosion outlasts.
pub const ALIEN_EXPLOSION_SECONDS: u64 = 10;

/// Whole seconds that an alien outlasts in one pose.
pub const ALIEN_FRAME_SECONDS: u64 = 1;

/// The direction an alien travels in. Rising x is to the left.
#[derive(Clone, Copy, Debug, PartialEq, Eq, Structural)]
pub enum Movement {
    /// Shuffling left.
    Left,
    /// Shuffling right.
    Right,
    /// Descending one row, then shuffling right.
    DownThenRight,
    /// Descending one row, then shuffling left.
    DownThenLeft,
}

/// The pose an alien is drawn in.
#[derive(Clone, Copy, Debug, PartialEq, Eq, Structural)]
pub enum Frame {
    Base,
    Translated,
}

/// One alien of the squadron.
pub struct Alien {
    x: i32,
    y: i32,
    z: i32,
    trajectories: Vec<Trajectory>,
    frame: Frame,
    life: Lifecycle,
    last_time: u64,
    drop_steps: i32,
    movement: Movement,
}

/// What an alien is to the game, as plain values. The trajectories of its
/// fragments are kept apart, see [`Alien::fragments`].
pub ghost struct AlienModel {
    /// Centre of the alien on the playfield.
    pub x: i32,
    pub y: i32,
    pub z: i32,
    pub state: State,
    /// When the alien began to die.
    pub time_of_death: Option<u64>,
    pub movement: Movement,
    /// Distance moved vertically since the formation last turned; descent
    /// counts as negative.
    pub drop_steps: i32,
    pub frame: Frame,
    /// When the alien last changed its pose.
    pub last_time: u64,
}

impl AlienModel {
    /// The alien's life-cycle.
    pub open spec fn life(self) -> LifecycleModel {
        LifecycleModel { state: self.state, time_of_death: self.time_of_death }
    }

    /// A moment of death is on record exactly when the alien is no longer
    /// alive.
    pub open spec fn valid(self) -> bool {
        self.life().valid()
    }

    /// An alien as it is created at `now`: alive at the centre of the
    /// playfield, in its base pose, about to shuffle right.
    pub open spec fn fresh(now: u64) -> AlienModel {
        AlienModel {
            x: 0,
            y: 0,
            z: 0,
            state: State::Alive,
            time_of_death: None,
            movement: Movement::Right,
            drop_steps: 0,
            frame: Frame::Base,
            last_time: now,
        }
    }

    /// The alien put at `(x, y, z)`.
    pub open spec fn placed(self, x: i32, y: i32, z: i32) -> AlienModel {
        AlienModel { x, y, z, ..self }
    }

    /// The alien after a request at `now` to kill it: only an alien that is
    /// alive begins to die.
    pub open spec fn died(self, now: u64) -> AlienModel {
        AlienModel {
            state: self.life().died(now).state,
            time_of_death: self.life().died(now).time_of_death,
            ..self
        }
    }

    /// The alien in its other pose.
    pub open spec fn switched(self) -> AlienModel {
        AlienModel {
            frame: match self.frame {
                Frame::Base => Frame::Translated,
                Frame::Translated => Frame::Base,
            },
            ..self
        }
    }

    /// The alien after its pose has been given the chance to change: it
    /// changes once the alien has outlasted a pose.
    pub open spec fn posed(self, now: u64) -> AlienModel {
        if seconds_between(now as int, self.last_time as int) > ALIEN_FRAME_SECONDS {
            AlienModel { last_time: now, ..self.switched() }
        } else {
            self
        }
    }

    /// The alien moved by one tick in its direction: sideways by `step`, or
    /// down by twice `step`, which also counts towards its descent.
    pub open spec fn moved(self, step: i32) -> AlienModel {
        match self.movement {
            Movement::Left => AlienModel {
                x: clamp_coord(self.x as int + step as int) as i32,
                ..self
            },
            Movement::Right => AlienModel {
                x: clamp_coord(self.x as int - step as int) as i32,
                ..self
            },
            Movement::DownThenRight | Movement::DownThenLeft => AlienModel {
                y: clamp_coord(self.y as int - 2 * (step as int)) as i32,
                drop_steps: clamp_coord(self.drop_steps as int - 2 * (step as int)) as i32,
                ..self
            },
        }
    }

    /// The alien after one tick of its explosion: it is dead once the
    /// explosion has lasted its time.
    pub open spec fn exploded(self, now: u64) -> AlienModel {
        AlienModel { state: self.life().expired(now, ALIEN_EXPLOSION_SECONDS).state, ..self }
    }

    /// The alien after one tick. While alive it changes pose when due and
    /// moves; while dying it explodes; once dead nothing changes.
    pub open spec fn animated(self, step: i32, now: u64) -> AlienModel {
        match self.state {
            State::Alive => self.posed(now).moved(step),
            State::Dying => self.exploded(now),
            State::Dead => self,
        }
    }

    /// Whether the alien is descending.
    pub open spec fn descending(self) -> bool {
        self.movement == Movement::DownThenLeft || self.movement == Movement::DownThenRight
    }

    /// Whether the alien has moved vertically by more than its own height
    /// since the formation last turned.
    pub open spec fn dropped_a_row(self) -> bool {
        self.drop_steps < -ALIEN_HEIGHT || self.drop_steps > ALIEN_HEIGHT
    }

    /// The alien after its descent has been given the chance to end: once
    /// it has come down more than its own height it shuffles sideways again.
    pub open spec fn settled(self) -> AlienModel {
        if self.descending() && self.dropped_a_row() {
            AlienModel {
                movement: if self.movement == Movement::DownThenLeft {
                    Movement::Left
                } else {
                    Movement::Right
                },
                ..self
            }
        } else {
            self
        }
    }

    /// The alien sent on a new descent, after which it will travel the way
    /// `movement` says.
    pub open spec fn turned(self, movement: Movement) -> AlienModel {
        AlienModel { drop_steps: 0, movement, ..self }
    }
}

impl View for Alien {
    type V = AlienModel;

    closed spec fn view(&self) -> AlienModel {
        AlienModel {
            x: self.x,
            y: self.y,
            z: self.z,
            state: self.life@.state,
            time_of_death: self.life@.time_of_death,
            movement: self.movement,
            drop_steps: self.drop_steps,
            frame: self.frame,
            last_time: self.last_time,
        }
    }
}

/// Whether the trajectories are those of an alien in the given state: one
/// for each fragment, and all of them scattering once the alien is no
/// longer alive.
pub open spec fn fragments_fit(state: State, fragments: Seq<Trajectory>) -> bool {
    &&& fragments.len() == ALIEN_FRAGMENTS
    &&& state != State::Alive ==> all_scattered(fragments)
}

impl Alien {
    #[verifier::type_invariant]
    spec fn well_formed(self) -> bool {
        fragments_fit(self.life@.state, self.trajectories@)
    }

    /// The explosion trajectory of each of the alien's fragments.
    pub closed spec fn fragments(&self) -> Seq<Trajectory> {
        self.trajectories@
    }

    /// Every alien has its moment of death on record exactly when it is not
    /// alive.
    pub proof fn lemma_valid(&self)
        ensures
            self@.valid(),
    {
        self.life.lemma_valid();
    }

    /// A new alien, alive at the centre of the playfield, with its
    /// fragments at rest.
    pub fn new(now: u64) -> (alien: Alien)
        ensures
            alien@ == AlienModel::fresh(now),
            alien@.valid(),
            alien.fragments() == Seq::new(ALIEN_FRAGMENTS as nat, |i: int| Trajectory::still()),
    {
        let mut trajectories: Vec<Trajectory> = Vec::new();
        let mut i: usize = 0;
        while i < ALIEN_FRAGMENTS
            invariant
                i <= ALIEN_FRAGMENTS,
                trajectories@ == Seq::new(i as nat, |i: int| Trajectory::still()),
            decreases ALIEN_FRAGMENTS - i,
        {
            trajectories.push(Trajectory { x: 0, y: 0, z: 0 });
            i += 1;
        }
        Alien {
            x: 0,
            y: 0,
            z: 0,
            trajectories,
            frame: Frame::Base,
            life: Lifecycle::new(),
            last_time: now,
            drop_steps: 0,
            movement: Movement::Right,
        }
    }

    /// Puts the alien at `(x, y, z)`.
    pub fn spawn(&mut self, x: i32, y: i32, z: i32)
        ensures
            final(self)@ == old(self)@.placed(x, y, z),
            final(self)@.valid(),
            final(self).fragments() == old(self).fragments(),
    {
        proof {
            use_type_invariant(&*self);
            self.life.lemma_valid();
        }
        self.x = x;
        self.y = y;
        self.z = z;
    }

    /// Kills the alien at `now`: it begins to die and each of its fragments
    /// gets a random trajectory. An alien that is already dying or dead is
    /// left as it is.
    pub fn die(&mut self, now: u64)
        ensures
            final(self)@ == old(self)@.died(now),
            final(self)@.valid(),
            fragments_fit(final(self)@.state, final(self).fragments()),
            old(self)@.state != State::Alive ==> final(self).fragments() == old(
                self,
            ).fragments(),
    {
        proof {
            use_type_invariant(&*self);
        }
        match self.life.state() {
            State::Alive => {},
            _ => {
                return ;
            },
        }
        let mut rng = rand::thread_rng();
        self.trajectories = random_scatter(&mut rng, ALIEN_FRAGMENTS);
        let mut life = self.life;
        life.die(now);
        self.life = life;
    }

    /// Advances the alien by one tick at `now`; `step` is the distance to
    /// shuffle sideways.
    pub fn animate(&mut self, step: i32, now: u64)
        ensures
            final(self)@ == old(self)@.animated(step, now),
            final(self)@.valid(),
            final(self).fragments() == old(self).fragments(),
    {
        proof {
            use_type_invariant(&*self);
        }
        match self.life.state() {
            State::Alive => {
                if elapsed_secs(now, self.last_time) > ALIEN_FRAME_SECONDS {
                    self.switch();
                    self.last_time = now;
                }
                match self.movement {
                    Movement::Left => {
                        self.x = shift(self.x, step);
                    },
                    Movement::Right => {
                        self.x = saturate(self.x as i64 - step as i64);
                    },
                    Movement::DownThenRight | Movement::DownThenLeft => {
                        let fall: i64 = 2 * (step as i64);
                        self.y = saturate(self.y as i64 - fall);
                        self.drop_steps = saturate(self.drop_steps as i64 - fall);
                    },
                }
            },
            State::Dying => {
                self.explode(now);
            },
            State::Dead => {},
        }
    }

    /// Changes the alien's pose.
    fn switch(&mut self)
        ensures
            final(self)@ == old(self)@.switched(),
            final(self).fragments() == old(self).fragments(),
    {
        proof {
            use_type_invariant(&*self);
        }
        match self.frame {
            Frame::Base => {
                self.frame = Frame::Translated;
            },
            Frame::Translated => {
                self.frame = Frame::Base;
            },
        }
    }

    /// Lets the explosion run for one tick: once it has lasted its time the
    /// alien is dead.
    fn explode(&mut self, now: u64)
        ensures
            final(self)@ == old(self)@.exploded(now),
            final(self).fragments() == old(self).fragments(),
    {
        proof {
            use_type_invariant(&*self);
        }
        let mut life = self.life;
        life.expire(now, ALIEN_EXPLOSION_SECONDS);
        self.life = life;
    }

    /// Ends the alien's descent once it has come down more than its own
    /// height.
    pub(crate) fn settle(&mut self)
        ensures
            final(self)@ == old(self)@.settled(),
            final(self).fragments() == old(self).fragments(),
    {
        proof {
            use_type_invariant(&*self);
        }
        match self.movement {
            Movement::DownThenLeft => {
                if self.drop_steps < 0 - ALIEN_HEIGHT || self.drop_steps > ALIEN_HEIGHT {
                    self.movement = Movement::Left;
                }
            },
            Movement::DownThenRight => {
                if self.drop_steps < 0 - ALIEN_HEIGHT || self.drop_steps > ALIEN_HEIGHT {
                    self.movement = Movement::Right;
                }
            },
            _ => {},
        }
    }

    /// Sends the alien on a new descent.
    pub(crate) fn turn(&mut self, movement: Movement)
        ensures
            final(self)@ == old(self)@.turned(movement),
            final(self).fragments() == old(self).fragments(),
    {
        proof {
            use_type_invariant(&*self);
        }
        self.drop_steps = 0;
        self.movement = movement;
    }

    /// The alien's position.
    pub fn get_coords(&self) -> (coords: (i32, i32, i32))
        ensures
            coords == (self@.x, self@.y, self@.z),
    {
        (self.x, self.y, self.z)
    }

    /// The alien's state.
    pub fn state(&self) -> (state: State)
        ensures
            state == self@.state,
            self@.valid(),
    {
        self.life.state()
    }

    /// Whole seconds since the alien began to die, if it has.
    pub fn seconds_since_death(&self, now: u64) -> (secs: Option<u64>)
        ensures
            secs == self@.life().seconds_since_death(now),
            secs.is_some() <==> self@.state != State::Alive,
    {
        self.life.seconds_since_death(now)
    }

    /// The direction the alien travels in.
    pub fn movement(&self) -> (movement: Movement)
        ensures
            movement == self@.movement,
    {
        self.movement
    }

    /// Distance the alien has descended since the formation last turned.
    pub fn drop_steps(&self) -> (steps: i32)
        ensures
            steps == self@.drop_steps,
    {
        self.drop_steps
    }

    /// The pose the alien is drawn in.
    pub fn frame(&self) -> (frame: Frame)
        ensures
            frame == self@.frame,
    {
        self.frame
    }

    /// The explosion trajectory of each fragment.
    pub fn trajectories(&self) -> (fragments: &Vec<Trajectory>)
        ensures
            fragments@ == self.fragments(),
            fragments_fit(self@.state, fragments@),
    {
        proof {
            use_type_invariant(self);
        }
        &self.trajectories
    }
}


/// Killing an alien twice is the same as killing it once: the second call
/// changes neither its state nor its moment of death. An alien that was
/// alive is dying after both, since the moment of the first.
pub proof fn lemma_die_idempotent(alien: AlienModel, first: u64, second: u64)
    ensures
        alien.died(first).died(second) == alien.died(first),
        alien.state != State::Dead ==> alien.died(first).died(second).state == State::Dying,
        alien.state == State::Alive ==> alien.died(first).died(second).time_of_death == Some(
            first,
        ),
        alien.state != State::Alive ==> alien.died(first).died(second).time_of_death
            == alien.time_of_death,
{
}

/// Whatever happens to an alien, it keeps its moment of death on record
/// exactly while it is not alive; once it has begun to die no tick, kill,
/// descent or turn brings it back to life or changes that moment.
pub proof fn lemma_alien_steps_keep_valid(alien: AlienModel, step: i32, now: u64, to: Movement)
    requires
        alien.valid(),
    ensures
        alien.died(now).valid(),
        alien.died(now).state != State::Alive,
        alien.animated(step, now).valid(),
        alien.settled().valid(),
        alien.turned(to).valid(),
        alien.state != State::Alive ==> alien.animated(step, now).state != State::Alive
            && alien.animated(step, now).time_of_death == alien.time_of_death
            && alien.died(now) == alien,
{
}

/// A descent ends in the turn it was begun for. An alien sent down keeps
/// descending until it has come down more than a row; then the one sent
/// down to go left shuffles left and the one sent down to go right shuffles
/// right, with its descent still on record.
pub proof fn lemma_descent_ends_in_turn(alien: AlienModel, to: Movement)
    ensures
        alien.turned(to).settled() == alien.turned(to),
        alien.descending() && !alien.dropped_a_row() ==> alien.settled() == alien,
        alien.movement == Movement::DownThenLeft && alien.dropped_a_row()
            ==> alien.settled().movement == Movement::Left,
        alien.movement == Movement::DownThenRight && alien.dropped_a_row()
            ==> alien.settled().movement == Movement::Right,
        alien.settled().drop_steps == alien.drop_steps,
        !alien.descending() ==> alien.settled() == alien,
{
}

/// While the step is not negative, an alien that descends comes down by
/// twice the step each tick, wherever the playfield has room for it, and an
/// alien that shuffles stays on its altitude.
pub proof fn lemma_descent_is_twice_as_fast(alien: AlienModel, step: i32)
    requires
        step >= 0,
        i32::MIN <= alien.y - 2 * step,
        i32::MIN <= alien.drop_steps - 2 * step <= i32::MAX,
    ensures
        alien.descending() ==> alien.moved(step).y == alien.y - 2 * step && alien.moved(
            step,
        ).drop_steps == alien.drop_steps - 2 * step && alien.moved(step).x == alien.x,
        !alien.descending() ==> alien.moved(step).y == alien.y && alien.moved(step).drop_steps
            == alien.drop_steps,
        alien.movement == Movement::Left && alien.x + step <= i32::MAX ==> alien.moved(step).x
            == alien.x + step,
        alien.movement == Movement::Right && alien.x - step >= i32::MIN ==> alien.moved(step).x
            == alien.x - step,
{
}

} // verus!
