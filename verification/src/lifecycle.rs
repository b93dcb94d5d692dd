//! The life-cycle shared by every entity of the playfield: alive, then
//! exploding for a fixed time, then dead.

use vstd::prelude::*;
use crate::units::{seconds_between, elapsed_secs};

verus! {

/// Where an entity stands in its life.
#[derive(Clone, Copy, Debug, PartialEq, Eq, Structural)]
pub enum State {
    /// Playing normally.
    Alive,
    /// Exploding.
    Dying,
    /// Finished exploding.
    Dead,
}

/// The life-cycle of one entity: its state and the moment it began to die.
///
/// The moment is kept beside the state and read only while the entity is not
/// alive, so no value of this type can hold a state without its moment of
/// death, or a moment of death while alive.
#[derive(Clone, Copy, Debug)]
pub struct Lifecycle {
    state: State,
    since: u64,
}

/// What a life-cycle is, as plain values.
pub ghost struct LifecycleModel {
    pub state: State,
    pub time_of_death: Option<u64>,
}

impl LifecycleModel {
    /// A moment of death is on record exactly when the entity is no longer
    /// alive.
    pub open spec fn valid(self) -> bool {
        self.state != State::Alive <==> self.time_of_death.is_some()
    }

    /// A life-cycle at its start.
    pub open spec fn fresh() -> LifecycleModel {
        LifecycleModel { state: State::Alive, time_of_death: None }
    }

    /// The life-cycle after a request at `now` to kill the entity: only an
    /// entity that is alive begins to die.
    pub open spec fn died(self, now: u64) -> LifecycleModel {
        if self.state == State::Alive {
            LifecycleModel { state: State::Dying, time_of_death: Some(now) }
        } else {
            self
        }
    }

    /// Whole seconds since the entity began to die, if it has.
    pub open spec fn seconds_since_death(self, now: u64) -> Option<u64> {
        match self.time_of_death {
            Some(then) => Some(seconds_between(now as int, then as int) as u64),
            None => None,
        }
    }

    /// Whether an explosion that lasts `duration` whole seconds is over at
    /// `now`.
    pub open spec fn burnt_out(self, now: u64, duration: u64) -> bool {
        self.state == State::Dying && match self.time_of_death {
            Some(then) => seconds_between(now as int, then as int) > duration,
            None => false,
        }
    }

    /// The life-cycle after the explosion has been given the chance to end.
    pub open spec fn expired(self, now: u64, duration: u64) -> LifecycleModel {
        if self.burnt_out(now, duration) {
            LifecycleModel { state: State::Dead, ..self }
        } else {
            self
        }
    }

    /// The life-cycle after a request to bring the entity back: only a dead
    /// entity returns, with no moment of death on record.
    pub open spec fn revived(self) -> LifecycleModel {
        if self.state == State::Dead {
            LifecycleModel::fresh()
        } else {
            self
        }
    }
}

impl View for Lifecycle {
    type V = LifecycleModel;

    closed spec fn view(&self) -> LifecycleModel {
        LifecycleModel {
            state: self.state,
            time_of_death: if self.state == State::Alive {
                None
            } else {
                Some(self.since)
            },
        }
    }
}

impl Lifecycle {
    /// Every life-cycle has its moment of death on record exactly when it
    /// is not alive.
    pub proof fn lemma_valid(self)
        ensures
            self@.valid(),
    {
    }

    /// A life-cycle at its start: alive, with no moment of death.
    pub fn new() -> (life: Lifecycle)
        ensures
            life@ == LifecycleModel::fresh(),
            life@.valid(),
    {
        Lifecycle { state: State::Alive, since: 0 }
    }

    /// The current state.
    pub fn state(&self) -> (state: State)
        ensures
            state == self@.state,
            self@.valid(),
    {
        self.state
    }

    /// The moment the entity began to die, if it has.
    pub fn time_of_death(&self) -> (moment: Option<u64>)
        ensures
            moment == self@.time_of_death,
            self@.valid(),
    {
        match self.state {
            State::Alive => None,
            _ => Some(self.since),
        }
    }

    /// Whole seconds since the entity began to die, if it has.
    pub fn seconds_since_death(&self, now: u64) -> (secs: Option<u64>)
        ensures
            secs == self@.seconds_since_death(now),
            self@.valid(),
    {
        match self.state {
            State::Alive => None,
            _ => Some(elapsed_secs(now, self.since)),
        }
    }

    /// Kills the entity at `now`. Only an entity that is alive begins to
    /// die; on any other the call changes nothing. Returns whether the
    /// entity began to die.
    pub fn die(&mut self, now: u64) -> (began: bool)
        ensures
            final(self)@ == old(self)@.died(now),
            final(self)@.valid(),
            began == (old(self)@.state == State::Alive),
    {
        if self.state == State::Alive {
            self.state = State::Dying;
            self.since = now;
            true
        } else {
            false
        }
    }

    /// Ends the explosion once more than `duration` whole seconds have
    /// passed since the entity began to die. Returns whether it ended now.
    pub fn expire(&mut self, now: u64, duration: u64) -> (ended: bool)
        ensures
            final(self)@ == old(self)@.expired(now, duration),
            final(self)@.valid(),
            ended == old(self)@.burnt_out(now, duration),
    {
        if self.state == State::Dying && elapsed_secs(now, self.since) > duration {
            self.state = State::Dead;
            true
        } else {
            false
        }
    }

    /// Brings a dead entity back to life and forgets its moment of death.
    /// On an entity that is not dead the call changes nothing. Returns
    /// whether the entity came back.
    pub fn revive(&mut self) -> (back: bool)
        ensures
            final(self)@ == old(self)@.revived(),
            final(self)@.valid(),
            back == (old(self)@.state == State::Dead),
    {
        if self.state == State::Dead {
            self.state = State::Alive;
            true
        } else {
            false
        }
    }
}

/// An entity that is not alive always has its moment of death on record.
pub proof fn lemma_not_alive_has_time_of_death(life: LifecycleModel)
    requires
        life.valid(),
    ensures
        life.state != State::Alive ==> life.time_of_death.is_some(),
{
}

/// Every step of the life-cycle keeps the record of the moment of death in
/// line with the state: it is there right after a kill, and neither the end
/// of the explosion nor a second kill removes it.
pub proof fn lemma_steps_keep_valid(life: LifecycleModel, now: u64, duration: u64)
    requires
        life.valid(),
    ensures
        life.died(now).valid(),
        life.died(now).state != State::Alive,
        life.died(now).time_of_death.is_some(),
        life.expired(now, duration).valid(),
        life.revived().valid(),
        life.state != State::Alive ==> life.expired(now, duration).time_of_death
            == life.time_of_death,
        life.state != State::Alive ==> life.died(now) == life,
{
}

/// Killing twice is the same as killing once: the second call changes
/// neither the state nor the moment of death.
pub proof fn lemma_die_idempotent(life: LifecycleModel, first: u64, second: u64)
    ensures
        life.died(first).died(second) == life.died(first),
        life.state != State::Dead ==> life.died(first).died(second).state == State::Dying,
        life.state == State::Alive ==> life.died(first).died(second).time_of_death == Some(
            first,
        ),
        life.state != State::Alive ==> life.died(first).died(second).time_of_death
            == life.time_of_death,
{
}

/// The life-cycle only moves forward on its own: a dying entity never turns
/// alive again, and a dead one stays dead, until it is explicitly revived.
pub proof fn lemma_one_way(life: LifecycleModel, now: u64, duration: u64)
    requires
        life.valid(),
    ensures
        life.state == State::Dead ==> life.died(now).state == State::Dead && life.expired(
            now,
            duration,
        ).state == State::Dead,
        life.state == State::Dying ==> life.died(now).state == State::Dying && life.expired(
            now,
            duration,
        ).state != State::Alive,
{
}

} // verus!
