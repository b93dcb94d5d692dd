//! The squadron: the aliens of a round, moved as one formation, and the
//! single bomb they drop.

use vstd::prelude::*;
use crate::bullet::{advanced_slot, Bullet};
use crate::chance::draw_u64;
use crate::collision::{check, Collision, CollisionObject, CollisionOutcome};
use crate::explosion::Trajectory;
use crate::lifecycle::State;
use crate::units::{clamp_coord, saturate};

pub use crate::alien::{
    fragments_fit, Alien, AlienModel, Frame, Movement, ALIEN_EXPLOSION_SECONDS, ALIEN_FRAGMENTS,
    ALIEN_FRAME_SECONDS, ALIEN_HEIGHT, ALIEN_WIDTH,
};
pub use crate::explosion::random_explosion_vector;
pub use crate::formation::{
    alive_count, column_floor, fragments_follow, hit_at, is_column_floor, is_first_hit,
    is_nth_alive, left_wall, nth_alive, right_wall, spawn_x, spawn_y, spawned_alien,
    squadron_step, SquadronModel, ALIENS_PER_ROW, ALIEN_HALF_HEIGHT, ALIEN_HALF_WIDTH,
    ALIEN_POINTS, ALIEN_ROWS, ALIEN_SIDE_SPACE, ALIEN_TOP_Y, ALIEN_Y_CEILING, BASE_STEP,
    BOMB_DESCENT, STEP_GAIN,
};
use crate::formation::{
    in_column_below, lemma_alive_count_next, lemma_column_floor_unique, lemma_first_hit_unique,
    lemma_lowest_y_unique, lemma_nth_alive_exists, lemma_nth_alive_unique, lemma_wall_hit_next,
};

verus! {

/// The squadron: all the aliens of a round, and the bomb they drop.
pub struct Aliens {
    squadron: Vec<Alien>,
    bomb: Option<Bullet>,
    rows: u8,
    per_row: u8,
}

impl View for Aliens {
    type V = SquadronModel;

    closed spec fn view(&self) -> SquadronModel {
        SquadronModel {
            aliens: Seq::new(self.squadron@.len(), |i: int| self.squadron@[i]@),
            bomb: self.bomb,
            rows: self.rows,
            per_row: self.per_row,
        }
    }
}

/// The distance the squadron moves per tick when `dead` of its aliens are
/// no longer alive.
pub fn step_speed(dead: usize) -> (step: i32)
    ensures
        step == clamp_coord(squadron_step(dead as nat)),
{
    if dead > 1_000_000_000 {
        // So many losses put the step far beyond the coordinate range.
        i32::MAX
    } else {
        assert(0 <= STEP_GAIN * dead <= 8_000_000_000) by (nonlinear_arith)
            requires
                dead <= 1_000_000_000,
                STEP_GAIN == 8,
        ;
        saturate(BASE_STEP as i64 + STEP_GAIN as i64 * (dead as i64))
    }
}

/// The x coordinate at which column `column` of a formation starts.
fn column_x(per_row: u8, column: u8) -> (x: i32)
    ensures
        x == spawn_x(per_row, column as int),
{
    (2 * (column as i32) - (per_row as i32 - 1)) * ALIEN_HALF_WIDTH
}

/// The altitude at which row `row` of a formation starts.
fn row_y(row: u8) -> (y: i32)
    ensures
        y == spawn_y(row as int),
{
    (ALIEN_TOP_Y - 1 - row as i32) * ALIEN_HEIGHT
}

impl Aliens {
    /// The formation is as large as it was spawned, and a bomb in flight
    /// falls at the speed of a bomb.
    #[verifier::type_invariant]
    pub closed spec fn well_formed(self) -> bool {
        &&& self.squadron@.len() == self.rows as int * self.per_row as int
        &&& match self.bomb {
            Some(bomb) => bomb.speed == BOMB_DESCENT,
            None => true,
        }
    }

    /// The explosion trajectories of each alien's fragments.
    pub closed spec fn fragments(&self) -> Seq<Seq<Trajectory>> {
        Seq::new(self.squadron@.len(), |i: int| self.squadron@[i].fragments())
    }

    /// There are as many sets of fragments as aliens.
    pub proof fn lemma_fragments_len(&self)
        ensures
            self.fragments().len() == self@.aliens.len(),
    {
    }

    /// A squadron of the size it was spawned with is valid: each of its
    /// aliens has its moment of death on record exactly when it is not
    /// alive.
    pub proof fn lemma_valid(&self)
        requires
            self.well_formed(),
        ensures
            self@.valid(),
    {
        assert forall|i: int| 0 <= i < self@.aliens.len() implies (#[trigger] self@.aliens[
            i
        ]).valid() by {
            self.squadron@[i].lemma_valid();
        }
    }

    /// The standard formation, spawned at `now`.
    pub fn new(now: u64) -> (squad: Aliens)
        ensures
            squad@ == SquadronModel::spawned(ALIEN_ROWS, ALIENS_PER_ROW, now),
            squad@.valid(),
            squad.fragments() == Seq::new(
                squad@.aliens.len(),
                |i: int| Seq::new(ALIEN_FRAGMENTS as nat, |n: int| Trajectory::still()),
            ),
    {
        Aliens::with_formation(ALIEN_ROWS, ALIENS_PER_ROW, now)
    }

    /// A formation of `rows` rows of `per_row` aliens, spawned at `now`:
    /// a grid centred on the playfield whose rows are counted downward from
    /// the ceiling, every alien alive and about to shuffle right.
    pub fn with_formation(rows: u8, per_row: u8, now: u64) -> (squad: Aliens)
        ensures
            squad@ == SquadronModel::spawned(rows, per_row, now),
            squad@.valid(),
            squad.fragments() == Seq::new(
                squad@.aliens.len(),
                |i: int| Seq::new(ALIEN_FRAGMENTS as nat, |n: int| Trajectory::still()),
            ),
    {
        let mut squadron: Vec<Alien> = Vec::new();
        let mut row: u8 = 0;
        while row < rows
            invariant
                row <= rows,
                squadron@.len() == row as int * per_row as int,
                forall|i: int|
                    0 <= i < squadron@.len() ==> (#[trigger] squadron@[i])@ == spawned_alien(
                        per_row,
                        i,
                        now,
                    ),
                forall|i: int|
                    0 <= i < squadron@.len() ==> (#[trigger] squadron@[i]).fragments() == Seq::new(
                        ALIEN_FRAGMENTS as nat,
                        |n: int| Trajectory::still(),
                    ),
            decreases rows - row,
        {
            let mut column: u8 = 0;
            while column < per_row
                invariant
                    row < rows,
                    column <= per_row,
                    squadron@.len() == row as int * per_row as int + column as int,
                    forall|i: int|
                        0 <= i < squadron@.len() ==> (#[trigger] squadron@[i])@ == spawned_alien(
                            per_row,
                            i,
                            now,
                        ),
                    forall|i: int|
                        0 <= i < squadron@.len() ==> (#[trigger] squadron@[i]).fragments()
                            == Seq::new(ALIEN_FRAGMENTS as nat, |n: int| Trajectory::still()),
                decreases per_row - column,
            {
                let mut baddie = Alien::new(now);
                baddie.spawn(column_x(per_row, column), row_y(row), 0);
                proof {
                    vstd::arithmetic::div_mod::lemma_fundamental_div_mod_converse(
                        squadron@.len() as int,
                        per_row as int,
                        row as int,
                        column as int,
                    );
                }
                squadron.push(baddie);
                column += 1;
            }
            proof {
                assert((row as int + 1) * per_row as int == row as int * per_row as int
                    + per_row as int) by (nonlinear_arith);
            }
            row += 1;
        }
        let squad = Aliens { squadron, bomb: None, rows, per_row };
        proof {
            squad.lemma_valid();
            assert(squad@.aliens =~= SquadronModel::spawned(rows, per_row, now).aliens);
        }
        squad
    }

    /// Removes the squadron from play: its bomb is destroyed with it.
    pub fn delete(&mut self)
        ensures
            final(self)@ == old(self)@.disarmed(),
            final(self)@.valid(),
            final(self).fragments() == old(self).fragments(),
    {
        self.destroy_bomb();
    }

    /// Removes the bomb from play, if there is one.
    pub fn destroy_bomb(&mut self)
        ensures
            final(self)@ == old(self)@.disarmed(),
            final(self)@.valid(),
            final(self).fragments() == old(self).fragments(),
    {
        proof {
            use_type_invariant(&*self);
        }
        self.bomb = None;
        proof {
            self.lemma_valid();
        }
    }

    /// How many aliens are alive.
    fn count_alive(&self) -> (alive: usize)
        ensures
            alive == alive_count(self@.aliens),
            alive <= self@.aliens.len(),
    {
        let n: usize = self.squadron.len();
        let mut alive: usize = 0;
        let mut i: usize = 0;
        while i < n
            invariant
                i <= n,
                n == self.squadron@.len(),
                alive == alive_count(self@.aliens.take(i as int)),
                alive <= i,
            decreases n - i,
        {
            proof {
                lemma_alive_count_next(self@.aliens, i as int);
            }
            match self.squadron[i].state() {
                State::Alive => {
                    alive += 1;
                },
                _ => {},
            }
            i += 1;
        }
        proof {
            assert(self@.aliens.take(n as int) =~= self@.aliens);
        }
        alive
    }

    /// The place of the alive alien with `k` alive aliens before it.
    fn find_alive(&self, k: usize) -> (place: usize)
        requires
            k < alive_count(self@.aliens),
        ensures
            place == nth_alive(self@.aliens, k as nat),
            is_nth_alive(self@.aliens, k as nat, place as int),
    {
        let n: usize = self.squadron.len();
        let mut seen: usize = 0;
        let mut i: usize = 0;
        proof {
            lemma_nth_alive_exists(self@.aliens, k as nat);
        }
        while i < n
            invariant
                i <= n,
                n == self.squadron@.len(),
                seen == alive_count(self@.aliens.take(i as int)),
                seen <= k,
                k < alive_count(self@.aliens),
                is_nth_alive(self@.aliens, k as nat, nth_alive(self@.aliens, k as nat)),
            decreases n - i,
        {
            proof {
                lemma_alive_count_next(self@.aliens, i as int);
            }
            match self.squadron[i].state() {
                State::Alive => {
                    if seen == k {
                        proof {
                            lemma_nth_alive_unique(
                                self@.aliens,
                                k as nat,
                                i as int,
                                nth_alive(self@.aliens, k as nat),
                            );
                        }
                        return i;
                    }
                    seen += 1;
                },
                _ => {},
            }
            i += 1;
        }
        proof {
            // Not reached: fewer than `k` alive aliens in all would contradict the precondition.
            assert(self@.aliens.take(n as int) =~= self@.aliens);
        }
        0
    }

    /// The altitude of the lowest alien in the column of the alien at
    /// `place`, at its height or below.
    fn floor_of_column(&self, place: usize) -> (floor: i32)
        requires
            place < self@.aliens.len(),
        ensures
            floor == column_floor(self@.aliens, place as int),
            is_column_floor(self@.aliens, place as int, floor as int),
    {
        let n: usize = self.squadron.len();
        let (x, y, _) = self.squadron[place].get_coords();
        let mut floor: i32 = y;
        let ghost mut lowest: int = place as int;
        let mut i: usize = 0;
        while i < n
            invariant
                i <= n,
                n == self.squadron@.len(),
                place < n,
                x == self@.aliens[place as int].x,
                y == self@.aliens[place as int].y,
                in_column_below(self@.aliens, place as int, lowest),
                self@.aliens[lowest].y == floor,
                forall|j: int|
                    0 <= j < i && #[trigger] in_column_below(self@.aliens, place as int, j)
                        ==> floor <= self@.aliens[j].y,
            decreases n - i,
        {
            let (other_x, other_y, _) = self.squadron[i].get_coords();
            if other_x == x && other_y <= y && other_y < floor {
                floor = other_y;
                proof {
                    lowest = i as int;
                }
            }
            i += 1;
        }
        proof {
            lemma_column_floor_unique(self@.aliens, place as int, floor as int);
        }
        floor
    }

    /// Drops a bomb if none is in flight and an alien is alive to drop it.
    /// A random alive alien picks the column; the bomb starts under the
    /// lowest alien at or below that one.
    pub fn fire(&mut self)
        ensures
            exists|pick: u64| final(self)@ == old(self)@.fired(pick),
            final(self)@.valid(),
            final(self).fragments() == old(self).fragments(),
    {
        if self.bomb.is_none() && self.count_alive() > 0 {
            let mut rng = rand::thread_rng();
            let pick: u64 = draw_u64(&mut rng);
            self.fire_with(pick);
        } else {
            proof {
                use_type_invariant(&*self);
                self.lemma_valid();
                assert(self@ == old(self)@.fired(0));
            }
        }
    }

    /// Drops a bomb as [`Aliens::fire`] does, with `pick` in the place of
    /// the random number.
    pub fn fire_with(&mut self, pick: u64)
        ensures
            final(self)@ == old(self)@.fired(pick),
            final(self)@.valid(),
            final(self).fragments() == old(self).fragments(),
    {
        proof {
            use_type_invariant(&*self);
            self.lemma_valid();
        }
        if self.bomb.is_none() {
            let alive: usize = self.count_alive();
            if alive == 0 {
                return ;
            }
            let index: usize = (pick % (alive as u64)) as usize;
            let chosen: usize = self.find_alive(index);
            let floor: i32 = self.floor_of_column(chosen);
            let (x, _, _) = self.squadron[chosen].get_coords();
            let y: i32 = saturate(floor as i64 - ALIEN_HALF_HEIGHT as i64);
            self.bomb = Some(Bullet::new(x, y, BOMB_DESCENT));
            proof {
                self.lemma_valid();
            }
        }
    }

    /// Sends every alien, whatever its state, on a new descent.
    fn turn_all(&mut self, movement: Movement)
        ensures
            final(self)@ == (SquadronModel {
                aliens: Seq::new(
                    old(self)@.aliens.len(),
                    |i: int| old(self)@.aliens[i].turned(movement),
                ),
                ..old(self)@
            }),
            final(self).fragments() == old(self).fragments(),
    {
        proof {
            use_type_invariant(&*self);
        }
        let n: usize = self.squadron.len();
        let mut i: usize = 0;
        while i < n
            invariant
                i <= n,
                n == self.squadron@.len(),
                n == old(self).squadron@.len(),
                self.well_formed(),
                self.rows == old(self).rows,
                self.per_row == old(self).per_row,
                self.bomb == old(self).bomb,
                forall|j: int|
                    0 <= j < i ==> (#[trigger] self.squadron@[j])@ == old(
                        self,
                    ).squadron@[j]@.turned(movement),
                forall|j: int| i <= j < n ==> self.squadron@[j] == old(self).squadron@[j],
                forall|j: int|
                    0 <= j < n ==> (#[trigger] self.squadron@[j]).fragments() == old(
                        self,
                    ).squadron@[j].fragments(),
            decreases n - i,
        {
            self.squadron[i].turn(movement);
            i += 1;
        }
        proof {
            assert(self@.aliens =~= Seq::new(
                old(self)@.aliens.len(),
                |i: int| old(self)@.aliens[i].turned(movement),
            ));
        }
    }

    /// Advances the squadron by one tick at `now`. The bomb falls. Every
    /// alien that is not dead is animated, at a speed that grows with the
    /// number of aliens destroyed, and ends its descent once it has come
    /// down a row. If any alien, shuffling sideways, has come beyond a
    /// wall, the whole squadron starts a new descent away from that wall.
    pub fn animate(&mut self, now: u64)
        ensures
            final(self)@ == old(self)@.animated(now),
            final(self)@.valid(),
            final(self).fragments() == old(self).fragments(),
    {
        proof {
            use_type_invariant(&*self);
        }
        match self.bomb {
            Some(bomb) => {
                let mut bomb: Bullet = bomb;
                bomb.animate();
                self.bomb = Some(bomb);
            },
            None => {},
        }
        let alive: usize = self.count_alive();
        let n: usize = self.squadron.len();
        let step: i32 = step_speed(n - alive);
        let wall_left: i32 = (self.per_row as i32 / 2 + 1 + ALIEN_SIDE_SPACE) * ALIEN_WIDTH;
        let wall_right: i32 = 0 - (self.per_row as i32 / 2 + ALIEN_SIDE_SPACE) * ALIEN_WIDTH;
        let mut hit_wall_left: bool = false;
        let mut hit_wall_right: bool = false;
        let mut i: usize = 0;
        while i < n
            invariant
                i <= n,
                n == self.squadron@.len(),
                n == old(self).squadron@.len(),
                self.well_formed(),
                self.rows == old(self).rows,
                self.per_row == old(self).per_row,
                self.bomb == advanced_slot(old(self).bomb),
                step == old(self)@.step(),
                wall_left == left_wall(self.per_row),
                wall_right == right_wall(self.per_row),
                hit_wall_left == old(self)@.left_wall_hit_by(i as int, now),
                hit_wall_right == old(self)@.right_wall_hit_by(i as int, now),
                forall|j: int|
                    0 <= j < i ==> (#[trigger] self.squadron@[j])@ == old(
                        self,
                    ).squadron@[j]@.marched(step, now),
                forall|j: int| i <= j < n ==> self.squadron@[j] == old(self).squadron@[j],
                forall|j: int|
                    0 <= j < n ==> (#[trigger] self.squadron@[j]).fragments() == old(
                        self,
                    ).squadron@[j].fragments(),
            decreases n - i,
        {
            proof {
                lemma_wall_hit_next(old(self)@, i as int, now);
            }
            match self.squadron[i].state() {
                State::Dead => {},
                _ => {
                    self.squadron[i].animate(step, now);
                    match self.squadron[i].movement() {
                        Movement::Left | Movement::Right => {
                            let (x, _, _) = self.squadron[i].get_coords();
                            if x > wall_left {
                                hit_wall_left = true;
                            }
                            if x < wall_right {
                                hit_wall_right = true;
                            }
                        },
                        _ => {
                            self.squadron[i].settle();
                        },
                    }
                },
            }
            i += 1;
        }
        if hit_wall_right {
            self.turn_all(Movement::DownThenLeft);
        }
        if hit_wall_left {
            self.turn_all(Movement::DownThenRight);
        }
        proof {
            use_type_invariant(&*self);
            self.lemma_valid();
            assert(self@.aliens =~= old(self)@.animated(now).aliens);
        }
    }

    /// Tests whether an alive alien overlaps the point `(x, y)`. The first
    /// one that does, in the order of the squadron, is killed at `now` and
    /// the test ends with a hit; where none does, nothing changes.
    pub fn collision(&mut self, x: i32, y: i32, now: u64) -> (outcome: CollisionOutcome)
        ensures
            outcome == old(self)@.strike_outcome(x, y),
            final(self)@ == old(self)@.struck(x, y, now),
            final(self)@.valid(),
            fragments_follow(
                old(self)@.aliens,
                old(self).fragments(),
                final(self)@.aliens,
                final(self).fragments(),
            ),
    {
        proof {
            use_type_invariant(&*self);
        }
        let n: usize = self.squadron.len();
        let mut i: usize = 0;
        while i < n
            invariant
                i <= n,
                n == self.squadron@.len(),
                *self == *old(self),
                self.well_formed(),
                forall|j: int| 0 <= j < i ==> !hit_at(self@.aliens, x, y, j),
            decreases n - i,
        {
            let state: State = self.squadron[i].state();
            if state == State::Alive {
                let (alien_x, alien_y, _) = self.squadron[i].get_coords();
                let scenario = Collision {
                    a: CollisionObject { x, y },
                    b: CollisionObject { x: alien_x, y: alien_y },
                };
                match check(scenario) {
                    CollisionOutcome::Hit => {
                        proof {
                            lemma_first_hit_unique(self@, x, y, i as int);
                        }
                        self.squadron[i].die(now);
                        proof {
                            self.lemma_valid();
                            assert(self@.aliens =~= old(self)@.struck(x, y, now).aliens);
                        }
                        return CollisionOutcome::Hit;
                    },
                    _ => {},
                }
            }
            i += 1;
        }
        proof {
            self.lemma_valid();
        }
        CollisionOutcome::Miss
    }

    /// Whether every alien has finished exploding. An alien that is still
    /// exploding counts as not yet dead.
    pub fn all_dead(&self) -> (dead: bool)
        ensures
            dead == self@.all_dead(),
    {
        let n: usize = self.squadron.len();
        let mut i: usize = 0;
        while i < n
            invariant
                i <= n,
                n == self.squadron@.len(),
                forall|j: int| 0 <= j < i ==> (#[trigger] self@.aliens[j]).state == State::Dead,
            decreases n - i,
        {
            match self.squadron[i].state() {
                State::Dead => {},
                _ => {
                    assert(self@.aliens[i as int].state != State::Dead);
                    return false;
                },
            }
            i += 1;
        }
        true
    }

    /// The lowest altitude of the squadron: the least y of its aliens,
    /// alive, dying and dead alike. A squadron without aliens counts as
    /// standing at the ceiling.
    pub fn lowest_y(&self) -> (lowest: i32)
        ensures
            lowest == self@.lowest_y(),
            self@.is_lowest_y(lowest as int),
            self@.aliens.len() == 0 ==> lowest == ALIEN_Y_CEILING,
            self@.aliens.len() > 0 ==> {
                &&& forall|i: int|
                    0 <= i < self@.aliens.len() ==> lowest <= (#[trigger] self@.aliens[i]).y
                &&& exists|i: int|
                    0 <= i < self@.aliens.len() && (#[trigger] self@.aliens[i]).y == lowest
            },
    {
        let n: usize = self.squadron.len();
        if n == 0 {
            proof {
                lemma_lowest_y_unique(self@, ALIEN_Y_CEILING as int);
            }
            return ALIEN_Y_CEILING;
        }
        let (_, first, _) = self.squadron[0].get_coords();
        let mut lowest: i32 = first;
        let ghost mut at: int = 0;
        let mut i: usize = 1;
        while i < n
            invariant
                1 <= i <= n,
                n == self.squadron@.len(),
                0 <= at < i,
                self@.aliens[at].y == lowest,
                forall|j: int| 0 <= j < i ==> lowest <= (#[trigger] self@.aliens[j]).y,
            decreases n - i,
        {
            let (_, y, _) = self.squadron[i].get_coords();
            if y < lowest {
                lowest = y;
                proof {
                    at = i as int;
                }
            }
            i += 1;
        }
        proof {
            assert(0 <= at < self@.aliens.len() && self@.aliens[at].y == lowest);
            lemma_lowest_y_unique(self@, lowest as int);
        }
        lowest
    }

    /// The bomb in flight, if there is one.
    pub fn bomb(&self) -> (bomb: Option<Bullet>)
        ensures
            bomb == self@.bomb,
            self@.valid(),
    {
        proof {
            use_type_invariant(self);
            self.lemma_valid();
        }
        self.bomb
    }

    /// How many aliens the squadron was spawned with.
    pub fn len(&self) -> (len: usize)
        ensures
            len == self@.aliens.len(),
            self@.valid(),
    {
        proof {
            use_type_invariant(self);
            self.lemma_valid();
        }
        self.squadron.len()
    }

    /// Rows of the formation.
    pub fn rows(&self) -> (rows: u8)
        ensures
            rows == self@.rows,
    {
        self.rows
    }

    /// Aliens per row of the formation.
    pub fn per_row(&self) -> (per_row: u8)
        ensures
            per_row == self@.per_row,
    {
        self.per_row
    }

    /// The alien at place `i`, counted row by row from the top.
    pub fn alien(&self, i: usize) -> (found: Option<&Alien>)
        ensures
            found.is_some() <==> i < self@.aliens.len(),
            match found {
                Some(alien) => alien@ == self@.aliens[i as int] && alien.fragments()
                    == self.fragments()[i as int],
                None => true,
            },
    {
        if i < self.squadron.len() {
            Some(&self.squadron[i])
        } else {
            None
        }
    }
}

} // verus!
