//! The formation as plain values: how a squadron spawns, marches, turns at
//! the walls, drops its bomb and takes a hit, and what holds of all that.

use vstd::prelude::*;
use crate::alien::{fragments_fit, AlienModel, Movement, ALIEN_HEIGHT, ALIEN_WIDTH};
use crate::bullet::{advanced_slot, Bullet};
use crate::collision::{overlaps, CollisionOutcome};
use crate::explosion::Trajectory;
use crate::lifecycle::State;
use crate::units::clamp_coord;

verus! {

/// Half the height of an alien: how far under its centre a bomb starts.
pub const ALIEN_HALF_HEIGHT: i32 = 5000;

/// Half the width of an alien: columns are two of these apart.
pub const ALIEN_HALF_WIDTH: i32 = 6500;

/// Aliens in each row of the standard formation.
pub const ALIENS_PER_ROW: u8 = 11;

/// Rows of the standard formation.
pub const ALIEN_ROWS: u8 = 5;

/// Rows, counted in aliens from the centre of the playfield, up to the
/// ceiling under which the formation starts.
pub const ALIEN_TOP_Y: i32 = 7;

/// Free columns, counted in aliens, on either side of the formation.
pub const ALIEN_SIDE_SPACE: i32 = 3;

/// Points scored for each alien shot down.
pub const ALIEN_POINTS: i32 = 100;

/// The altitude above which nothing of the formation ever is.
pub const ALIEN_Y_CEILING: i32 = 70000;

/// Vertical speed of a bomb.
pub const BOMB_DESCENT: i32 = -1000;

/// Distance the formation moves per tick while none of it is destroyed.
pub const BASE_STEP: i32 = 100;

/// Distance per tick that the formation gains with each alien destroyed.
pub const STEP_GAIN: i32 = 8;

impl AlienModel {
    /// Whether the alien is shuffling sideways.
    pub open spec fn shuffling(self) -> bool {
        self.movement == Movement::Left || self.movement == Movement::Right
    }

    /// Whether the alien, shuffling sideways, is beyond the wall on the left
    /// of a formation that is `per_row` aliens wide.
    pub open spec fn past_left_wall(self, per_row: u8) -> bool {
        self.shuffling() && self.x > left_wall(per_row)
    }

    /// Whether the alien, shuffling sideways, is beyond the wall on the
    /// right of a formation that is `per_row` aliens wide.
    pub open spec fn past_right_wall(self, per_row: u8) -> bool {
        self.shuffling() && self.x < right_wall(per_row)
    }

    /// The alien after its part of the squadron's tick: unless it is dead it
    /// is animated, and its descent is given the chance to end.
    pub open spec fn marched(self, step: i32, now: u64) -> AlienModel {
        if self.state != State::Dead {
            self.animated(step, now).settled()
        } else {
            self
        }
    }
}

/// The x coordinate beyond which a formation `per_row` aliens wide has hit
/// the wall on its left: half the formation, one alien and the side space
/// away from the centre.
pub open spec fn left_wall(per_row: u8) -> int {
    (per_row as int / 2 + 1 + ALIEN_SIDE_SPACE) * ALIEN_WIDTH
}

/// The x coordinate beyond which a formation `per_row` aliens wide has hit
/// the wall on its right: half the formation and the side space away from
/// the centre.
pub open spec fn right_wall(per_row: u8) -> int {
    -(per_row as int / 2 + ALIEN_SIDE_SPACE) * ALIEN_WIDTH
}

/// The distance the squadron moves per tick when `dead` of its aliens are
/// no longer alive: the fewer survive, the faster they move.
pub open spec fn squadron_step(dead: nat) -> int {
    BASE_STEP + STEP_GAIN * dead
}

/// How many of the aliens are alive.
pub open spec fn alive_count(aliens: Seq<AlienModel>) -> nat
    decreases aliens.len(),
{
    if aliens.len() == 0 {
        0
    } else {
        alive_count(aliens.drop_last()) + if aliens.last().state == State::Alive {
            1nat
        } else {
            0nat
        }
    }
}

/// Whether the alien at `i` is alive and has exactly `k` alive aliens
/// before it.
pub open spec fn is_nth_alive(aliens: Seq<AlienModel>, k: nat, i: int) -> bool {
    &&& 0 <= i < aliens.len()
    &&& aliens[i].state == State::Alive
    &&& alive_count(aliens.take(i)) == k
}

/// The place of the alive alien that has `k` alive aliens before it.
pub open spec fn nth_alive(aliens: Seq<AlienModel>, k: nat) -> int {
    choose|i: int| is_nth_alive(aliens, k, i)
}

/// Whether the alien at `j`, in whatever state, is in the column of the
/// alien at `i` and at its height or below.
pub open spec fn in_column_below(aliens: Seq<AlienModel>, i: int, j: int) -> bool {
    &&& 0 <= j < aliens.len()
    &&& aliens[j].x == aliens[i].x
    &&& aliens[j].y <= aliens[i].y
}

/// Whether `y` is the altitude of the lowest alien among those in the column
/// of the alien at `i` and at its height or below.
pub open spec fn is_column_floor(aliens: Seq<AlienModel>, i: int, y: int) -> bool {
    &&& exists|j: int| #[trigger] in_column_below(aliens, i, j) && aliens[j].y == y
    &&& forall|j: int| #[trigger] in_column_below(aliens, i, j) ==> y <= aliens[j].y
}

/// The altitude of the lowest alien in the column of the alien at `i`, at
/// its height or below.
pub open spec fn column_floor(aliens: Seq<AlienModel>, i: int) -> int {
    choose|y: int| is_column_floor(aliens, i, y)
}

/// The bomb dropped from the column `x` by an alien at altitude `y`: it
/// starts half an alien below and falls.
pub open spec fn bomb_below(x: i32, y: int) -> Bullet {
    Bullet { x, y: clamp_coord(y - ALIEN_HALF_HEIGHT) as i32, z: 0, speed: BOMB_DESCENT }
}

/// Whether the alien at `i` is alive and overlaps the point `(x, y)`.
pub open spec fn hit_at(aliens: Seq<AlienModel>, x: i32, y: i32, i: int) -> bool {
    &&& 0 <= i < aliens.len()
    &&& aliens[i].state == State::Alive
    &&& overlaps(x as int, y as int, aliens[i].x as int, aliens[i].y as int)
}

/// Whether the alien at `i` is the first, in the order of the squadron,
/// that is alive and overlaps the point `(x, y)`.
pub open spec fn is_first_hit(aliens: Seq<AlienModel>, x: i32, y: i32, i: int) -> bool {
    &&& hit_at(aliens, x, y, i)
    &&& forall|j: int| 0 <= j < i ==> !hit_at(aliens, x, y, j)
}

/// The x coordinate at which the alien in column `column` of a formation
/// `per_row` aliens wide starts: the columns are one alien apart and
/// centred on the playfield.
pub open spec fn spawn_x(per_row: u8, column: int) -> int {
    (2 * column - (per_row as int - 1)) * ALIEN_HALF_WIDTH
}

/// The altitude at which row `row` starts, rows counted downward from the
/// one just under the ceiling.
pub open spec fn spawn_y(row: int) -> int {
    (ALIEN_TOP_Y - 1 - row) * ALIEN_HEIGHT
}

/// The alien at place `i` of a newly spawned formation `per_row` wide.
pub open spec fn spawned_alien(per_row: u8, i: int, now: u64) -> AlienModel {
    AlienModel::fresh(now).placed(
        spawn_x(per_row, i % (per_row as int)) as i32,
        spawn_y(i / (per_row as int)) as i32,
        0,
    )
}

/// Whether `y` is the lowest altitude among the first `n` aliens: one of
/// them stands at it, and none of them below it.
pub open spec fn is_lowest_among(aliens: Seq<AlienModel>, n: int, y: int) -> bool {
    &&& forall|i: int| 0 <= i < n ==> y <= (#[trigger] aliens[i]).y
    &&& exists|i: int| 0 <= i < n && (#[trigger] aliens[i]).y == y
}

/// What a squadron is to the game, as plain values.
pub ghost struct SquadronModel {
    /// The aliens, row by row from the top, each row by rising x.
    pub aliens: Seq<AlienModel>,
    /// The one bomb that the squadron may have in flight.
    pub bomb: Option<Bullet>,
    pub rows: u8,
    pub per_row: u8,
}

impl SquadronModel {
    /// The formation is as large as it was spawned, every alien has its
    /// moment of death on record exactly when it is no longer alive, and a
    /// bomb in flight falls at the speed of a bomb.
    pub open spec fn valid(self) -> bool {
        &&& self.aliens.len() == self.rows as int * self.per_row as int
        &&& forall|i: int| 0 <= i < self.aliens.len() ==> (#[trigger] self.aliens[i]).valid()
        &&& match self.bomb {
            Some(bomb) => bomb.speed == BOMB_DESCENT,
            None => true,
        }
    }

    /// A newly spawned formation of `rows` rows of `per_row` aliens.
    pub open spec fn spawned(rows: u8, per_row: u8, now: u64) -> SquadronModel {
        SquadronModel {
            aliens: Seq::new(
                (rows as int * per_row as int) as nat,
                |i: int| spawned_alien(per_row, i, now),
            ),
            bomb: None,
            rows,
            per_row,
        }
    }

    /// How many aliens are no longer alive.
    pub open spec fn dead_count(self) -> nat {
        (self.aliens.len() - alive_count(self.aliens)) as nat
    }

    /// The distance the squadron moves this tick.
    pub open spec fn step(self) -> i32 {
        clamp_coord(squadron_step(self.dead_count())) as i32
    }

    /// Whether the alien at `i` takes part in this tick and ends it beyond
    /// the left wall.
    pub open spec fn reaches_left(self, i: int, now: u64) -> bool {
        self.aliens[i].state != State::Dead && self.aliens[i].animated(
            self.step(),
            now,
        ).past_left_wall(self.per_row)
    }

    /// Whether the alien at `i` takes part in this tick and ends it beyond
    /// the right wall.
    pub open spec fn reaches_right(self, i: int, now: u64) -> bool {
        self.aliens[i].state != State::Dead && self.aliens[i].animated(
            self.step(),
            now,
        ).past_right_wall(self.per_row)
    }

    /// Whether one of the first `n` aliens reaches the left wall this tick.
    pub open spec fn left_wall_hit_by(self, n: int, now: u64) -> bool {
        exists|i: int| 0 <= i < n && #[trigger] self.reaches_left(i, now)
    }

    /// Whether one of the first `n` aliens reaches the right wall this tick.
    pub open spec fn right_wall_hit_by(self, n: int, now: u64) -> bool {
        exists|i: int| 0 <= i < n && #[trigger] self.reaches_right(i, now)
    }

    /// Whether the squadron hits the left wall this tick.
    pub open spec fn hits_left_wall(self, now: u64) -> bool {
        self.left_wall_hit_by(self.aliens.len() as int, now)
    }

    /// Whether the squadron hits the right wall this tick.
    pub open spec fn hits_right_wall(self, now: u64) -> bool {
        self.right_wall_hit_by(self.aliens.len() as int, now)
    }

    /// The alien at `i` after the squadron's tick. It marches; and if any
    /// alien hit a wall, every alien, whatever its state, starts a new
    /// descent away from that wall. The left wall decides where both were
    /// hit.
    pub open spec fn alien_after_tick(self, i: int, now: u64) -> AlienModel {
        let marched = self.aliens[i].marched(self.step(), now);
        if self.hits_left_wall(now) {
            marched.turned(Movement::DownThenRight)
        } else if self.hits_right_wall(now) {
            marched.turned(Movement::DownThenLeft)
        } else {
            marched
        }
    }

    /// The squadron one tick later: the bomb has fallen and the formation
    /// has moved.
    pub open spec fn animated(self, now: u64) -> SquadronModel {
        SquadronModel {
            aliens: Seq::new(self.aliens.len(), |i: int| self.alien_after_tick(i, now)),
            bomb: advanced_slot(self.bomb),
            ..self
        }
    }

    /// Whether the squadron may drop a bomb: none is in flight and an alien
    /// is alive to drop one.
    pub open spec fn can_fire(self) -> bool {
        self.bomb.is_none() && alive_count(self.aliens) > 0
    }

    /// The alive alien that the random number `pick` selects.
    pub open spec fn picked(self, pick: u64) -> int {
        nth_alive(self.aliens, (pick as int % alive_count(self.aliens) as int) as nat)
    }

    /// The squadron after it was asked to fire, with `pick` the random
    /// number drawn. Where it may fire, the bomb comes from the column of
    /// the alien picked, under the lowest alien at or below that one.
    pub open spec fn fired(self, pick: u64) -> SquadronModel {
        if self.can_fire() {
            let chosen = self.picked(pick);
            SquadronModel {
                bomb: Some(
                    bomb_below(self.aliens[chosen].x, column_floor(self.aliens, chosen)),
                ),
                ..self
            }
        } else {
            self
        }
    }

    /// The squadron without its bomb.
    pub open spec fn disarmed(self) -> SquadronModel {
        SquadronModel { bomb: None, ..self }
    }

    /// The place of the first alive alien that overlaps `(x, y)`, if any.
    pub open spec fn first_hit(self, x: i32, y: i32) -> Option<int> {
        if exists|i: int| hit_at(self.aliens, x, y, i) {
            Some(choose|i: int| is_first_hit(self.aliens, x, y, i))
        } else {
            None
        }
    }

    /// The squadron after something at `(x, y)` struck it at `now`: the
    /// first alive alien that overlaps the point begins to die.
    pub open spec fn struck(self, x: i32, y: i32, now: u64) -> SquadronModel {
        match self.first_hit(x, y) {
            Some(i) => SquadronModel {
                aliens: self.aliens.update(i, self.aliens[i].died(now)),
                ..self
            },
            None => self,
        }
    }

    /// What a strike at `(x, y)` finds.
    pub open spec fn strike_outcome(self, x: i32, y: i32) -> CollisionOutcome {
        if self.first_hit(x, y).is_some() {
            CollisionOutcome::Hit
        } else {
            CollisionOutcome::Miss
        }
    }

    /// Whether every alien has finished exploding.
    pub open spec fn all_dead(self) -> bool {
        forall|i: int| 0 <= i < self.aliens.len() ==> (#[trigger] self.aliens[i]).state
            == State::Dead
    }

    /// Whether `y` is the lowest altitude of the squadron: the altitude of
    /// one of its aliens, whatever its state, with no alien below it. A
    /// squadron without aliens counts as standing at the ceiling.
    pub open spec fn is_lowest_y(self, y: int) -> bool {
        if self.aliens.len() == 0 {
            y == ALIEN_Y_CEILING
        } else {
            is_lowest_among(self.aliens, self.aliens.len() as int, y)
        }
    }

    /// The lowest altitude of the squadron: the least y of its aliens,
    /// whatever their state, and the ceiling where it has none.
    pub open spec fn lowest_y(self) -> int {
        choose|y: int| self.is_lowest_y(y)
    }
}

/// How the fragments of one alien follow it from `before` to `after`. The
/// alien does not return to life. If it has just stopped being alive, it
/// has new trajectories, one for each fragment and all scattering;
/// otherwise its fragments stay as they were.
pub open spec fn fragments_follow_alien(
    before: AlienModel,
    before_fragments: Seq<Trajectory>,
    after: AlienModel,
    after_fragments: Seq<Trajectory>,
) -> bool {
    &&& before.state != State::Alive ==> after.state != State::Alive
    &&& if before.state == State::Alive && after.state != State::Alive {
        fragments_fit(after.state, after_fragments)
    } else {
        after_fragments == before_fragments
    }
}

/// How the fragments of a squadron follow its aliens from `before` to
/// `after`: those of each alien follow that alien.
pub open spec fn fragments_follow(
    before: Seq<AlienModel>,
    before_fragments: Seq<Seq<Trajectory>>,
    after: Seq<AlienModel>,
    after_fragments: Seq<Seq<Trajectory>>,
) -> bool {
    &&& before_fragments.len() == before.len()
    &&& after.len() == before.len()
    &&& after_fragments.len() == before.len()
    &&& forall|i: int|
        0 <= i < before.len() ==> #[trigger] fragments_follow_alien(
            before[i],
            before_fragments[i],
            after[i],
            after_fragments[i],
        )
}

/// Fragments that follow the aliens through one change and then through
/// another follow them through both.
pub proof fn lemma_fragments_follow_chain(
    first: Seq<AlienModel>,
    first_fragments: Seq<Seq<Trajectory>>,
    second: Seq<AlienModel>,
    second_fragments: Seq<Seq<Trajectory>>,
    third: Seq<AlienModel>,
    third_fragments: Seq<Seq<Trajectory>>,
)
    requires
        fragments_follow(first, first_fragments, second, second_fragments),
        fragments_follow(second, second_fragments, third, third_fragments),
    ensures
        fragments_follow(first, first_fragments, third, third_fragments),
{
    assert forall|i: int| 0 <= i < first.len() implies #[trigger] fragments_follow_alien(
        first[i],
        first_fragments[i],
        third[i],
        third_fragments[i],
    ) by {
        assert(fragments_follow_alien(
            first[i],
            first_fragments[i],
            second[i],
            second_fragments[i],
        ));
        assert(fragments_follow_alien(
            second[i],
            second_fragments[i],
            third[i],
            third_fragments[i],
        ));
    }
}

/// Fragments that no call touched follow aliens among which none died and
/// none returned to life.
pub proof fn lemma_fragments_kept(
    before: Seq<AlienModel>,
    after: Seq<AlienModel>,
    fragments: Seq<Seq<Trajectory>>,
)
    requires
        before.len() == after.len(),
        before.len() == fragments.len(),
        forall|i: int|
            0 <= i < before.len() ==> ((#[trigger] before[i]).state == State::Alive
                <==> after[i].state == State::Alive),
    ensures
        fragments_follow(before, fragments, after, fragments),
{
    assert forall|i: int| 0 <= i < before.len() implies #[trigger] fragments_follow_alien(
        before[i],
        fragments[i],
        after[i],
        fragments[i],
    ) by {
        assert(before[i].state == State::Alive <==> after[i].state == State::Alive);
    }
}

/// Counting one alien further adds one exactly when that alien is alive.
pub proof fn lemma_alive_count_next(aliens: Seq<AlienModel>, i: int)
    requires
        0 <= i < aliens.len(),
    ensures
        alive_count(aliens.take(i + 1)) == alive_count(aliens.take(i)) + if aliens[i].state
            == State::Alive {
            1nat
        } else {
            0nat
        },
{
    assert(aliens.take(i + 1).drop_last() =~= aliens.take(i));
}

/// A longer stretch of the squadron holds at least as many alive aliens,
/// and never more than it is long.
pub proof fn lemma_alive_count_monotonic(aliens: Seq<AlienModel>, a: int, b: int)
    requires
        0 <= a <= b <= aliens.len(),
    ensures
        alive_count(aliens.take(a)) <= alive_count(aliens.take(b)) <= b,
    decreases b,
{
    if b == 0 {
        assert(aliens.take(0).len() == 0);
    } else if a == b {
        lemma_alive_count_monotonic(aliens, a - 1, b - 1);
        lemma_alive_count_next(aliens, b - 1);
    } else {
        lemma_alive_count_monotonic(aliens, a, b - 1);
        lemma_alive_count_next(aliens, b - 1);
    }
}

/// At most one alien is alive with exactly `k` alive aliens before it.
pub proof fn lemma_nth_alive_unique(aliens: Seq<AlienModel>, k: nat, i: int, j: int)
    requires
        is_nth_alive(aliens, k, i),
        is_nth_alive(aliens, k, j),
    ensures
        i == j,
{
    if i < j {
        lemma_alive_count_next(aliens, i);
        lemma_alive_count_monotonic(aliens, i + 1, j);
    } else if j < i {
        lemma_alive_count_next(aliens, j);
        lemma_alive_count_monotonic(aliens, j + 1, i);
    }
}

/// Whenever fewer than all alive aliens are asked to be skipped, an alive
/// alien with that many before it exists.
pub proof fn lemma_nth_alive_exists(aliens: Seq<AlienModel>, k: nat)
    requires
        k < alive_count(aliens),
    ensures
        is_nth_alive(aliens, k, nth_alive(aliens, k)),
    decreases aliens.len(),
{
    if aliens.len() > 0 {
        let front = aliens.drop_last();
        let last = aliens.len() - 1;
        assert(aliens.take(last) =~= front);
        if k < alive_count(front) {
            lemma_nth_alive_exists(front, k);
            let i = nth_alive(front, k);
            assert(front.take(i) =~= aliens.take(i));
            assert(is_nth_alive(aliens, k, i));
        } else {
            assert(is_nth_alive(aliens, k, last));
        }
    }
}

/// The lowest altitude in a column, at or below one of its aliens, is
/// unique, and that alien's own altitude bounds it.
pub proof fn lemma_column_floor_unique(aliens: Seq<AlienModel>, i: int, y: int)
    requires
        is_column_floor(aliens, i, y),
    ensures
        column_floor(aliens, i) == y,
{
    let other = column_floor(aliens, i);
    assert(is_column_floor(aliens, i, other));
    let j = choose|j: int| #[trigger] in_column_below(aliens, i, j) && aliens[j].y == y;
    let n = choose|n: int| #[trigger] in_column_below(aliens, i, n) && aliens[n].y == other;
    assert(in_column_below(aliens, i, j));
    assert(in_column_below(aliens, i, n));
}

/// The first alien to be hit is unique.
pub proof fn lemma_first_hit_unique(squadron: SquadronModel, x: i32, y: i32, i: int)
    requires
        is_first_hit(squadron.aliens, x, y, i),
    ensures
        squadron.first_hit(x, y) == Some(i),
{
    assert(hit_at(squadron.aliens, x, y, i));
    let other = choose|n: int| is_first_hit(squadron.aliens, x, y, n);
    assert(is_first_hit(squadron.aliens, x, y, other));
    if other < i {
        assert(!hit_at(squadron.aliens, x, y, other));
    } else if i < other {
        assert(!hit_at(squadron.aliens, x, y, i));
    }
}

/// The lowest altitude of a squadron is unique.
pub proof fn lemma_lowest_y_unique(squadron: SquadronModel, y: int)
    requires
        squadron.is_lowest_y(y),
    ensures
        squadron.lowest_y() == y,
{
    let other = squadron.lowest_y();
    assert(squadron.is_lowest_y(other));
    if squadron.aliens.len() > 0 {
        let i = choose|i: int|
            0 <= i < squadron.aliens.len() && (#[trigger] squadron.aliens[i]).y == y;
        assert(other <= squadron.aliens[i].y);
        let j = choose|j: int|
            0 <= j < squadron.aliens.len() && (#[trigger] squadron.aliens[j]).y == other;
        assert(y <= squadron.aliens[j].y);
    }
}

/// The lowest altitude of a squadron that has aliens is the altitude of one
/// of them, and no alien, alive, dying or dead, is below it.
pub proof fn lemma_lowest_y_is_minimum(squadron: SquadronModel)
    requires
        squadron.aliens.len() > 0,
    ensures
        forall|i: int|
            0 <= i < squadron.aliens.len() ==> squadron.lowest_y() <= (
            #[trigger] squadron.aliens[i]).y,
        exists|i: int|
            0 <= i < squadron.aliens.len() && (#[trigger] squadron.aliens[i]).y
                == squadron.lowest_y(),
{
    lemma_lowest_y_exists(squadron.aliens, squadron.aliens.len() as int);
    let found = choose|y: int|
        is_lowest_among(squadron.aliens, squadron.aliens.len() as int, y);
    assert(squadron.is_lowest_y(found));
}

/// Among the first `n` aliens, one stands at an altitude that none of them
/// is below.
proof fn lemma_lowest_y_exists(aliens: Seq<AlienModel>, n: int)
    requires
        0 < n <= aliens.len(),
    ensures
        exists|y: int| is_lowest_among(aliens, n, y),
    decreases n,
{
    if n == 1 {
        assert(0 <= 0 < n && aliens[0].y == aliens[0].y);
        assert(is_lowest_among(aliens, n, aliens[0].y as int));
    } else {
        let front = n - 1;
        lemma_lowest_y_exists(aliens, front);
        let before = choose|y: int| is_lowest_among(aliens, front, y);
        let at = choose|i: int| 0 <= i < front && (#[trigger] aliens[i]).y == before;
        let last = aliens[n - 1].y as int;
        if last < before {
            assert(0 <= n - 1 < n && aliens[n - 1].y == last);
            assert(is_lowest_among(aliens, n, last));
        } else {
            assert(0 <= at < n && aliens[at].y == before);
            assert(is_lowest_among(aliens, n, before));
        }
    }
}


/// Looking one alien further, a wall is hit exactly if it was hit before
/// or that alien reaches it.
pub proof fn lemma_wall_hit_next(squadron: SquadronModel, n: int, now: u64)
    requires
        0 <= n,
    ensures
        squadron.left_wall_hit_by(n + 1, now) == (squadron.left_wall_hit_by(n, now)
            || squadron.reaches_left(n, now)),
        squadron.right_wall_hit_by(n + 1, now) == (squadron.right_wall_hit_by(n, now)
            || squadron.reaches_right(n, now)),
{
    if squadron.left_wall_hit_by(n + 1, now) {
        let i = choose|i: int| 0 <= i < n + 1 && #[trigger] squadron.reaches_left(i, now);
        if i < n {
            assert(squadron.left_wall_hit_by(n, now));
        }
    }
    if squadron.left_wall_hit_by(n, now) {
        let i = choose|i: int| 0 <= i < n && #[trigger] squadron.reaches_left(i, now);
        assert(0 <= i < n + 1 && squadron.reaches_left(i, now));
    }
    if squadron.reaches_left(n, now) {
        assert(0 <= n < n + 1 && squadron.reaches_left(n, now));
    }
    if squadron.right_wall_hit_by(n + 1, now) {
        let i = choose|i: int| 0 <= i < n + 1 && #[trigger] squadron.reaches_right(i, now);
        if i < n {
            assert(squadron.right_wall_hit_by(n, now));
        }
    }
    if squadron.right_wall_hit_by(n, now) {
        let i = choose|i: int| 0 <= i < n && #[trigger] squadron.reaches_right(i, now);
        assert(0 <= i < n + 1 && squadron.reaches_right(i, now));
    }
    if squadron.reaches_right(n, now) {
        assert(0 <= n < n + 1 && squadron.reaches_right(n, now));
    }
}

/// The squadron never slows down as more of its aliens are destroyed.
pub proof fn lemma_speed_monotonic(fewer: nat, more: nat)
    requires
        fewer <= more,
    ensures
        squadron_step(fewer) <= squadron_step(more),
        clamp_coord(squadron_step(fewer)) <= clamp_coord(squadron_step(more)),
{
    assert(STEP_GAIN * fewer <= STEP_GAIN * more) by (nonlinear_arith)
        requires
            fewer <= more,
            STEP_GAIN == 8,
    ;
}

/// Of two squadrons, the one with more aliens destroyed moves at least as
/// fast.
pub proof fn lemma_step_grows_with_losses(one: SquadronModel, other: SquadronModel)
    requires
        one.dead_count() <= other.dead_count(),
    ensures
        one.step() <= other.step(),
{
    lemma_speed_monotonic(one.dead_count(), other.dead_count());
}

/// In the tick in which an alien comes beyond a wall, every alien of the
/// squadron, whatever its state, has its descent counted from zero again
/// and descends, to travel away from that wall afterwards. In a tick
/// without a wall, every alien has only marched.
pub proof fn lemma_wall_bounce(squadron: SquadronModel, now: u64)
    ensures
        squadron.animated(now).aliens.len() == squadron.aliens.len(),
        squadron.hits_left_wall(now) ==> forall|i: int|
            0 <= i < squadron.aliens.len() ==> (#[trigger] squadron.animated(now).aliens[i])
                == squadron.aliens[i].marched(squadron.step(), now).turned(
                Movement::DownThenRight,
            ),
        squadron.hits_right_wall(now) && !squadron.hits_left_wall(now) ==> forall|i: int|
            0 <= i < squadron.aliens.len() ==> (#[trigger] squadron.animated(now).aliens[i])
                == squadron.aliens[i].marched(squadron.step(), now).turned(
                Movement::DownThenLeft,
            ),
        squadron.hits_left_wall(now) || squadron.hits_right_wall(now) ==> forall|i: int|
            0 <= i < squadron.aliens.len() ==> (#[trigger] squadron.animated(
                now,
            ).aliens[i]).drop_steps == 0 && squadron.animated(now).aliens[i].descending(),
        !squadron.hits_left_wall(now) && !squadron.hits_right_wall(now) ==> forall|i: int|
            0 <= i < squadron.aliens.len() ==> (#[trigger] squadron.animated(now).aliens[i])
                == squadron.aliens[i].marched(squadron.step(), now),
{
}

/// An alien that shuffles towards a wall and comes beyond it makes the
/// squadron hit that wall.
pub proof fn lemma_crossing_hits_wall(squadron: SquadronModel, i: int, now: u64)
    requires
        0 <= i < squadron.aliens.len(),
    ensures
        squadron.reaches_left(i, now) ==> squadron.hits_left_wall(now),
        squadron.reaches_right(i, now) ==> squadron.hits_right_wall(now),
{
}

/// A tick never changes the size of the formation, keeps every alien's
/// moment of death in line with its state, and neither kills an alien nor
/// brings one back to life.
pub proof fn lemma_animated_valid(squadron: SquadronModel, now: u64)
    requires
        squadron.valid(),
    ensures
        squadron.animated(now).valid(),
        squadron.animated(now).aliens.len() == squadron.aliens.len(),
        squadron.animated(now).rows == squadron.rows,
        squadron.animated(now).per_row == squadron.per_row,
        forall|i: int|
            0 <= i < squadron.aliens.len() ==> ((#[trigger] squadron.aliens[i]).state
                == State::Alive <==> squadron.animated(now).aliens[i].state == State::Alive),
{
    assert forall|i: int| 0 <= i < squadron.aliens.len() implies (#[trigger] squadron.animated(
        now,
    ).aliens[i]).valid() by {
        assert(squadron.aliens[i].valid());
    }
}

/// Asked to fire twice in a row, the squadron has the bomb of the first
/// call in flight and no other: the second call changes nothing.
pub proof fn lemma_fire_once(squadron: SquadronModel, first: u64, second: u64)
    ensures
        squadron.fired(first).fired(second) == squadron.fired(first),
        squadron.can_fire() ==> squadron.fired(first).bomb.is_some(),
        squadron.fired(first).aliens == squadron.aliens,
        squadron.bomb.is_some() ==> squadron.fired(first) == squadron,
{
}

/// The squadron is all dead exactly when no alien is alive or still
/// exploding: one dying alien is enough to keep it from being all dead.
pub proof fn lemma_all_dead(squadron: SquadronModel)
    ensures
        squadron.all_dead() <==> !exists|i: int|
            0 <= i < squadron.aliens.len() && (#[trigger] squadron.aliens[i]).state
                != State::Dead,
        forall|i: int|
            0 <= i < squadron.aliens.len() && (#[trigger] squadron.aliens[i]).state
                == State::Dying ==> !squadron.all_dead(),
        forall|i: int|
            0 <= i < squadron.aliens.len() && (#[trigger] squadron.aliens[i]).state
                == State::Alive ==> !squadron.all_dead(),
{
}

/// A strike kills at most one alien, and only one that was alive and
/// overlapped the point; a strike that misses changes nothing.
pub proof fn lemma_strike(squadron: SquadronModel, x: i32, y: i32, now: u64)
    ensures
        squadron.struck(x, y, now).aliens.len() == squadron.aliens.len(),
        squadron.strike_outcome(x, y) == CollisionOutcome::Miss ==> squadron.struck(x, y, now)
            == squadron,
        squadron.strike_outcome(x, y) == CollisionOutcome::Hit <==> exists|i: int|
            hit_at(squadron.aliens, x, y, i),
        match squadron.first_hit(x, y) {
            Some(i) => is_first_hit(squadron.aliens, x, y, i) && squadron.struck(
                x,
                y,
                now,
            ).aliens[i].state == State::Dying && forall|j: int|
                0 <= j < squadron.aliens.len() && j != i ==> squadron.struck(x, y, now).aliens[j]
                    == squadron.aliens[j],
            None => true,
        },
{
    if exists|i: int| hit_at(squadron.aliens, x, y, i) {
        lemma_first_hit_exists(squadron.aliens, x, y);
    }
}

/// A strike keeps the squadron valid and the formation at its size.
pub proof fn lemma_struck_valid(squadron: SquadronModel, x: i32, y: i32, now: u64)
    requires
        squadron.valid(),
    ensures
        squadron.struck(x, y, now).valid(),
        squadron.struck(x, y, now).aliens.len() == squadron.aliens.len(),
{
    lemma_strike(squadron, x, y, now);
    let struck = squadron.struck(x, y, now);
    assert forall|i: int| 0 <= i < struck.aliens.len() implies (#[trigger] struck.aliens[
        i
    ]).valid() by {
        assert(squadron.aliens[i].valid());
    }
}

/// Where an alive alien overlaps the point, one of them is the first.
pub proof fn lemma_first_hit_exists(aliens: Seq<AlienModel>, x: i32, y: i32)
    requires
        exists|i: int| hit_at(aliens, x, y, i),
    ensures
        is_first_hit(aliens, x, y, choose|i: int| is_first_hit(aliens, x, y, i)),
{
    let some = choose|i: int| hit_at(aliens, x, y, i);
    lemma_first_hit_before(aliens, x, y, some);
}

/// Where an alive alien overlaps the point, the first to do so is at its
/// place or before it.
proof fn lemma_first_hit_before(aliens: Seq<AlienModel>, x: i32, y: i32, i: int)
    requires
        hit_at(aliens, x, y, i),
    ensures
        exists|n: int| is_first_hit(aliens, x, y, n),
    decreases i,
{
    if exists|j: int| 0 <= j < i && hit_at(aliens, x, y, j) {
        let j = choose|j: int| 0 <= j < i && hit_at(aliens, x, y, j);
        lemma_first_hit_before(aliens, x, y, j);
    } else {
        assert(is_first_hit(aliens, x, y, i));
    }
}

/// The ceiling is as many rows above the centre as the formation starts
/// under, the top row starts one row below it, and the halves are halves.
pub proof fn lemma_formation_geometry()
    ensures
        ALIEN_Y_CEILING == ALIEN_TOP_Y * ALIEN_HEIGHT,
        spawn_y(0) == ALIEN_Y_CEILING - ALIEN_HEIGHT,
        2 * ALIEN_HALF_HEIGHT == ALIEN_HEIGHT,
        2 * ALIEN_HALF_WIDTH == ALIEN_WIDTH,
        forall|per_row: u8, column: int|
            spawn_x(per_row, column + 1) - #[trigger] spawn_x(per_row, column) == ALIEN_WIDTH,
        forall|row: int| #[trigger] spawn_y(row) - spawn_y(row + 1) == ALIEN_HEIGHT,
        forall|per_row: u8|
            per_row > 0 ==> #[trigger] spawn_x(per_row, 0) + spawn_x(per_row, per_row - 1) == 0,
{
    assert forall|per_row: u8, column: int|
        spawn_x(per_row, column + 1) - #[trigger] spawn_x(per_row, column) == ALIEN_WIDTH by {
        assert((2 * (column + 1) - (per_row as int - 1)) * ALIEN_HALF_WIDTH - (2 * column - (
            per_row as int - 1)) * ALIEN_HALF_WIDTH == 2 * ALIEN_HALF_WIDTH) by (nonlinear_arith);
    }
    assert forall|row: int| #[trigger] spawn_y(row) - spawn_y(row + 1) == ALIEN_HEIGHT by {
        assert((ALIEN_TOP_Y - 1 - row) * ALIEN_HEIGHT - (ALIEN_TOP_Y - 1 - (row + 1))
            * ALIEN_HEIGHT == ALIEN_HEIGHT) by (nonlinear_arith);
    }
    assert forall|per_row: u8| per_row > 0 implies #[trigger] spawn_x(per_row, 0) + spawn_x(
        per_row,
        per_row - 1,
    ) == 0 by {
        assert((2 * 0 - (per_row as int - 1)) * ALIEN_HALF_WIDTH + (2 * (per_row - 1) - (
            per_row as int - 1)) * ALIEN_HALF_WIDTH == 0) by (nonlinear_arith);
    }
}

/// A bomb in flight falls by exactly the speed of a bomb each tick, as long
/// as it stays on the playfield, and keeps its column and its speed.
pub proof fn lemma_bomb_falls(squadron: SquadronModel, now: u64)
    requires
        squadron.valid(),
        match squadron.bomb {
            Some(bomb) => i32::MIN <= bomb.y + BOMB_DESCENT,
            None => false,
        },
    ensures
        match (squadron.bomb, squadron.animated(now).bomb) {
            (Some(before), Some(after)) => after.y == before.y + BOMB_DESCENT && after.x
                == before.x && after.z == before.z && after.speed == BOMB_DESCENT,
            _ => false,
        },
{
}

/// Whatever the squadron is asked to do with its bomb, a bomb in flight
/// falls at the speed of a bomb, and the squadron stays valid.
pub proof fn lemma_bomb_keeps_its_speed(squadron: SquadronModel, pick: u64)
    requires
        squadron.valid(),
    ensures
        squadron.fired(pick).valid(),
        squadron.disarmed().valid(),
        match squadron.fired(pick).bomb {
            Some(bomb) => bomb.speed == BOMB_DESCENT,
            None => !squadron.can_fire(),
        },
{
}

/// No tick raises an alien: each one ends the tick at the altitude it had
/// or below it.
pub proof fn lemma_never_rises(squadron: SquadronModel, now: u64)
    ensures
        squadron.step() >= BASE_STEP,
        forall|i: int|
            0 <= i < squadron.aliens.len() ==> (#[trigger] squadron.animated(now).aliens[i]).y
                <= squadron.aliens[i].y,
{
    assert(STEP_GAIN * squadron.dead_count() >= 0) by (nonlinear_arith)
        requires
            STEP_GAIN == 8,
            squadron.dead_count() >= 0,
    ;
}

/// Every alien of a new formation starts at least one row under the
/// ceiling.
pub proof fn lemma_spawned_under_ceiling(rows: u8, per_row: u8, now: u64)
    ensures
        forall|i: int|
            0 <= i < rows as int * per_row as int ==> (#[trigger] SquadronModel::spawned(
                rows,
                per_row,
                now,
            ).aliens[i]).y <= ALIEN_Y_CEILING - ALIEN_HEIGHT,
{
    let spawned = SquadronModel::spawned(rows, per_row, now);
    assert forall|i: int| 0 <= i < rows as int * per_row as int implies (
    #[trigger] spawned.aliens[i]).y <= ALIEN_Y_CEILING - ALIEN_HEIGHT by {
        assert(per_row > 0) by (nonlinear_arith)
            requires
                0 <= i < rows as int * per_row as int,
        ;
        let row = i / (per_row as int);
        assert(0 <= row) by (nonlinear_arith)
            requires
                row == i / (per_row as int),
                i >= 0,
                per_row > 0,
        ;
        assert(row < rows) by (nonlinear_arith)
            requires
                row == i / (per_row as int),
                0 <= i < rows as int * per_row as int,
                per_row > 0,
        ;
        assert((ALIEN_TOP_Y - 1 - row) * ALIEN_HEIGHT <= 60000 && (ALIEN_TOP_Y - 1 - row)
            * ALIEN_HEIGHT >= -2490000) by (nonlinear_arith)
            requires
                0 <= row < 256,
                ALIEN_TOP_Y == 7,
                ALIEN_HEIGHT == 10000,
        ;
    }
}

} // verus!
