//! One round of play: the squadron against the player's ship, tick by tick,
//! with the score and the lives that last from round to round.

use vstd::prelude::*;
use crate::alien::ALIEN_FRAGMENTS;
use crate::aliens::Aliens;
use crate::formation::{
    fragments_follow, fragments_follow_alien, lemma_animated_valid, lemma_fragments_follow_chain,
    lemma_fragments_kept, lemma_strike, lemma_struck_valid, SquadronModel, ALIENS_PER_ROW,
    ALIEN_POINTS, ALIEN_ROWS, ALIEN_Y_CEILING,
};
use crate::collision::CollisionOutcome;
use crate::explosion::Trajectory;
use crate::hero::{debris_fit, Hero, HeroModel, HERO_MOVE_STEP, HERO_Y_FLOOR};
use crate::lifecycle::State;
use crate::units::clamp_coord;

verus! {

/// The score stops here.
pub const MAX_SCORE: i32 = 9999999;

/// No game holds more lives than this.
pub const MAX_LIVES: i32 = 99;

/// Lives at the start of a game.
pub const START_LIVES: i32 = 3;

/// How a round ended.
#[derive(Clone, Copy, Debug, PartialEq, Eq, Structural)]
pub enum LevelOutcome {
    /// The player cleared the playfield of aliens.
    Victory,
    /// The player ran out of lives.
    Died,
}

/// What the player asks for in one tick.
#[derive(Clone, Copy, Debug, PartialEq, Eq, Structural)]
pub struct Intents {
    /// The key that moves the ship left is held.
    pub move_left: bool,
    /// The key that moves the ship right is held.
    pub move_right: bool,
    /// The fire button is held.
    pub fire: bool,
}

/// What lasts from round to round.
#[derive(Clone, Copy, Debug)]
pub struct Game {
    score: i32,
    lives: i32,
    player_x_pos: i32,
}

/// The lasting state of a game, as plain values.
pub ghost struct GameModel {
    pub score: i32,
    pub lives: i32,
    /// Where the ship starts each round.
    pub player_x_pos: i32,
}

impl GameModel {
    /// The score is within its bounds and the lives within theirs.
    pub open spec fn valid(self) -> bool {
        0 <= self.score <= MAX_SCORE && self.lives <= MAX_LIVES
    }

    /// A game that starts with `lives` lives, as far as a game can hold
    /// them, and nothing scored.
    pub open spec fn fresh(lives: i32) -> GameModel {
        GameModel {
            score: 0,
            lives: if lives > MAX_LIVES {
                MAX_LIVES
            } else {
                lives
            },
            player_x_pos: 0,
        }
    }

    /// The game after an alien was shot down: its points are added, up to
    /// the highest score.
    pub open spec fn awarded(self) -> GameModel {
        GameModel {
            score: if self.score + ALIEN_POINTS > MAX_SCORE {
                MAX_SCORE
            } else {
                (self.score + ALIEN_POINTS) as i32
            },
            ..self
        }
    }

    /// The game with one life less.
    pub open spec fn life_lost(self) -> GameModel {
        GameModel { lives: clamp_coord(self.lives - 1) as i32, ..self }
    }

    /// The game with no life left.
    pub open spec fn forfeited(self) -> GameModel {
        GameModel { lives: 0, ..self }
    }

    /// How a round counts that ends now: it is won if a life is left.
    pub open spec fn standing(self) -> LevelOutcome {
        if self.lives > 0 {
            LevelOutcome::Victory
        } else {
            LevelOutcome::Died
        }
    }
}

impl View for Game {
    type V = GameModel;

    closed spec fn view(&self) -> GameModel {
        GameModel { score: self.score, lives: self.lives, player_x_pos: self.player_x_pos }
    }
}

impl Game {
    #[verifier::type_invariant]
    spec fn well_formed(self) -> bool {
        self@.valid()
    }

    /// A game at its start: nothing scored, three lives, the ship in the
    /// centre.
    pub fn new() -> (game: Game)
        ensures
            game@ == GameModel::fresh(START_LIVES),
            game@.valid(),
    {
        Game { score: 0, lives: START_LIVES, player_x_pos: 0 }
    }

    /// A game that starts with `lives` lives, as far as a game can hold
    /// them.
    pub fn with_lives(lives: i32) -> (game: Game)
        ensures
            game@ == GameModel::fresh(lives),
            game@.valid(),
    {
        Game {
            score: 0,
            lives: if lives > MAX_LIVES {
                MAX_LIVES
            } else {
                lives
            },
            player_x_pos: 0,
        }
    }

    /// The points scored.
    pub fn score(&self) -> (score: i32)
        ensures
            score == self@.score,
            self@.valid(),
    {
        proof {
            use_type_invariant(self);
        }
        self.score
    }

    /// The lives left.
    pub fn lives(&self) -> (lives: i32)
        ensures
            lives == self@.lives,
            self@.valid(),
    {
        proof {
            use_type_invariant(self);
        }
        self.lives
    }

    /// Where the ship starts each round.
    pub fn player_x_pos(&self) -> (x: i32)
        ensures
            x == self@.player_x_pos,
    {
        self.player_x_pos
    }

    /// Adds the points for one alien shot down, up to the highest score.
    pub fn award(&mut self)
        ensures
            final(self)@ == old(self)@.awarded(),
            final(self)@.valid(),
    {
        proof {
            use_type_invariant(&*self);
        }
        let raised: i32 = self.score + ALIEN_POINTS;
        self.score = if raised > MAX_SCORE {
            MAX_SCORE
        } else {
            raised
        };
    }

    /// Takes one life.
    pub fn lose_life(&mut self)
        ensures
            final(self)@ == old(self)@.life_lost(),
            final(self)@.valid(),
    {
        proof {
            use_type_invariant(&*self);
        }
        if self.lives > i32::MIN {
            self.lives = self.lives - 1;
        }
    }

    /// How a round counts that ends now, whether it was played to its end or
    /// broken off: it is won if a life is left.
    pub fn standing(&self) -> (outcome: LevelOutcome)
        ensures
            outcome == self@.standing(),
    {
        if self.lives > 0 {
            LevelOutcome::Victory
        } else {
            LevelOutcome::Died
        }
    }

    /// Takes every life.
    pub fn forfeit(&mut self)
        ensures
            final(self)@ == old(self)@.forfeited(),
            final(self)@.valid(),
    {
        proof {
            use_type_invariant(&*self);
        }
        self.lives = 0;
    }
}

/// The ship after the player's wishes were followed: it moves where exactly
/// one direction is asked for, and fires where asked.
pub open spec fn steered_ship(player: HeroModel, intents: Intents) -> HeroModel {
    let moved = if intents.move_left && !intents.move_right {
        player.moved(HERO_MOVE_STEP as int)
    } else if intents.move_right && !intents.move_left {
        player.moved(-HERO_MOVE_STEP as int)
    } else {
        player
    };
    if intents.fire {
        moved.fired()
    } else {
        moved
    }
}

/// A round in play, as plain values: the squadron, the ship, and the game
/// they are played for.
pub ghost struct RoundModel {
    pub aliens: SquadronModel,
    pub player: HeroModel,
    pub game: GameModel,
}

impl RoundModel {
    /// All three parts are valid.
    pub open spec fn valid(self) -> bool {
        self.aliens.valid() && self.player.valid() && self.game.valid()
    }

    /// The round after squadron and ship have been advanced by one tick. A
    /// ship whose explosion ended in an earlier tick returns first.
    pub open spec fn advanced(self, now: u64) -> RoundModel {
        RoundModel {
            aliens: self.aliens.animated(now),
            player: self.player.resurrected().animated(now),
            ..self
        }
    }

    /// The round after the player's wishes were followed.
    pub open spec fn steered(self, intents: Intents) -> RoundModel {
        RoundModel { player: steered_ship(self.player, intents), ..self }
    }

    /// The round after the squadron was asked to drop a bomb, with `pick`
    /// the random number it drew.
    pub open spec fn armed(self, pick: u64) -> RoundModel {
        RoundModel { aliens: self.aliens.fired(pick), ..self }
    }

    /// The round after the ship's shot was tested against the squadron. A
    /// shot that hits kills the alien, scores, and is spent; a shot above
    /// the ceiling is lost.
    pub open spec fn shot_resolved(self, now: u64) -> RoundModel {
        match self.player.bullet {
            Some(shot) => {
                let hit = self.aliens.strike_outcome(shot.x, shot.y) == CollisionOutcome::Hit;
                RoundModel {
                    aliens: self.aliens.struck(shot.x, shot.y, now),
                    player: if hit || shot.y > ALIEN_Y_CEILING {
                        self.player.disarmed()
                    } else {
                        self.player
                    },
                    game: if hit {
                        self.game.awarded()
                    } else {
                        self.game
                    },
                }
            },
            None => self,
        }
    }

    /// The round after the squadron's bomb was tested against the ship. A
    /// bomb that hits destroys the ship, costs a life, and is spent; a bomb
    /// below the floor is lost.
    pub open spec fn bomb_resolved(self, now: u64) -> RoundModel {
        match self.aliens.bomb {
            Some(bomb) => {
                let hit = self.player.strike_outcome(bomb.x, bomb.y) == CollisionOutcome::Hit;
                RoundModel {
                    aliens: if hit || bomb.y < HERO_Y_FLOOR {
                        self.aliens.disarmed()
                    } else {
                        self.aliens
                    },
                    player: if hit {
                        self.player.destroyed(now)
                    } else {
                        self.player
                    },
                    game: if hit {
                        self.game.life_lost()
                    } else {
                        self.game
                    },
                }
            },
            None => self,
        }
    }

    /// The round after the squadron was tested against the ship itself. An
    /// alien that flew into the ship dies, destroys the ship and costs a
    /// life.
    pub open spec fn contact_resolved(self, now: u64) -> RoundModel {
        let hit = self.aliens.strike_outcome(self.player.x, self.player.y)
            == CollisionOutcome::Hit;
        RoundModel {
            aliens: self.aliens.struck(self.player.x, self.player.y, now),
            player: if hit {
                self.player.destroyed(now)
            } else {
                self.player
            },
            game: if hit {
                self.game.life_lost()
            } else {
                self.game
            },
        }
    }

    /// Whether the squadron has come down to the ship's altitude.
    pub open spec fn breached(self) -> bool {
        self.aliens.lowest_y() <= self.player.y
    }

    /// The round after the squadron's altitude was tested against the
    /// ship's. A squadron that has come down to the ship destroys it and
    /// takes every life, however many there were.
    pub open spec fn breach_resolved(self, now: u64) -> RoundModel {
        if self.breached() {
            RoundModel {
                player: self.player.destroyed(now),
                game: self.game.forfeited(),
                ..self
            }
        } else {
            self
        }
    }

    /// The round after the four tests: the shot against the squadron, the
    /// bomb against the ship, the squadron against the ship, and the
    /// squadron's altitude against the ship's, in this order.
    pub open spec fn resolved(self, now: u64) -> RoundModel {
        self.shot_resolved(now).bomb_resolved(now).contact_resolved(now).breach_resolved(now)
    }

    /// The round after everything that only happens while the ship is
    /// alive: the player's wishes, the squadron's bomb, and the four tests,
    /// in this order.
    pub open spec fn engaged(self, intents: Intents, now: u64, pick: u64) -> RoundModel {
        self.steered(intents).armed(pick).resolved(now)
    }

    /// The round one tick later, with `pick` the random number that the
    /// squadron draws to drop its bomb. Squadron and ship advance; and while
    /// the ship is alive after that, the round is engaged.
    pub open spec fn ticked(self, intents: Intents, now: u64, pick: u64) -> RoundModel {
        let advanced = self.advanced(now);
        if advanced.player.state == State::Alive {
            advanced.engaged(intents, now, pick)
        } else {
            advanced
        }
    }

    /// Whether the round is over.
    pub open spec fn over(self) -> bool {
        ||| self.player.state == State::Alive && self.aliens.all_dead()
        ||| self.player.state != State::Dying && self.game.lives < 1
    }

    /// How the round has ended, if it has. It ends when the ship is alive
    /// and every alien is dead, or when no life is left and the ship is not
    /// in the middle of its explosion. It is won if a life is left.
    pub open spec fn outcome(self) -> Option<LevelOutcome> {
        if self.over() {
            Some(self.game.standing())
        } else {
            None
        }
    }
}

/// The squadron and the ship of one round.
pub struct Playfield {
    /// The squadron of aliens to shoot down.
    pub aliens: Aliens,
    /// The player's ship.
    pub player: Hero,
}

impl Playfield {
    /// The round as plain values, played for `game`.
    pub open spec fn round(&self, game: GameModel) -> RoundModel {
        RoundModel { aliens: self.aliens@, player: self.player@, game }
    }

    /// A round at its start at `now`: the standard formation, and the ship
    /// where the game says it starts.
    pub fn new(game: &Game, now: u64) -> (field: Playfield)
        ensures
            field.aliens@ == SquadronModel::spawned(ALIEN_ROWS, ALIENS_PER_ROW, now),
            field.player@ == HeroModel::fresh(game@.player_x_pos),
            field.round(game@).valid(),
            field.aliens.fragments() == Seq::new(
                field.aliens@.aliens.len(),
                |i: int| Seq::new(ALIEN_FRAGMENTS as nat, |n: int| Trajectory::still()),
            ),
            field.player.debris() == Seq::<Trajectory>::empty(),
    {
        let aliens = Aliens::new(now);
        let player = Hero::new(game.player_x_pos());
        proof {
            use_type_invariant(game);
        }
        Playfield { aliens, player }
    }

    /// Advances squadron and ship by one tick at `now`. A ship whose
    /// explosion ended in an earlier tick returns first.
    pub fn advance(&mut self, now: u64)
        ensures
            final(self).aliens@ == old(self).aliens@.animated(now),
            final(self).player@ == old(self).player@.resurrected().animated(now),
            final(self).aliens@.valid(),
            final(self).player@.valid(),
            visuals_follow(*old(self), *final(self)),
    {
        proof {
            use_type_invariant(&self.aliens);
            use_type_invariant(&self.player);
            self.aliens.lemma_valid();
            self.player.lemma_valid();
        }
        self.aliens.animate(now);
        match self.player.state() {
            State::Dead => {
                self.player.resurrect();
            },
            _ => {},
        }
        self.player.animate(now);
        proof {
            old(self).aliens.lemma_fragments_len();
            lemma_animated_valid(old(self).aliens@, now);
            lemma_fragments_kept(
                old(self).aliens@.aliens,
                self.aliens@.aliens,
                self.aliens.fragments(),
            );
        }
    }

    /// Follows the player's wishes: the ship moves where exactly one
    /// direction is asked for, and fires where asked.
    pub fn steer(&mut self, intents: Intents)
        ensures
            final(self).player@ == steered_ship(old(self).player@, intents),
            final(self).player@.valid(),
            final(self).aliens == old(self).aliens,
            final(self).player.debris() == old(self).player.debris(),
    {
        proof {
            use_type_invariant(&self.player);
            self.player.lemma_valid();
        }
        if intents.move_left && !intents.move_right {
            self.player.move_left();
        } else if intents.move_right && !intents.move_left {
            self.player.move_right();
        }
        if intents.fire {
            self.player.fire();
        }
    }

    /// Tests the ship's shot against the squadron at `now`. A shot that
    /// hits kills the alien, scores for `game`, and is spent; a shot above
    /// the ceiling is lost.
    pub fn resolve_shot(&mut self, game: &mut Game, now: u64)
        ensures
            final(self).round(final(game)@) == old(self).round(old(game)@).shot_resolved(now),
            final(self).round(final(game)@).valid(),
            visuals_follow(*old(self), *final(self)),
    {
        proof {
            use_type_invariant(&*game);
            use_type_invariant(&self.aliens);
            use_type_invariant(&self.player);
            self.aliens.lemma_valid();
            self.player.lemma_valid();
            self.aliens.lemma_fragments_len();
            lemma_fragments_kept(self.aliens@.aliens, self.aliens@.aliens, self.aliens.fragments());
        }
        match self.player.bullet() {
            Some(shot) => {
                let (x, y, _) = shot.get_coords();
                match self.aliens.collision(x, y, now) {
                    CollisionOutcome::Hit => {
                        self.player.destroy_bullet();
                        game.award();
                    },
                    CollisionOutcome::Miss => {},
                }
                if y > ALIEN_Y_CEILING {
                    self.player.destroy_bullet();
                }
            },
            None => {},
        }
    }

    /// Tests the squadron's bomb against the ship at `now`. A bomb that
    /// hits destroys the ship, costs `game` a life, and is spent; a bomb
    /// below the floor is lost.
    pub fn resolve_bomb(&mut self, game: &mut Game, now: u64)
        ensures
            final(self).round(final(game)@) == old(self).round(old(game)@).bomb_resolved(now),
            final(self).round(final(game)@).valid(),
            visuals_follow(*old(self), *final(self)),
    {
        proof {
            use_type_invariant(&*game);
            use_type_invariant(&self.aliens);
            use_type_invariant(&self.player);
            self.aliens.lemma_valid();
            self.player.lemma_valid();
            self.aliens.lemma_fragments_len();
            lemma_fragments_kept(self.aliens@.aliens, self.aliens@.aliens, self.aliens.fragments());
        }
        match self.aliens.bomb() {
            Some(bomb) => {
                let (x, y, _) = bomb.get_coords();
                match self.player.collision(x, y) {
                    CollisionOutcome::Hit => {
                        self.aliens.destroy_bomb();
                        self.player.destroy(now);
                        game.lose_life();
                    },
                    CollisionOutcome::Miss => {},
                }
                if y < HERO_Y_FLOOR {
                    self.aliens.destroy_bomb();
                }
            },
            None => {},
        }
    }

    /// Tests the squadron against the ship itself at `now`. An alien that
    /// flew into the ship dies, destroys the ship and costs `game` a life.
    pub fn resolve_contact(&mut self, game: &mut Game, now: u64)
        ensures
            final(self).round(final(game)@) == old(self).round(old(game)@).contact_resolved(now),
            final(self).round(final(game)@).valid(),
            visuals_follow(*old(self), *final(self)),
    {
        proof {
            use_type_invariant(&*game);
            use_type_invariant(&self.player);
            self.player.lemma_valid();
        }
        let (x, y, _) = self.player.get_coords();
        match self.aliens.collision(x, y, now) {
            CollisionOutcome::Hit => {
                self.player.destroy(now);
                game.lose_life();
            },
            CollisionOutcome::Miss => {},
        }
    }

    /// Tests the squadron's altitude against the ship's at `now`. A
    /// squadron that has come down to the ship destroys it and takes every
    /// life of `game`.
    pub fn resolve_breach(&mut self, game: &mut Game, now: u64)
        ensures
            final(self).round(final(game)@) == old(self).round(old(game)@).breach_resolved(now),
            final(self).round(final(game)@).valid(),
            visuals_follow(*old(self), *final(self)),
    {
        proof {
            use_type_invariant(&*game);
            use_type_invariant(&self.aliens);
            use_type_invariant(&self.player);
            self.aliens.lemma_valid();
            self.player.lemma_valid();
            self.aliens.lemma_fragments_len();
            lemma_fragments_kept(self.aliens@.aliens, self.aliens@.aliens, self.aliens.fragments());
        }
        let (_, y, _) = self.player.get_coords();
        if self.aliens.lowest_y() <= y {
            self.player.destroy(now);
            game.forfeit();
        }
    }

    /// How the round has ended, if it has.
    pub fn outcome(&self, game: &Game) -> (outcome: Option<LevelOutcome>)
        ensures
            outcome == self.round(game@).outcome(),
    {
        let state: State = self.player.state();
        let lives: i32 = game.lives();
        let won: bool = match state {
            State::Alive => self.aliens.all_dead(),
            _ => false,
        };
        let lost: bool = match state {
            State::Dying => false,
            _ => lives < 1,
        };
        if won || lost {
            Some(game.standing())
        } else {
            None
        }
    }

    /// Runs the four tests of a tick at `now`: the shot against the
    /// squadron, the bomb against the ship, the squadron against the ship,
    /// and the squadron's altitude against the ship's, in this order.
    pub fn resolve(&mut self, game: &mut Game, now: u64)
        ensures
            final(self).round(final(game)@) == old(self).round(old(game)@).resolved(now),
            final(self).round(final(game)@).valid(),
            visuals_follow(*old(self), *final(self)),
    {
        proof {
            use_type_invariant(&self.player);
            self.player.lemma_valid();
        }
        self.resolve_shot(game, now);
        let ghost shot = *self;
        self.resolve_bomb(game, now);
        let ghost bombed = *self;
        proof {
            lemma_visuals_chain(*old(self), shot, bombed);
        }
        self.resolve_contact(game, now);
        let ghost touched = *self;
        proof {
            lemma_visuals_chain(*old(self), bombed, touched);
        }
        self.resolve_breach(game, now);
        proof {
            lemma_visuals_chain(*old(self), touched, *self);
        }
    }

    /// Plays one tick at `now` and says how the round has ended, if it has.
    /// Squadron and ship advance. While the ship is alive after that, the
    /// player's wishes are followed, the squadron drops its bomb if it may,
    /// from under a column picked at random, and the shot, the bomb, the
    /// squadron and its altitude are tested against their targets, in this
    /// order.
    pub fn tick(&mut self, game: &mut Game, intents: Intents, now: u64) -> (outcome: Option<
        LevelOutcome,
    >)
        ensures
            exists|pick: u64|
                final(self).round(final(game)@) == old(self).round(old(game)@).ticked(
                    intents,
                    now,
                    pick,
                ),
            outcome == final(self).round(final(game)@).outcome(),
            final(self).round(final(game)@).valid(),
            visuals_follow(*old(self), *final(self)),
    {
        proof {
            use_type_invariant(&*game);
        }
        self.advance(now);
        let ghost advanced = *self;
        match self.player.state() {
            State::Alive => {
                self.steer(intents);
                let ghost steered = *self;
                self.aliens.fire();
                let ghost armed = *self;
                let ghost pick = choose|pick: u64| armed.aliens@ == steered.aliens@.fired(pick);
                self.resolve(game, now);
                proof {
                    lemma_armed_visuals(*old(self), advanced, armed);
                    lemma_visuals_chain(*old(self), armed, *self);
                    assert(self.round(game@) == old(self).round(old(game)@).ticked(
                        intents,
                        now,
                        pick,
                    ));
                }
            },
            _ => {
                assert(self.round(game@) == old(self).round(old(game)@).ticked(intents, now, 0));
            },
        }
        self.outcome(game)
    }

    /// Plays one tick at `now` as [`Playfield::tick`] does, with `pick` in
    /// the place of the random number, and says how the round has ended, if
    /// it has.
    pub fn tick_with(&mut self, game: &mut Game, intents: Intents, now: u64, pick: u64) -> (outcome:
        Option<LevelOutcome>)
        ensures
            final(self).round(final(game)@) == old(self).round(old(game)@).ticked(
                intents,
                now,
                pick,
            ),
            outcome == final(self).round(final(game)@).outcome(),
            final(self).round(final(game)@).valid(),
            visuals_follow(*old(self), *final(self)),
    {
        proof {
            use_type_invariant(&*game);
        }
        self.advance(now);
        let ghost advanced = *self;
        match self.player.state() {
            State::Alive => {
                self.steer(intents);
                self.aliens.fire_with(pick);
                let ghost armed = *self;
                self.resolve(game, now);
                proof {
                    lemma_armed_visuals(*old(self), advanced, armed);
                    lemma_visuals_chain(*old(self), armed, *self);
                }
            },
            _ => {},
        }
        self.outcome(game)
    }
}

/// How what is only seen follows the round from `before` to `after`. The
/// fragments of the aliens follow the aliens. The ship has debris exactly
/// while it explodes, scattering upward, and keeps it for as long as it
/// explodes.
pub open spec fn visuals_follow(before: Playfield, after: Playfield) -> bool {
    &&& fragments_follow(
        before.aliens@.aliens,
        before.aliens.fragments(),
        after.aliens@.aliens,
        after.aliens.fragments(),
    )
    &&& debris_fit(before.player@.state, before.player.debris())
    &&& debris_fit(after.player@.state, after.player.debris())
    &&& before.player@.state == State::Dying && after.player@.state == State::Dying
        ==> after.player.debris() == before.player.debris()
}

/// What is only seen follows the round from its start through the advance
/// of a tick and on to the moment the squadron has been asked to fire, if
/// until then the aliens are those that advanced, the fragments and the
/// debris were left alone, and the ship is alive.
pub proof fn lemma_armed_visuals(start: Playfield, advanced: Playfield, armed: Playfield)
    requires
        visuals_follow(start, advanced),
        advanced.player@.state == State::Alive,
        armed.player@.state == State::Alive,
        armed.aliens@.aliens == advanced.aliens@.aliens,
        armed.aliens.fragments() == advanced.aliens.fragments(),
        armed.player.debris() == advanced.player.debris(),
    ensures
        visuals_follow(start, armed),
{
    assert forall|i: int|
        0 <= i < start.aliens@.aliens.len() implies #[trigger] fragments_follow_alien(
        start.aliens@.aliens[i],
        start.aliens.fragments()[i],
        armed.aliens@.aliens[i],
        armed.aliens.fragments()[i],
    ) by {
        assert(fragments_follow_alien(
            start.aliens@.aliens[i],
            start.aliens.fragments()[i],
            advanced.aliens@.aliens[i],
            advanced.aliens.fragments()[i],
        ));
    }
}

/// What is only seen follows the round through two changes in a row, as
/// long as a ship that explodes at both ends explodes in between.
pub proof fn lemma_visuals_chain(first: Playfield, second: Playfield, third: Playfield)
    requires
        visuals_follow(first, second),
        visuals_follow(second, third),
        first.player@.state == State::Dying && third.player@.state == State::Dying
            ==> second.player@.state == State::Dying,
    ensures
        visuals_follow(first, third),
{
    lemma_fragments_follow_chain(
        first.aliens@.aliens,
        first.aliens.fragments(),
        second.aliens@.aliens,
        second.aliens.fragments(),
        third.aliens@.aliens,
        third.aliens.fragments(),
    );
}


/// A bomb that reaches a ship that is alive makes it explode at that
/// moment, costs exactly one life, and is spent.
pub proof fn lemma_bomb_hit(round: RoundModel, now: u64)
    requires
        round.player.state == State::Alive,
        round.game.lives > i32::MIN,
        match round.aliens.bomb {
            Some(bomb) => round.player.strike_outcome(bomb.x, bomb.y) == CollisionOutcome::Hit,
            None => false,
        },
    ensures
        round.bomb_resolved(now).player.state == State::Dying,
        round.bomb_resolved(now).player.time_of_death == Some(now),
        round.bomb_resolved(now).game.lives == round.game.lives - 1,
        round.bomb_resolved(now).game.score == round.game.score,
        round.bomb_resolved(now).aliens.bomb.is_none(),
        round.bomb_resolved(now).aliens.aliens == round.aliens.aliens,
{
}

/// A bomb that misses the ship costs nothing, and stays in flight until it
/// is below the floor.
pub proof fn lemma_bomb_miss(round: RoundModel, now: u64)
    requires
        match round.aliens.bomb {
            Some(bomb) => round.player.strike_outcome(bomb.x, bomb.y) == CollisionOutcome::Miss,
            None => true,
        },
    ensures
        round.bomb_resolved(now).player == round.player,
        round.bomb_resolved(now).game == round.game,
        match round.aliens.bomb {
            Some(bomb) => round.bomb_resolved(now).aliens.bomb == if bomb.y < HERO_Y_FLOOR {
                None
            } else {
                Some(bomb)
            },
            None => round.bomb_resolved(now) == round,
        },
{
}

/// A shot above the ceiling is lost, whether it hit or not, and a shot
/// that neither hit nor left the playfield stays in flight; only a hit
/// scores, and by no more than the points of one alien.
pub proof fn lemma_shot(round: RoundModel, now: u64)
    requires
        round.game.valid(),
    ensures
        round.shot_resolved(now).game.valid(),
        round.shot_resolved(now).game.lives == round.game.lives,
        round.game.score <= round.shot_resolved(now).game.score <= round.game.score
            + ALIEN_POINTS,
        match round.player.bullet {
            Some(shot) => {
                let hit = round.aliens.strike_outcome(shot.x, shot.y) == CollisionOutcome::Hit;
                &&& hit || shot.y > ALIEN_Y_CEILING ==> round.shot_resolved(
                    now,
                ).player.bullet.is_none()
                &&& !hit && shot.y <= ALIEN_Y_CEILING ==> round.shot_resolved(now) == round
                &&& hit ==> round.shot_resolved(now).game == round.game.awarded()
                &&& !hit ==> round.shot_resolved(now).game == round.game
            },
            None => round.shot_resolved(now) == round,
        },
{
    lemma_strike(
        round.aliens,
        match round.player.bullet {
            Some(shot) => shot.x,
            None => 0,
        },
        match round.player.bullet {
            Some(shot) => shot.y,
            None => 0,
        },
        now,
    );
}

/// Once the squadron has come down to the ship's altitude, no life is left,
/// however many there were, and the ship is no longer alive.
pub proof fn lemma_breach_forfeits(round: RoundModel, now: u64)
    requires
        round.breached(),
    ensures
        round.breach_resolved(now).game.lives == 0,
        round.breach_resolved(now).game.score == round.game.score,
        round.breach_resolved(now).player.state != State::Alive,
        round.breach_resolved(now).aliens == round.aliens,
{
}

/// The round is over when the ship is alive and every alien is dead, or
/// when no life is left and the ship is not exploding. It is never over
/// while the ship explodes; it is won only with a life left, and lost only
/// without.
pub proof fn lemma_outcome(round: RoundModel)
    ensures
        round.outcome().is_some() <==> round.over(),
        round.player.state == State::Dying ==> round.outcome().is_none(),
        round.outcome() == Some(LevelOutcome::Victory) ==> round.game.lives > 0
            && round.player.state == State::Alive && round.aliens.all_dead(),
        round.outcome() == Some(LevelOutcome::Died) ==> round.game.lives < 1
            && round.player.state != State::Dying,
{
}

/// A tick keeps the round valid, keeps the formation at its size, and
/// never adds a life.
pub proof fn lemma_ticked_valid(round: RoundModel, intents: Intents, now: u64, pick: u64)
    requires
        round.valid(),
    ensures
        round.ticked(intents, now, pick).valid(),
        round.ticked(intents, now, pick).aliens.aliens.len() == round.aliens.aliens.len(),
        round.ticked(intents, now, pick).game.lives <= round.game.lives
            || round.game.lives < 0,
        round.ticked(intents, now, pick).game.score >= round.game.score,
{
    let advanced = round.advanced(now);
    lemma_animated_valid(round.aliens, now);
    crate::hero::lemma_hero_steps_keep_valid(round.player, now, 0);
    crate::hero::lemma_hero_steps_keep_valid(round.player.resurrected(), now, 0);
    assert(advanced.valid());
    if advanced.player.state == State::Alive {
        let steered = advanced.steered(intents);
        assert(steered.valid());
        let armed = steered.armed(pick);
        assert(armed.valid());
        let shot = armed.shot_resolved(now);
        lemma_struck_valid(
            armed.aliens,
            match armed.player.bullet {
                Some(shell) => shell.x,
                None => 0,
            },
            match armed.player.bullet {
                Some(shell) => shell.y,
                None => 0,
            },
            now,
        );
        assert(shot.valid());
        let bombed = shot.bomb_resolved(now);
        assert(bombed.valid());
        let touched = bombed.contact_resolved(now);
        lemma_struck_valid(bombed.aliens, bombed.player.x, bombed.player.y, now);
        assert(touched.valid());
        assert(touched.breach_resolved(now).valid());
    }
}

/// Every explosion outlasts a pose of an alien, and the explosion of an
/// alien outlasts that of the ship.
pub proof fn lemma_timers_ordered()
    ensures
        crate::alien::ALIEN_FRAME_SECONDS < crate::hero::HERO_EXPLOSION_SECONDS,
        crate::hero::HERO_EXPLOSION_SECONDS < crate::alien::ALIEN_EXPLOSION_SECONDS,
{
}

} // verus!
