use invaders::aliens::Aliens;
use invaders::bullet::Bullet;
use invaders::game::{Game, Intents, LevelOutcome, Playfield, MAX_LIVES, MAX_SCORE, START_LIVES};
use invaders::hero::{Hero, State};

const IDLE: Intents = Intents { move_left: false, move_right: false, fire: false };
const FIRE: Intents = Intents { move_left: false, move_right: false, fire: true };
const LEFT: Intents = Intents { move_left: true, move_right: false, fire: false };
const RIGHT: Intents = Intents { move_left: false, move_right: true, fire: false };
const BOTH: Intents = Intents { move_left: true, move_right: true, fire: false };

fn field_with(rows: u8, per_row: u8, hero_x: i32) -> Playfield {
    Playfield { aliens: Aliens::with_formation(rows, per_row, 0), player: Hero::new(hero_x) }
}

#[test]
fn game_constants() {
    assert_eq!(MAX_SCORE, 9_999_999);
    assert_eq!(MAX_LIVES, 99);
    assert_eq!(START_LIVES, 3);
}

#[test]
fn a_new_game_has_three_lives_and_no_score() {
    let game = Game::new();
    assert_eq!(game.score(), 0);
    assert_eq!(game.lives(), 3);
    assert_eq!(game.player_x_pos(), 0);
}

#[test]
fn a_game_holds_at_most_ninety_nine_lives() {
    assert_eq!(Game::with_lives(99).lives(), 99);
    assert_eq!(Game::with_lives(100).lives(), 99);
    assert_eq!(Game::with_lives(i32::MAX).lives(), 99);
    assert_eq!(Game::with_lives(1).lives(), 1);
    assert_eq!(Game::with_lives(0).lives(), 0);
}

#[test]
fn each_alien_scores_a_hundred_points() {
    let mut game = Game::new();
    game.award();
    assert_eq!(game.score(), 100);
    game.award();
    game.award();
    assert_eq!(game.score(), 300);
}

#[test]
fn the_score_stops_at_its_maximum() {
    let mut game = Game::new();
    for _ in 0..99_999 {
        game.award();
    }
    assert_eq!(game.score(), 9_999_900);
    game.award();
    assert_eq!(game.score(), 9_999_999);
    game.award();
    assert_eq!(game.score(), 9_999_999);
}

#[test]
fn losing_a_life_takes_exactly_one() {
    let mut game = Game::new();
    game.lose_life();
    assert_eq!(game.lives(), 2);
    game.lose_life();
    game.lose_life();
    assert_eq!(game.lives(), 0);
    game.lose_life();
    assert_eq!(game.lives(), -1);
    assert_eq!(game.score(), 0);
}

#[test]
fn forfeit_takes_every_life() {
    for lives in [3, 99, 1, 0, -4] {
        let mut game = Game::with_lives(lives);
        game.forfeit();
        assert_eq!(game.lives(), 0);
    }
}

#[test]
fn a_round_starts_with_the_standard_formation_and_the_hero_in_place() {
    let game = Game::new();
    let field = Playfield::new(&game, 0);
    assert_eq!(field.aliens.len(), 55);
    assert_eq!(field.aliens.bomb(), None);
    assert_eq!(field.player.get_coords(), (0, -90_000, 0));
    assert_eq!(field.player.state(), State::Alive);
    assert_eq!(field.outcome(&game), None);
}

#[test]
fn a_tick_moves_the_squadron_and_drops_a_bomb() {
    let mut game = Game::new();
    let mut field = Playfield::new(&game, 0);
    assert_eq!(field.tick(&mut game, IDLE, 16), None);
    assert_eq!(field.aliens.alien(0).unwrap().get_coords(), (-65_100, 60_000, 0));
    let bomb = field.aliens.bomb().unwrap();
    assert_eq!(bomb.y, 15_000);
    assert_eq!(bomb.speed, -1000);
    assert_eq!((bomb.x + 100) % 13_000, 0);
    assert_eq!(field.tick(&mut game, IDLE, 32), None);
    assert_eq!(field.aliens.bomb(), Some(Bullet { y: 14_000, ..bomb }));
}

#[test]
fn a_tick_with_a_given_pick_is_repeatable() {
    let mut game = Game::new();
    let mut field = Playfield::new(&game, 0);
    field.tick_with(&mut game, IDLE, 16, 7);
    assert_eq!(
        field.aliens.bomb(),
        Some(Bullet { x: 7 * 13_000 - 65_100, y: 15_000, z: 0, speed: -1000 })
    );
}

#[test]
fn the_hero_follows_the_keys() {
    let mut game = Game::new();
    let mut field = field_with(1, 1, 20_000);
    field.tick_with(&mut game, LEFT, 16, 0);
    assert_eq!(field.player.get_coords().0, 21_000);
    field.tick_with(&mut game, RIGHT, 32, 0);
    field.tick_with(&mut game, RIGHT, 48, 0);
    assert_eq!(field.player.get_coords().0, 19_000);
    field.tick_with(&mut game, BOTH, 64, 0);
    assert_eq!(field.player.get_coords().0, 19_000);
    field.tick_with(&mut game, IDLE, 80, 0);
    assert_eq!(field.player.get_coords().0, 19_000);
    assert_eq!(field.player.bullet(), None);
}

#[test]
fn a_shot_climbs_until_it_passes_the_ceiling_and_then_another_can_be_fired() {
    let mut game = Game::new();
    let mut field = field_with(1, 1, 40_000);
    let mut now = 16;
    assert_eq!(field.tick_with(&mut game, FIRE, now, 0), None);
    assert_eq!(field.player.bullet(), Some(Bullet { x: 40_000, y: -83_500, z: 0, speed: 2000 }));
    let mut y = -83_500;
    loop {
        now += 16;
        field.tick_with(&mut game, FIRE, now, 0);
        y += 2000;
        if y > 70_000 {
            break;
        }
        assert_eq!(field.player.bullet(), Some(Bullet { x: 40_000, y, z: 0, speed: 2000 }));
    }
    assert_eq!(y, 70_500);
    assert_eq!(field.player.bullet(), None);
    now += 16;
    field.tick_with(&mut game, FIRE, now, 0);
    assert_eq!(field.player.bullet(), Some(Bullet { x: 40_000, y: -83_500, z: 0, speed: 2000 }));
    assert_eq!(game.score(), 0);
    assert_eq!(game.lives(), 3);
}

#[test]
fn a_shot_that_hits_kills_the_alien_and_scores() {
    let mut game = Game::new();
    let mut field = field_with(1, 1, -7000);
    let mut now = 0;
    let mut fired = false;
    loop {
        now += 16;
        let intents = if fired { IDLE } else { FIRE };
        fired = true;
        field.tick_with(&mut game, intents, now, 0);
        if field.player.bullet().is_none() {
            break;
        }
        assert_eq!(game.score(), 0);
        assert_eq!(field.aliens.alien(0).unwrap().state(), State::Alive);
        assert!(now < 16 * 200);
    }
    assert_eq!(game.score(), 100);
    assert_eq!(field.aliens.alien(0).unwrap().state(), State::Dying);
    assert_eq!(field.aliens.alien(0).unwrap().seconds_since_death(now), Some(0));
    assert_eq!(field.player.state(), State::Alive);
    assert_eq!(game.lives(), 3);
}

#[test]
fn a_bomb_that_reaches_the_hero_destroys_it_and_costs_one_life() {
    let mut game = Game::new();
    let mut field = field_with(1, 1, 0);
    let mut now = 0;
    let mut ticks = 0;
    while field.player.state() == State::Alive {
        now += 16;
        ticks += 1;
        assert_eq!(game.lives(), 3);
        assert_eq!(field.tick_with(&mut game, IDLE, now, 0), None);
        if field.player.state() == State::Alive {
            let bomb = field.aliens.bomb().unwrap();
            let y = 55_000 - 1000 * (ticks - 1);
            assert_eq!(bomb, Bullet { x: -100, y, z: 0, speed: -1000 });
            assert!(bomb.y <= -95_000 || bomb.y >= -85_000);
        }
        assert!(ticks < 1000);
    }
    assert_eq!(ticks, 142);
    assert_eq!(field.player.state(), State::Dying);
    assert_eq!(field.player.seconds_since_death(now), Some(0));
    assert_eq!(field.player.debris_trajectories().len(), 20);
    assert_eq!(game.lives(), 2);
    assert_eq!(field.aliens.bomb(), None);
    assert_eq!(field.aliens.alien(0).unwrap().state(), State::Alive);
}

#[test]
fn while_the_hero_explodes_only_squadron_and_explosion_go_on() {
    let mut game = Game::new();
    let mut field = field_with(1, 1, 0);
    let mut now = 0;
    while field.player.state() == State::Alive {
        now += 16;
        field.tick_with(&mut game, IDLE, now, 0);
    }
    let died = now;
    let x = field.aliens.alien(0).unwrap().get_coords().0;
    let eager = Intents { move_left: true, move_right: false, fire: true };
    assert_eq!(field.tick_with(&mut game, eager, now + 16, 0), None);
    assert_eq!(field.aliens.alien(0).unwrap().get_coords().0, x - 100);
    assert_eq!(field.aliens.bomb(), None);
    assert_eq!(field.player.get_coords().0, 0);
    assert_eq!(field.player.bullet(), None);
    assert_eq!(field.player.state(), State::Dying);
    assert_eq!(field.tick_with(&mut game, IDLE, died + 4999, 0), None);
    assert_eq!(field.player.state(), State::Dying);
    assert_eq!(field.tick_with(&mut game, IDLE, died + 5000, 0), None);
    assert_eq!(field.player.state(), State::Dead);
    assert_eq!(field.tick_with(&mut game, IDLE, died + 5016, 0), None);
    assert_eq!(field.player.state(), State::Alive);
    assert_eq!(field.player.seconds_since_death(died + 5016), None);
    assert!(field.aliens.bomb().is_some());
    assert_eq!(game.lives(), 2);
}

#[test]
fn a_bomb_that_falls_past_the_hero_is_lost_below_the_floor() {
    let mut game = Game::new();
    let mut field = field_with(1, 1, 30_000);
    let mut now = 16;
    field.tick_with(&mut game, IDLE, now, 0);
    assert_eq!(field.aliens.bomb(), Some(Bullet { x: -100, y: 55_000, z: 0, speed: -1000 }));
    let mut y = 55_000;
    while y >= -96_500 {
        assert_eq!(field.aliens.bomb().unwrap().y, y);
        now += 16;
        field.tick_with(&mut game, IDLE, now, 0);
        y -= 1000;
        if y >= -96_500 {
            assert_eq!(field.aliens.bomb().unwrap().y, y);
        }
    }
    assert_eq!(y, -97_000);
    assert_eq!(field.aliens.bomb(), None);
    assert_eq!(field.player.state(), State::Alive);
    assert_eq!(game.lives(), 3);
    field.tick_with(&mut game, IDLE, now + 16, 0);
    assert_eq!(field.aliens.bomb().unwrap().y, 55_000);
}

fn play_until_the_squadron_lands(lives: i32) -> (Playfield, Game, u64) {
    let mut game = Game::with_lives(lives);
    let mut field = field_with(1, 1, 60_000);
    let mut now = 0;
    let mut ticks = 0;
    while field.player.state() == State::Alive {
        assert!(field.aliens.lowest_y() > -90_000);
        assert_eq!(game.lives(), lives);
        now += 16;
        ticks += 1;
        assert_eq!(field.tick_with(&mut game, IDLE, now, 0), None);
        assert!(ticks < 200_000);
    }
    (field, game, now)
}

#[test]
fn a_squadron_that_lands_takes_all_three_lives() {
    let (field, game, _) = play_until_the_squadron_lands(3);
    assert!(field.aliens.lowest_y() <= -90_000);
    assert_eq!(field.player.state(), State::Dying);
    assert_eq!(game.lives(), 0);
}

#[test]
fn a_squadron_that_lands_takes_all_ninety_nine_lives() {
    let (field, game, _) = play_until_the_squadron_lands(99);
    assert!(field.aliens.lowest_y() <= -90_000);
    assert_eq!(field.player.state(), State::Dying);
    assert_eq!(game.lives(), 0);
}

#[test]
fn the_round_is_lost_once_the_last_explosion_is_over() {
    let (mut field, mut game, now) = play_until_the_squadron_lands(3);
    assert_eq!(field.outcome(&game), None);
    assert_eq!(field.tick_with(&mut game, IDLE, now + 4000, 0), None);
    assert_eq!(field.player.state(), State::Dying);
    assert_eq!(field.tick_with(&mut game, IDLE, now + 5000, 0), Some(LevelOutcome::Died));
    assert_eq!(field.player.state(), State::Dead);
    assert_eq!(field.outcome(&game), Some(LevelOutcome::Died));
}

#[test]
fn an_alien_that_flies_into_the_hero_dies_with_it() {
    let mut game = Game::with_lives(5);
    let mut field = field_with(1, 1, 60_000);
    let mut now = 0;
    while field.aliens.lowest_y() > -80_000 {
        now += 16;
        field.tick_with(&mut game, IDLE, now, 0);
    }
    assert_eq!(game.lives(), 5);
    assert_eq!(field.player.state(), State::Alive);
    let (x, y, _) = field.aliens.alien(0).unwrap().get_coords();
    assert!(y > -85_000);
    field.player = Hero::new(x);
    field.aliens.destroy_bomb();
    let mut hero_x = x;
    while field.player.state() == State::Alive {
        now += 16;
        let alien_x = field.aliens.alien(0).unwrap().get_coords().0;
        let intents = if alien_x > hero_x + 500 {
            LEFT
        } else if alien_x < hero_x - 500 {
            RIGHT
        } else {
            IDLE
        };
        field.tick_with(&mut game, intents, now, 0);
        hero_x = field.player.get_coords().0;
    }
    assert_eq!(field.player.state(), State::Dying);
    assert!(game.lives() < 5);
}

#[test]
fn the_round_is_won_when_the_hero_lives_and_every_alien_is_dead() {
    let mut game = Game::new();
    let mut field = field_with(1, 1, -7000);
    let mut now = 0;
    field.tick_with(&mut game, FIRE, 16, 0);
    while field.aliens.alien(0).unwrap().state() == State::Alive {
        now += 16;
        assert_eq!(field.tick_with(&mut game, IDLE, now, 0), None);
    }
    let killed = now;
    assert_eq!(game.score(), 100);
    field.aliens.destroy_bomb();
    assert_eq!(field.tick_with(&mut game, IDLE, killed + 10_999, 0), None);
    assert_eq!(field.aliens.alien(0).unwrap().state(), State::Dying);
    assert_eq!(field.tick_with(&mut game, IDLE, killed + 11_000, 0), Some(LevelOutcome::Victory));
    assert!(field.aliens.all_dead());
    assert_eq!(field.outcome(&game), Some(LevelOutcome::Victory));
}

#[test]
fn an_empty_playfield_is_won_at_once() {
    let mut game = Game::new();
    let mut field = field_with(0, 0, 0);
    assert_eq!(field.outcome(&game), Some(LevelOutcome::Victory));
    assert_eq!(field.tick(&mut game, IDLE, 16), Some(LevelOutcome::Victory));
}

#[test]
fn without_lives_the_round_is_lost_even_on_an_empty_playfield() {
    let mut game = Game::with_lives(0);
    let mut field = field_with(0, 0, 0);
    assert_eq!(field.outcome(&game), Some(LevelOutcome::Died));
    assert_eq!(field.tick(&mut game, IDLE, 16), Some(LevelOutcome::Died));
}

#[test]
fn the_phases_of_a_tick_can_be_played_one_by_one() {
    let mut game = Game::new();
    let mut field = field_with(1, 1, 0);
    field.advance(16);
    assert_eq!(field.aliens.alien(0).unwrap().get_coords(), (-100, 60_000, 0));
    field.steer(Intents { move_left: true, move_right: false, fire: true });
    assert_eq!(field.player.get_coords().0, 1000);
    assert_eq!(field.player.bullet(), Some(Bullet { x: 1000, y: -83_500, z: 0, speed: 2000 }));
    field.aliens.fire_with(0);
    field.resolve_shot(&mut game, 16);
    field.resolve_bomb(&mut game, 16);
    field.resolve_contact(&mut game, 16);
    field.resolve_breach(&mut game, 16);
    field.resolve(&mut game, 16);
    assert_eq!(field.player.state(), State::Alive);
    assert_eq!(field.aliens.bomb(), Some(Bullet { x: -100, y: 55_000, z: 0, speed: -1000 }));
    assert_eq!(game.lives(), 3);
    assert_eq!(game.score(), 0);
    assert_eq!(field.outcome(&game), None);
}

#[test]
fn random_ticks_play_a_whole_round_to_an_end() {
    let mut game = Game::new();
    let mut field = Playfield::new(&game, 0);
    let mut now = 0;
    let mut outcome = None;
    let mut ticks = 0;
    while outcome.is_none() {
        now += 16;
        ticks += 1;
        let intents = Intents { move_left: ticks % 400 < 200, move_right: false, fire: true };
        outcome = field.tick(&mut game, intents, now);
        assert_eq!(field.aliens.len(), 55);
        assert!(game.score() >= 0 && game.score() <= MAX_SCORE);
        assert_eq!(game.score() % 100, 0);
        assert!(game.lives() <= 3);
        assert!(ticks < 2_000_000);
    }
    match outcome {
        Some(LevelOutcome::Victory) => {
            assert!(game.lives() > 0);
            assert!(field.aliens.all_dead());
            assert_eq!(field.player.state(), State::Alive);
            assert!(game.score() <= 5500);
        }
        Some(LevelOutcome::Died) => {
            assert!(game.lives() < 1);
            assert!(field.player.state() != State::Dying);
        }
        None => unreachable!(),
    }
}

#[test]
fn a_round_that_ends_counts_as_won_if_a_life_is_left() {
    assert_eq!(Game::with_lives(1).standing(), LevelOutcome::Victory);
    assert_eq!(Game::with_lives(99).standing(), LevelOutcome::Victory);
    assert_eq!(Game::with_lives(0).standing(), LevelOutcome::Died);
    assert_eq!(Game::with_lives(-1).standing(), LevelOutcome::Died);
}
