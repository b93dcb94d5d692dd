use invaders::aliens::{
    random_explosion_vector, Alien, Frame, Movement, ALIEN_EXPLOSION_SECONDS, ALIEN_FRAGMENTS,
    ALIEN_FRAME_SECONDS, ALIEN_HEIGHT, ALIEN_WIDTH,
};
use invaders::explosion::Trajectory;
use invaders::lifecycle::State;

fn scatters(v: i32) -> bool {
    (-500 <= v && v < -100) || (100 <= v && v < 500)
}

#[test]
fn alien_dimensions() {
    assert_eq!(ALIEN_HEIGHT, 10_000);
    assert_eq!(ALIEN_WIDTH, 13_000);
    assert_eq!(ALIEN_FRAGMENTS, 18);
    assert_eq!(ALIEN_EXPLOSION_SECONDS, 10);
    assert_eq!(ALIEN_FRAME_SECONDS, 1);
}

#[test]
fn a_new_alien_is_alive_at_the_centre() {
    let alien = Alien::new(42);
    assert_eq!(alien.get_coords(), (0, 0, 0));
    assert_eq!(alien.state(), State::Alive);
    assert_eq!(alien.movement(), Movement::Right);
    assert_eq!(alien.frame(), Frame::Base);
    assert_eq!(alien.drop_steps(), 0);
    assert_eq!(alien.seconds_since_death(1000), None);
}

#[test]
fn a_new_alien_has_its_fragments_at_rest() {
    let alien = Alien::new(0);
    assert_eq!(alien.trajectories().len(), 18);
    for fragment in alien.trajectories() {
        assert_eq!(*fragment, Trajectory { x: 0, y: 0, z: 0 });
    }
}

#[test]
fn spawn_places_the_alien() {
    let mut alien = Alien::new(0);
    alien.spawn(-65000, 60000, 7);
    assert_eq!(alien.get_coords(), (-65000, 60000, 7));
    assert_eq!(alien.state(), State::Alive);
    assert_eq!(alien.movement(), Movement::Right);
}

#[test]
fn die_makes_the_alien_explode() {
    let mut alien = Alien::new(0);
    alien.spawn(13000, 20000, 0);
    alien.die(2500);
    assert_eq!(alien.state(), State::Dying);
    assert_eq!(alien.seconds_since_death(2500), Some(0));
    assert_eq!(alien.seconds_since_death(5600), Some(3));
    assert_eq!(alien.get_coords(), (13000, 20000, 0));
}

#[test]
fn die_scatters_every_fragment() {
    let mut alien = Alien::new(0);
    alien.die(0);
    assert_eq!(alien.trajectories().len(), 18);
    for fragment in alien.trajectories() {
        assert!(scatters(fragment.x));
        assert!(scatters(fragment.y));
        assert!(scatters(fragment.z));
    }
}

#[test]
fn die_twice_changes_nothing_the_second_time() {
    let mut alien = Alien::new(0);
    alien.die(1000);
    let first: Vec<Trajectory> = alien.trajectories().clone();
    alien.die(9000);
    assert_eq!(alien.state(), State::Dying);
    assert_eq!(alien.seconds_since_death(9000), Some(8));
    assert_eq!(*alien.trajectories(), first);
}

#[test]
fn an_alive_alien_shuffles_right_towards_falling_x() {
    let mut alien = Alien::new(0);
    alien.spawn(0, 60000, 0);
    alien.animate(100, 16);
    assert_eq!(alien.get_coords(), (-100, 60000, 0));
    alien.animate(108, 32);
    assert_eq!(alien.get_coords(), (-208, 60000, 0));
    assert_eq!(alien.drop_steps(), 0);
}

#[test]
fn an_alien_with_no_step_stays_in_place() {
    let mut alien = Alien::new(0);
    alien.spawn(0, 10000, 0);
    alien.animate(0, 16);
    assert_eq!(alien.get_coords(), (0, 10000, 0));
}

#[test]
fn the_pose_changes_after_more_than_a_second() {
    let mut alien = Alien::new(0);
    alien.animate(0, 1000);
    assert_eq!(alien.frame(), Frame::Base);
    alien.animate(0, 1999);
    assert_eq!(alien.frame(), Frame::Base);
    alien.animate(0, 2000);
    assert_eq!(alien.frame(), Frame::Translated);
    alien.animate(0, 3999);
    assert_eq!(alien.frame(), Frame::Translated);
    alien.animate(0, 4000);
    assert_eq!(alien.frame(), Frame::Base);
}

#[test]
fn a_dying_alien_neither_moves_nor_changes_pose() {
    let mut alien = Alien::new(0);
    alien.spawn(500, 600, 0);
    alien.die(0);
    alien.animate(100, 5000);
    assert_eq!(alien.get_coords(), (500, 600, 0));
    assert_eq!(alien.frame(), Frame::Base);
    assert_eq!(alien.state(), State::Dying);
}

#[test]
fn the_explosion_of_an_alien_lasts_more_than_ten_seconds() {
    let mut alien = Alien::new(0);
    alien.die(1000);
    alien.animate(100, 11_000);
    assert_eq!(alien.state(), State::Dying);
    alien.animate(100, 11_999);
    assert_eq!(alien.state(), State::Dying);
    alien.animate(100, 12_000);
    assert_eq!(alien.state(), State::Dead);
    assert_eq!(alien.seconds_since_death(12_000), Some(11));
}

#[test]
fn a_dead_alien_stays_dead() {
    let mut alien = Alien::new(0);
    alien.spawn(1, 2, 3);
    alien.die(0);
    alien.animate(100, 20_000);
    assert_eq!(alien.state(), State::Dead);
    alien.animate(100, 40_000);
    alien.die(50_000);
    assert_eq!(alien.state(), State::Dead);
    assert_eq!(alien.get_coords(), (1, 2, 3));
    assert_eq!(alien.seconds_since_death(50_000), Some(50));
}

#[test]
fn the_fragments_of_a_dead_alien_still_scatter() {
    let mut alien = Alien::new(0);
    alien.die(0);
    let first: Vec<Trajectory> = alien.trajectories().clone();
    alien.animate(100, 20_000);
    assert_eq!(alien.state(), State::Dead);
    assert_eq!(*alien.trajectories(), first);
    for fragment in alien.trajectories() {
        assert!(scatters(fragment.x) && scatters(fragment.y) && scatters(fragment.z));
    }
}

#[test]
fn an_alien_stops_at_the_edge_of_the_coordinates() {
    let mut alien = Alien::new(0);
    alien.spawn(i32::MIN + 50, 0, 0);
    alien.animate(100, 0);
    assert_eq!(alien.get_coords(), (i32::MIN, 0, 0));
    alien.animate(i32::MAX, 0);
    assert_eq!(alien.get_coords(), (i32::MIN, 0, 0));
}

#[test]
fn an_explosion_vector_scatters() {
    let mut rng = rand::thread_rng();
    for _ in 0..1000 {
        assert!(scatters(random_explosion_vector(&mut rng)));
    }
}

#[test]
fn two_aliens_scatter_differently() {
    let mut one = Alien::new(0);
    let mut other = Alien::new(0);
    one.die(0);
    other.die(0);
    assert_ne!(*one.trajectories(), *other.trajectories());
}
