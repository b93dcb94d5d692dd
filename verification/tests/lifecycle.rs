use invaders::lifecycle::{Lifecycle, State};

#[test]
fn a_new_life_is_alive_without_a_time_of_death() {
    let life = Lifecycle::new();
    assert_eq!(life.state(), State::Alive);
    assert_eq!(life.time_of_death(), None);
    assert_eq!(life.seconds_since_death(5000), None);
}

#[test]
fn dying_records_the_time_of_death() {
    let mut life = Lifecycle::new();
    assert!(life.die(1234));
    assert_eq!(life.state(), State::Dying);
    assert_eq!(life.time_of_death(), Some(1234));
}

#[test]
fn dying_twice_keeps_the_first_time_of_death() {
    let mut life = Lifecycle::new();
    assert!(life.die(1000));
    assert!(!life.die(9000));
    assert_eq!(life.state(), State::Dying);
    assert_eq!(life.time_of_death(), Some(1000));
}

#[test]
fn a_dead_entity_cannot_be_killed_again() {
    let mut life = Lifecycle::new();
    life.die(0);
    assert!(life.expire(11_000, 10));
    assert_eq!(life.state(), State::Dead);
    assert!(!life.die(20_000));
    assert_eq!(life.state(), State::Dead);
    assert_eq!(life.time_of_death(), Some(0));
}

#[test]
fn seconds_since_death_are_whole_seconds() {
    let mut life = Lifecycle::new();
    life.die(500);
    assert_eq!(life.seconds_since_death(500), Some(0));
    assert_eq!(life.seconds_since_death(1499), Some(0));
    assert_eq!(life.seconds_since_death(1500), Some(1));
    assert_eq!(life.seconds_since_death(10_500), Some(10));
    assert_eq!(life.seconds_since_death(100), Some(0));
}

#[test]
fn the_explosion_ends_only_after_more_than_its_duration() {
    let mut life = Lifecycle::new();
    life.die(0);
    assert!(!life.expire(0, 10));
    assert!(!life.expire(10_000, 10));
    assert!(!life.expire(10_999, 10));
    assert_eq!(life.state(), State::Dying);
    assert!(life.expire(11_000, 10));
    assert_eq!(life.state(), State::Dead);
    assert_eq!(life.time_of_death(), Some(0));
}

#[test]
fn expire_changes_nothing_while_alive_or_dead() {
    let mut life = Lifecycle::new();
    assert!(!life.expire(u64::MAX, 0));
    assert_eq!(life.state(), State::Alive);
    life.die(0);
    assert!(life.expire(5000, 4));
    assert!(!life.expire(50_000, 4));
    assert_eq!(life.state(), State::Dead);
}

#[test]
fn only_a_dead_entity_is_revived() {
    let mut life = Lifecycle::new();
    assert!(!life.revive());
    assert_eq!(life.state(), State::Alive);
    life.die(7);
    assert!(!life.revive());
    assert_eq!(life.state(), State::Dying);
    assert_eq!(life.time_of_death(), Some(7));
    life.expire(5007, 4);
    assert!(life.revive());
    assert_eq!(life.state(), State::Alive);
    assert_eq!(life.time_of_death(), None);
}

#[test]
fn a_revived_entity_can_die_again_at_a_new_time() {
    let mut life = Lifecycle::new();
    life.die(1);
    life.expire(6000, 4);
    life.revive();
    assert!(life.die(7000));
    assert_eq!(life.state(), State::Dying);
    assert_eq!(life.time_of_death(), Some(7000));
}

#[test]
fn time_of_death_is_there_exactly_when_not_alive() {
    let mut life = Lifecycle::new();
    assert_eq!(life.state() != State::Alive, life.time_of_death().is_some());
    life.die(3);
    assert_eq!(life.state() != State::Alive, life.time_of_death().is_some());
    life.expire(20_000, 10);
    assert_eq!(life.state() != State::Alive, life.time_of_death().is_some());
    life.revive();
    assert_eq!(life.state() != State::Alive, life.time_of_death().is_some());
}
