use invaders::explosion::{
    random_explosion_vector, random_scatter, random_scatter_upward, SCATTER_MAX, SCATTER_MIN,
};

fn in_a_band(v: i32) -> bool {
    (-SCATTER_MAX <= v && v < -SCATTER_MIN) || (SCATTER_MIN <= v && v < SCATTER_MAX)
}

#[test]
fn the_bands_are_a_tenth_to_half_a_unit() {
    assert_eq!(SCATTER_MIN, 100);
    assert_eq!(SCATTER_MAX, 500);
}

#[test]
fn a_component_is_never_near_zero() {
    let mut rng = rand::thread_rng();
    for _ in 0..5000 {
        let v = random_explosion_vector(&mut rng);
        assert!(in_a_band(v), "{} is outside both bands", v);
    }
}

#[test]
fn components_come_from_both_bands() {
    let mut rng = rand::thread_rng();
    let mut negative = 0;
    let mut positive = 0;
    for _ in 0..5000 {
        if random_explosion_vector(&mut rng) < 0 {
            negative += 1;
        } else {
            positive += 1;
        }
    }
    assert!(negative > 0);
    assert!(positive > 0);
}

#[test]
fn components_are_not_stuck_at_a_bound() {
    let mut rng = rand::thread_rng();
    let mut inside_negative = false;
    let mut inside_positive = false;
    for _ in 0..5000 {
        let v = random_explosion_vector(&mut rng);
        if v < 0 && v != -SCATTER_MAX {
            inside_negative = true;
        }
        if v > 0 && v != SCATTER_MIN {
            inside_positive = true;
        }
    }
    assert!(inside_negative);
    assert!(inside_positive);
}

#[test]
fn scatter_gives_one_trajectory_per_fragment() {
    let mut rng = rand::thread_rng();
    assert_eq!(random_scatter(&mut rng, 0).len(), 0);
    assert_eq!(random_scatter(&mut rng, 18).len(), 18);
    assert_eq!(random_scatter(&mut rng, 100).len(), 100);
}

#[test]
fn every_scattered_component_is_in_a_band() {
    let mut rng = rand::thread_rng();
    for fragment in random_scatter(&mut rng, 500) {
        assert!(in_a_band(fragment.x));
        assert!(in_a_band(fragment.y));
        assert!(in_a_band(fragment.z));
    }
}

#[test]
fn upward_scatter_only_flies_upward() {
    let mut rng = rand::thread_rng();
    let debris = random_scatter_upward(&mut rng, 500);
    assert_eq!(debris.len(), 500);
    for piece in debris {
        assert!(in_a_band(piece.x));
        assert!(SCATTER_MIN <= piece.y && piece.y <= SCATTER_MAX);
        assert!(in_a_band(piece.z));
    }
}
