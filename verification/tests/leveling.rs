use arena_core::fixed::FP;
use arena_core::player::{Level, Player};

// One whole unit in fixed-point form, as a plain constant for tests.
const U: i64 = FP;

#[test]
fn gain_experience_levels_up_once() {
    // exp = 18, to-next = 20; gaining 5 crosses the threshold once:
    // exp = 3, level + 1, threshold = 20 * 1.1125 = 22.25.
    let mut level = Level::new(0, 18 * U, 20 * U);
    let leveled = level.gain_experience(5 * U);
    assert!(leveled);
    assert_eq!(level.level, 1);
    assert_eq!(level.experience, 3 * U);
    assert_eq!(level.experience_to_next_level, 222_500);
}

#[test]
fn gain_experience_below_threshold() {
    let mut level = Level::new(0, 5 * U, 20 * U);
    let leveled = level.gain_experience(3 * U);
    assert!(!leveled);
    assert_eq!(level.level, 0);
    assert_eq!(level.experience, 8 * U);
    assert_eq!(level.experience_to_next_level, 20 * U);
}

#[test]
fn gain_experience_exact_threshold_levels() {
    let mut level = Level::new(2, 0, 20 * U);
    let leveled = level.gain_experience(20 * U);
    assert!(leveled);
    assert_eq!(level.level, 3);
    assert_eq!(level.experience, 0);
}

#[test]
fn gain_experience_single_step_only() {
    // Enough experience for two levels still advances only one: the
    // residue stays above the new threshold.
    let mut level = Level::new(0, 0, 20 * U);
    let leveled = level.gain_experience(50 * U);
    assert!(leveled);
    assert_eq!(level.level, 1);
    assert_eq!(level.experience, 30 * U);
}

#[test]
fn level_up_applies_stat_boosts_once() {
    let mut player = Player::new(800 * U, 600 * U);
    let max_health_before = player.stats.max_health;
    let speed_before = player.stats.movement_speed;
    let modifier_before = player.stats.attack_speed_modifier;
    let crit_chance_before = player.stats.critical_chance;
    let crit_damage_before = player.stats.critical_damage;
    // The fresh character needs 20 experience for the first level.
    let leveled = player.level_up(20 * U);
    assert!(leveled);
    assert_eq!(player.stats.max_health, max_health_before + 2 * U);
    assert_eq!(player.stats.health, player.stats.max_health);
    assert_eq!(player.stats.movement_speed, speed_before + 5 * U);
    assert_eq!(player.stats.attack_speed_modifier, modifier_before + 50);
    assert_eq!(player.stats.critical_chance, crit_chance_before + 50);
    assert_eq!(player.stats.critical_damage, crit_damage_before + 50);
}

#[test]
fn attack_interval_of_fresh_character() {
    // 1 / (1.2 * 1.0) seconds is 833 milliseconds, rounded down.
    let player = Player::new(800 * U, 600 * U);
    assert_eq!(player.attack_interval(), 833);
}
