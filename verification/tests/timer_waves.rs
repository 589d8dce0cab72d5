use arena_core::fixed::FP;
use arena_core::timer::Timer;
use arena_core::enemy::{Enemy, DORMANT_X, DORMANT_Y};
use arena_core::player::Player;
use arena_core::waves::{Waves, WavePhase, GAME_OVER_X, GAME_OVER_Y};

const U: i64 = FP;

#[test]
fn timer_elapses_exactly_once() {
    // A 20-second timer started at zero fires at 20.01 seconds, and only
    // once until it is started again.
    let mut timer = Timer::new(20_000, 0);
    timer.start(0);
    assert!(!timer.has_elapsed(19_999));
    assert!(timer.has_elapsed(20_010));
    assert!(!timer.has_elapsed(20_011));
    assert!(!timer.has_elapsed(30_000));
    timer.start(30_000);
    assert!(timer.has_elapsed(50_000));
}

#[test]
fn timer_not_running_never_elapses() {
    let mut timer = Timer::new(1_000, 0);
    assert!(!timer.has_elapsed(5_000));
}

#[test]
fn time_left_non_increasing_and_clamped() {
    let mut timer = Timer::new(20_000, 0);
    timer.start(0);
    let a = timer.time_left(5_000);
    let b = timer.time_left(10_000);
    let c = timer.time_left(20_000);
    let d = timer.time_left(25_000);
    assert_eq!(a, 15_000);
    assert_eq!(b, 10_000);
    assert_eq!(c, 0);
    assert_eq!(d, 0);
    assert!(a >= b && b >= c && c >= d);
}

#[test]
fn time_left_zero_when_stopped() {
    let mut timer = Timer::new(20_000, 0);
    timer.start(0);
    timer.stop();
    assert_eq!(timer.time_left(1_000), 0);
}

#[test]
fn wave_end_opens_shop_and_retires_enemies() {
    let mut player = Player::new(800 * U, 600 * U);
    let mut enemies = Enemy::spawn_enemy_pool(50, 5, 0);
    let mut waves = Waves::new(1, 20_000, 0);
    // First tick starts the timer.
    assert_eq!(waves.update(&mut player, &mut enemies, 0), WavePhase::InWave);
    // Activate a few slots mid-wave, then let the timer elapse.
    waves.start_wave(&mut player, &mut enemies, 0, 800 * U, 600 * U);
    let phase = waves.update(&mut player, &mut enemies, 25_000);
    assert_eq!(phase, WavePhase::ShopIntermission);
    assert_eq!(waves.waves.wave, 2);
    for e in enemies.enemy_pool.iter() {
        assert!(!e.active);
        assert_eq!(e.position.x, DORMANT_X);
        assert_eq!(e.position.y, DORMANT_Y);
    }
}

#[test]
fn start_wave_heals_pays_and_escalates() {
    let mut player = Player::new(800 * U, 600 * U);
    player.stats.health = 1;
    let money_before = player.stats.money;
    let mut enemies = Enemy::spawn_enemy_pool(50, 5, 0);
    let mut waves = Waves::new(1, 20_000, 0);
    waves.start_wave(&mut player, &mut enemies, 7, 800 * U, 600 * U);
    assert_eq!(player.stats.health, player.stats.max_health);
    assert_eq!(player.stats.money, money_before + 100);
    assert_eq!(waves.waves.spawn_start, 25);
    assert!(waves.waves.duration.running);
    assert_eq!(waves.waves.duration.last_time, 7);
}

#[test]
fn dead_player_reaches_game_over_and_stays_there() {
    let mut player = Player::new(800 * U, 600 * U);
    let mut enemies = Enemy::spawn_enemy_pool(10, 2, 0);
    let mut waves = Waves::new(1, 20_000, 0);
    player.stats.health = 0;
    let phase = waves.update(&mut player, &mut enemies, 5);
    assert_eq!(phase, WavePhase::GameOver);
    assert_eq!(player.position.x, GAME_OVER_X);
    assert_eq!(player.position.y, GAME_OVER_Y);
    // Terminal: healing the player does not leave game over.
    player.stats.health = player.stats.max_health;
    assert_eq!(waves.update(&mut player, &mut enemies, 6), WavePhase::GameOver);
}
