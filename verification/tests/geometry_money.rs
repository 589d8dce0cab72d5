use arena_core::fixed::{FP, isqrt, clamp_i64, div_trunc};
use arena_core::vec2::{Vec2Fx, dist_sq, direction_to};
use arena_core::money::Money;
use arena_core::player::Player;
use arena_core::utilities::{random_position, random_spawn_position};

const U: i64 = FP;

#[test]
fn integer_square_root_rounds_down() {
    assert_eq!(isqrt(0), 0);
    assert_eq!(isqrt(1), 1);
    assert_eq!(isqrt(8), 2);
    assert_eq!(isqrt(9), 3);
    assert_eq!(isqrt(999_999), 999);
    assert_eq!(isqrt(1_000_000), 1_000);
    assert_eq!(isqrt(500_000_000_000), 707_106);
}

#[test]
fn truncating_division_rounds_toward_zero() {
    assert_eq!(div_trunc(7, 2), 3);
    assert_eq!(div_trunc(-7, 2), -3);
    assert_eq!(div_trunc(0, 5), 0);
    assert_eq!(clamp_i64(15, 0, 10), 10);
    assert_eq!(clamp_i64(-5, 0, 10), 0);
    assert_eq!(clamp_i64(5, 0, 10), 5);
}

#[test]
fn squared_distance_is_exact() {
    let a = Vec2Fx { x: 0, y: 0 };
    let b = Vec2Fx { x: 3 * U, y: 4 * U };
    assert_eq!(dist_sq(a, b), 25 * U * U);
}

#[test]
fn direction_is_a_fixed_point_unit_vector() {
    // (3, 4) normalizes to (0.6, 0.8).
    let dir = direction_to(Vec2Fx { x: 0, y: 0 }, Vec2Fx { x: 3 * U, y: 4 * U });
    assert_eq!(dir, Vec2Fx { x: 6_000, y: 8_000 });
    // Coincident points give the zero heading.
    let zero = direction_to(Vec2Fx { x: 7, y: 7 }, Vec2Fx { x: 7, y: 7 });
    assert_eq!(zero, Vec2Fx { x: 0, y: 0 });
}

#[test]
fn random_draws_stay_inside_their_bounds() {
    for _ in 0..50 {
        let v = random_position(10 * U, 20 * U, 30 * U, 40 * U);
        assert!(v.x >= 10 * U && v.x <= 20 * U);
        assert!(v.y >= 30 * U && v.y <= 40 * U);
        let p = random_spawn_position(800 * U, 600 * U);
        let on_edge = (p.y == 0 && p.x >= 0 && p.x <= 800 * U)
            || (p.x == 800 * U && p.y >= 0 && p.y <= 600 * U)
            || (p.y == 600 * U && p.x >= 0 && p.x <= 800 * U)
            || (p.x == 0 && p.y >= 0 && p.y <= 600 * U);
        assert!(on_edge);
    }
}

#[test]
fn coin_is_attracted_and_collected() {
    let mut player = Player::new(800 * U, 600 * U);
    player.position = Vec2Fx { x: 400 * U, y: 300 * U };
    // A coin 100 units away drifts toward the player.
    let mut coin = Money::new(Vec2Fx { x: 500 * U, y: 300 * U }, 9);
    player.collect_coin(&mut coin, 400 * U);
    assert!(coin.position.x < 500 * U);
    assert!(!coin.collected);
    // A coin within five units is collected and paid out.
    let money0 = player.stats.money;
    let mut near = Money::new(Vec2Fx { x: 400 * U + 3 * U, y: 300 * U }, 9);
    player.collect_coin(&mut near, 400 * U);
    assert!(near.collected);
    assert_eq!(player.stats.money, money0 + 9);
}

#[test]
fn coin_outside_attraction_radius_stays_put() {
    let mut player = Player::new(800 * U, 600 * U);
    player.position = Vec2Fx { x: 0, y: 0 };
    let mut coin = Money::new(Vec2Fx { x: 500 * U, y: 0 }, 9);
    player.collect_coin(&mut coin, 400 * U);
    assert_eq!(coin.position, Vec2Fx { x: 500 * U, y: 0 });
    assert!(!coin.collected);
}

#[test]
fn collected_coins_are_pruned() {
    let mut player = Player::new(800 * U, 600 * U);
    player.position = Vec2Fx { x: 400 * U, y: 300 * U };
    let mut coins = vec![
        Money::new(Vec2Fx { x: 400 * U + 2 * U, y: 300 * U }, 5),  // collected now
        Money::new(Vec2Fx { x: 700 * U, y: 300 * U }, 5),          // attracted only
    ];
    let money0 = player.stats.money;
    Money::update(&mut coins, &mut player);
    assert_eq!(coins.len(), 1);
    assert!(!coins[0].collected);
    assert_eq!(player.stats.money, money0 + 5);
}

#[test]
fn player_movement_normalizes_diagonals_and_clamps() {
    let mut player = Player::new(800 * U, 600 * U);
    player.position = Vec2Fx { x: 400 * U, y: 300 * U };
    player.stats.movement_speed = 200 * U;
    // One second straight east covers 200 units.
    player.movement(1, 0, 800 * U, 600 * U, 1_000);
    assert_eq!(player.position.x, 600 * U);
    assert_eq!(player.position.y, 300 * U);
    // A diagonal is normalized: not 200 per axis but ~141.42.
    player.position = Vec2Fx { x: 400 * U, y: 300 * U };
    player.movement(1, 1, 800 * U, 600 * U, 1_000);
    assert_eq!(player.position.x, 400 * U + 1_414_200);
    assert_eq!(player.position.y, 300 * U + 1_414_200);
    // The map edge clamps: a long stride west stops at zero.
    player.position = Vec2Fx { x: 10 * U, y: 300 * U };
    player.movement(-1, 0, 800 * U, 600 * U, 1_000);
    assert_eq!(player.position.x, 0);
}
