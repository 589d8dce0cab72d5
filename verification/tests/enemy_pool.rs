use arena_core::fixed::FP;
use arena_core::enemy::{Enemy, DORMANT_X, DORMANT_Y};
use arena_core::player::Player;
use arena_core::waves::Waves;

const U: i64 = FP;

#[test]
fn pool_spawns_all_dormant_with_elite_reserve() {
    // capacity = 300, elite reserve = 20: every slot starts dormant at
    // the off-map parking spot; the last 20 slots are flagged elite.
    let enemies = Enemy::spawn_enemy_pool(300, 20, 0);
    assert_eq!(enemies.enemy_pool.len(), 300);
    for (i, e) in enemies.enemy_pool.iter().enumerate() {
        assert!(!e.active);
        assert_eq!(e.position.x, DORMANT_X);
        assert_eq!(e.position.y, DORMANT_Y);
        assert_eq!(e.elite, i >= 280);
        assert_eq!(e.health, 30 * U);
        assert_eq!(e.damage, U);
        assert!(e.movement_speed >= 150 * U && e.movement_speed <= 200 * U);
        assert!(e.experience >= U && e.experience <= 10 * U);
    }
}

#[test]
fn activating_twenty_slots_leaves_rest_dormant() {
    // The first-wave budget wakes exactly 20 non-elite slots; all other
    // slots stay dormant at (-100, -100).
    let mut player = Player::new(800 * U, 600 * U);
    let mut enemies = Enemy::spawn_enemy_pool(300, 20, 0);
    let mut waves = Waves::new(1, 20_000, 0);
    waves.start_wave(&mut player, &mut enemies, 0, 800 * U, 600 * U);
    let active: Vec<&Enemy> = enemies.enemy_pool.iter().filter(|e| e.active).collect();
    assert_eq!(active.len(), 20);
    assert!(active.len() <= enemies.enemy_pool.len());
    for e in enemies.enemy_pool.iter() {
        if !e.active {
            assert_eq!(e.position.x, DORMANT_X);
            assert_eq!(e.position.y, DORMANT_Y);
        } else {
            assert!(!e.elite);
            // Active slots sit on the map perimeter.
            let on_edge = (e.position.y == 0 && e.position.x >= 0 && e.position.x <= 800 * U)
                || (e.position.x == 800 * U && e.position.y >= 0 && e.position.y <= 600 * U)
                || (e.position.y == 600 * U && e.position.x >= 0 && e.position.x <= 800 * U)
                || (e.position.x == 0 && e.position.y >= 0 && e.position.y <= 600 * U);
            assert!(on_edge);
        }
    }
}

#[test]
fn timed_activation_wakes_first_dormant_non_elite() {
    let player = Player::new(800 * U, 600 * U);
    let mut enemies = Enemy::spawn_enemy_pool(10, 2, 0);
    // Not yet due: the base spawn interval is 2000 ms.
    Enemy::enemy_collection(1_000, &mut enemies, &player, 800 * U, 600 * U);
    assert!(enemies.enemy_pool.iter().all(|e| !e.active));
    // Due: exactly one slot wakes, and it is the first one.
    Enemy::enemy_collection(2_001, &mut enemies, &player, 800 * U, 600 * U);
    let active_count = enemies.enemy_pool.iter().filter(|e| e.active).count();
    assert_eq!(active_count, 1);
    assert!(enemies.enemy_pool[0].active);
    assert_eq!(enemies.last_enemy_spawn_time, 2_001);
}

#[test]
fn timed_activation_never_picks_an_active_slot() {
    let player = Player::new(800 * U, 600 * U);
    let mut enemies = Enemy::spawn_enemy_pool(3, 0, 0);
    let mut now: u64 = 0;
    for round in 1..=3u64 {
        now += 3_000;
        let before: Vec<bool> = enemies.enemy_pool.iter().map(|e| e.active).collect();
        Enemy::enemy_collection(now, &mut enemies, &player, 800 * U, 600 * U);
        let after: Vec<bool> = enemies.enemy_pool.iter().map(|e| e.active).collect();
        // Exactly one slot flipped from dormant to active per round, and
        // no active slot was reselected.
        let mut flips = 0;
        for i in 0..3 {
            if before[i] != after[i] {
                assert!(!before[i] && after[i]);
                flips += 1;
            }
        }
        assert_eq!(flips, 1);
        assert_eq!(after.iter().filter(|a| **a).count() as u64, round);
    }
    // Every slot active: a further round changes nothing.
    now += 3_000;
    Enemy::enemy_collection(now, &mut enemies, &player, 800 * U, 600 * U);
    assert_eq!(enemies.enemy_pool.iter().filter(|e| e.active).count(), 3);
}

#[test]
fn retirement_rescales_and_is_idempotent() {
    // Retiring rescales from the player's power: with the starting
    // weapon (damage 10, critical damage 0.01) health becomes
    // 10 * 0.01 * 1.25 * 100 = 12.5 and damage 30% of max health = 3.
    let player = Player::new(800 * U, 600 * U);
    let mut enemies = Enemy::spawn_enemy_pool(2, 0, 0);
    let mut e = enemies.enemy_pool.remove(0);
    e.active = true;
    e.set_enemy_idle(&player);
    assert!(!e.active);
    assert_eq!(e.position.x, DORMANT_X);
    assert_eq!(e.position.y, DORMANT_Y);
    assert_eq!(e.health, 125_000);
    assert_eq!(e.damage, 30_000);
    assert_eq!(e.last_attack_time, 0);
    // Retiring an already-dormant slot changes nothing further.
    let snapshot = (e.active, e.position, e.health, e.damage, e.last_attack_time, e.elite,
        e.movement_speed, e.experience);
    e.set_enemy_idle(&player);
    assert_eq!(snapshot, (e.active, e.position, e.health, e.damage, e.last_attack_time,
        e.elite, e.movement_speed, e.experience));
}

#[test]
fn melee_attack_respects_cooldown_and_overlap() {
    let mut player = Player::new(800 * U, 600 * U);
    let mut enemies = Enemy::spawn_enemy_pool(1, 0, 0);
    let mut e = enemies.enemy_pool.remove(0);
    e.active = true;
    e.damage = 2 * U;
    // Place the enemy on top of the player: boxes overlap.
    e.position = player.position;
    let health0 = player.stats.health;
    e.attack(&mut player, 2_000);
    assert_eq!(player.stats.health, health0 - 2 * U);
    assert_eq!(e.last_attack_time, 2_000);
    // Cooldown (1500 ms) not yet elapsed: no second hit.
    e.attack(&mut player, 3_000);
    assert_eq!(player.stats.health, health0 - 2 * U);
    // After the cooldown the enemy strikes again.
    e.attack(&mut player, 3_501);
    assert_eq!(player.stats.health, health0 - 4 * U);
    // A dormant enemy never attacks.
    e.active = false;
    e.last_attack_time = 0;
    e.attack(&mut player, 10_000);
    assert_eq!(player.stats.health, health0 - 4 * U);
}

#[test]
fn melee_boxes_are_centered_on_positions() {
    // The enemy's 50x50 and the player's 20x20 boxes are centered at
    // their positions: at a diagonal offset of 49 units the boxes do not
    // touch (the half-sizes sum to 35 per axis), so no damage lands; at
    // an axis offset of exactly 35 units the edges touch and it does.
    let mut player = Player::new(800 * U, 600 * U);
    player.position = arena_core::vec2::Vec2Fx { x: 400 * U, y: 300 * U };
    let mut enemies = Enemy::spawn_enemy_pool(1, 0, 0);
    let mut e = enemies.enemy_pool.remove(0);
    e.active = true;
    e.damage = 2 * U;
    e.position = arena_core::vec2::Vec2Fx { x: 400 * U - 49 * U, y: 300 * U - 49 * U };
    let health0 = player.stats.health;
    e.attack(&mut player, 2_000);
    assert_eq!(player.stats.health, health0);
    e.position = arena_core::vec2::Vec2Fx { x: 400 * U - 35 * U, y: 300 * U };
    e.attack(&mut player, 2_000);
    assert_eq!(player.stats.health, health0 - 2 * U);
}

#[test]
fn steering_moves_active_enemy_toward_player() {
    let mut player = Player::new(800 * U, 600 * U);
    player.position = arena_core::vec2::Vec2Fx { x: 400 * U, y: 300 * U };
    let mut e = Enemy::new(200 * U, 30 * U, U, false,
        arena_core::vec2::Vec2Fx { x: 50 * U, y: 50 * U }, true, 1500, U,
        arena_core::vec2::Vec2Fx { x: 0, y: 300 * U });
    let others: Vec<Enemy> = Vec::new();
    let x0 = e.position.x;
    // One 16 ms frame straight toward the player (due east).
    Enemy::movement(&mut e, &player, &others, 30 * U, 16);
    assert!(e.position.x > x0);
    assert_eq!(e.position.y, 300 * U);
    // 200 units/s for 16 ms = 3.2 units.
    assert_eq!(e.position.x - x0, 32_000);
}

#[test]
fn separation_pushes_crowded_enemies_apart() {
    let mut player = Player::new(800 * U, 600 * U);
    player.position = arena_core::vec2::Vec2Fx { x: 400 * U, y: 300 * U };
    let size = arena_core::vec2::Vec2Fx { x: 50 * U, y: 50 * U };
    // Two active enemies 10 units apart, both west of the player.
    let e0 = Enemy::new(200 * U, 30 * U, U, false, size, true, 1500, U,
        arena_core::vec2::Vec2Fx { x: 100 * U, y: 300 * U });
    let e1 = Enemy::new(200 * U, 30 * U, U, false, size, true, 1500, U,
        arena_core::vec2::Vec2Fx { x: 100 * U, y: 310 * U });
    let snapshot = vec![e0, e1];
    let mut moving = e0;
    Enemy::movement(&mut moving, &player, &snapshot, 30 * U, 16);
    // The neighbor below pushes the mover upward even as it closes in.
    assert!(moving.position.y < 300 * U);
    assert!(moving.position.x > 100 * U);
}

#[test]
fn dormant_enemy_does_not_move() {
    let player = Player::new(800 * U, 600 * U);
    let mut enemies = Enemy::spawn_enemy_pool(1, 0, 0);
    let mut e = enemies.enemy_pool.remove(0);
    let pos = e.position;
    let others: Vec<Enemy> = Vec::new();
    Enemy::movement(&mut e, &player, &others, 30 * U, 16);
    assert_eq!(e.position, pos);
}
