use arena_core::fixed::FP;
use arena_core::combat::{Attack, DamageText, apply_damage_with_roll, apply_damage,
    enemy_died_with_loot};
use arena_core::enemy::{Enemy, DORMANT_X, DORMANT_Y};
use arena_core::money::Money;
use arena_core::player::Player;
use arena_core::vec2::Vec2Fx;

const U: i64 = FP;

fn test_enemy(x: i64, y: i64, active: bool) -> Enemy {
    Enemy::new(200 * U, 30 * U, U, false, Vec2Fx { x: 50 * U, y: 50 * U }, active, 1500, U,
        Vec2Fx { x, y })
}

#[test]
fn critical_damage_formula() {
    // weaponDamage = 10, criticalDamage = 0.02: a critical hit deals
    // 10 * 100 * 0.02 = 20, not 10 * 1.02.
    let mut player = Player::new(800 * U, 600 * U);
    player.weapon.damage = 10 * U;
    player.stats.critical_damage = 200;
    let mut enemy = test_enemy(100 * U, 100 * U, true);
    enemy.health = 100 * U;
    let mut texts = DamageText::new();
    apply_damage_with_roll(&player, &mut enemy, true, &mut texts);
    assert_eq!(enemy.health, 100 * U - 20 * U);
    assert_eq!(texts.floating_texts.len(), 1);
    assert!(texts.floating_texts[0].crit);
    assert_eq!(texts.floating_texts[0].damage, 20 * U);
}

#[test]
fn non_critical_damage_is_weapon_damage() {
    let mut player = Player::new(800 * U, 600 * U);
    player.weapon.damage = 10 * U;
    let mut enemy = test_enemy(100 * U, 100 * U, true);
    enemy.health = 100 * U;
    let mut texts = DamageText::new();
    apply_damage_with_roll(&player, &mut enemy, false, &mut texts);
    assert_eq!(enemy.health, 90 * U);
    assert!(!texts.floating_texts[0].crit);
}

#[test]
fn zero_chance_never_crits_full_chance_always_does() {
    // Exercises the random roll through the public damage path: with
    // chance 0 the damage must be the plain weapon damage, with chance
    // 1.0 it must be the critical formula, every time.
    let mut player = Player::new(800 * U, 600 * U);
    player.weapon.damage = 10 * U;
    player.stats.critical_damage = 200;
    for _ in 0..20 {
        player.stats.critical_chance = 0;
        let mut enemy = test_enemy(100 * U, 100 * U, true);
        enemy.health = 100 * U;
        let mut texts = DamageText::new();
        apply_damage(&player, &mut enemy, &mut texts);
        assert_eq!(enemy.health, 90 * U);

        player.stats.critical_chance = FP;
        let mut enemy = test_enemy(100 * U, 100 * U, true);
        enemy.health = 100 * U;
        let mut texts = DamageText::new();
        apply_damage(&player, &mut enemy, &mut texts);
        assert_eq!(enemy.health, 80 * U);
    }
}

#[test]
fn aoe_damages_at_most_the_target_cap() {
    // Five active enemies inside the damage radius, cap of three: the
    // first three in pool order are damaged once each, the other two are
    // untouched (the enemy at the cap boundary takes nothing).
    let mut player = Player::new(800 * U, 600 * U);
    player.weapon.damage = 10 * U;
    player.weapon.aoe_count = 3;
    player.stats.critical_chance = 0;
    let hit = Vec2Fx { x: 200 * U, y: 200 * U };
    let mut enemies: Vec<Enemy> = Vec::new();
    for k in 0..5 {
        let mut e = test_enemy(200 * U + k * U, 200 * U, true);
        e.health = 100 * U;
        enemies.push(e);
    }
    let mut coins: Vec<Money> = Vec::new();
    let mut texts = DamageText::new();
    let removed = arena_core::combat::apply_area_of_effect_damage(&mut enemies, hit,
        &mut coins, &mut player, &mut texts);
    assert!(!removed);
    assert_eq!(enemies[0].health, 90 * U);
    assert_eq!(enemies[1].health, 90 * U);
    assert_eq!(enemies[2].health, 90 * U);
    assert_eq!(enemies[3].health, 100 * U);
    assert_eq!(enemies[4].health, 100 * U);
    assert_eq!(texts.floating_texts.len(), 3);
}

#[test]
fn aoe_skips_dormant_and_distant_enemies() {
    let mut player = Player::new(800 * U, 600 * U);
    player.weapon.damage = 10 * U;
    player.stats.critical_chance = 0;
    let hit = Vec2Fx { x: 200 * U, y: 200 * U };
    let mut enemies = vec![
        test_enemy(200 * U, 200 * U, false),   // dormant, in radius
        test_enemy(700 * U, 500 * U, true),    // active, out of radius
        test_enemy(210 * U, 200 * U, true),    // active, in radius
    ];
    for e in enemies.iter_mut() {
        e.health = 100 * U;
    }
    let mut coins: Vec<Money> = Vec::new();
    let mut texts = DamageText::new();
    arena_core::combat::apply_area_of_effect_damage(&mut enemies, hit, &mut coins,
        &mut player, &mut texts);
    assert_eq!(enemies[0].health, 100 * U);
    assert_eq!(enemies[1].health, 100 * U);
    assert_eq!(enemies[2].health, 90 * U);
}

#[test]
fn kill_grants_experience_drops_coin_and_retires() {
    let mut player = Player::new(800 * U, 600 * U);
    let exp_before = player.stats.level.experience;
    let mut enemy = test_enemy(123 * U, 45 * U, true);
    enemy.health = 0;
    enemy.experience = 4 * U;
    let mut coins: Vec<Money> = Vec::new();
    enemy_died_with_loot(&mut enemy, &mut player, &mut coins, 7);
    assert_eq!(player.stats.level.experience, exp_before + 4 * U);
    assert_eq!(coins.len(), 1);
    assert_eq!(coins[0].value, 7);
    assert_eq!(coins[0].position, Vec2Fx { x: 123 * U, y: 45 * U });
    assert!(!coins[0].collected);
    assert!(!enemy.active);
    assert_eq!(enemy.position.x, DORMANT_X);
    assert_eq!(enemy.position.y, DORMANT_Y);
}

#[test]
fn surviving_enemy_drops_nothing() {
    let mut player = Player::new(800 * U, 600 * U);
    let mut enemy = test_enemy(123 * U, 45 * U, true);
    enemy.health = 5 * U;
    let mut coins: Vec<Money> = Vec::new();
    enemy_died_with_loot(&mut enemy, &mut player, &mut coins, 7);
    assert!(coins.is_empty());
    assert!(enemy.active);
}

#[test]
fn projectile_hit_radius_from_box_diagonal() {
    // A 50x50 enemy has diagonal 70.71, so the hit radius is 40.71
    // units: a projectile 40 units away hits, one 41 units away misses.
    let enemy = test_enemy(200 * U, 200 * U, true);
    let hit = Attack::new(Vec2Fx { x: 240 * U, y: 200 * U }, Vec2Fx { x: 0, y: 0 }, 0);
    let miss = Attack::new(Vec2Fx { x: 241 * U, y: 200 * U }, Vec2Fx { x: 0, y: 0 }, 0);
    assert!(hit.check_collision(&enemy));
    assert!(!miss.check_collision(&enemy));
}

#[test]
fn projectile_flies_with_direction_and_speed() {
    let mut bullet = Attack::new(Vec2Fx { x: 100 * U, y: 100 * U },
        Vec2Fx { x: FP, y: 0 }, 400 * U);
    bullet.update(16);
    // 400 units/s for 16 ms = 6.4 units east.
    assert_eq!(bullet.position, Vec2Fx { x: 100 * U + 64_000, y: 100 * U });
}

#[test]
fn out_of_bounds_projectile_filtered_before_collision() {
    // A projectile at x = -1 on an 800-wide map is removed this frame
    // even though it sits on top of an enemy: the bounds check runs
    // before any collision is considered, so the enemy takes no damage.
    let mut player = Player::new(800 * U, 600 * U);
    player.stats.critical_chance = 0;
    let mut bullets = vec![Attack::new(Vec2Fx { x: -U, y: 100 * U },
        Vec2Fx { x: 0, y: 0 }, 0)];
    let mut enemy = test_enemy(-U, 100 * U, true);
    enemy.health = 100 * U;
    let mut enemies = vec![enemy];
    let mut coins: Vec<Money> = Vec::new();
    let mut texts = DamageText::new();
    Attack::attack(0, &mut player, &mut bullets, &mut enemies, &mut coins, &mut texts,
        800 * U, 600 * U, 0);
    assert!(bullets.is_empty());
    assert_eq!(enemies[0].health, 100 * U);
    assert!(texts.floating_texts.is_empty());
}

#[test]
fn dormant_enemy_never_triggers_a_hit() {
    // A projectile sitting on a dormant slot keeps flying: dormant
    // enemies contribute nothing to collision.
    let mut player = Player::new(800 * U, 600 * U);
    let mut bullets = vec![Attack::new(Vec2Fx { x: 200 * U, y: 200 * U },
        Vec2Fx { x: 0, y: 0 }, 0)];
    let mut enemies = vec![test_enemy(200 * U, 200 * U, false)];
    let mut coins: Vec<Money> = Vec::new();
    let mut texts = DamageText::new();
    Attack::attack(0, &mut player, &mut bullets, &mut enemies, &mut coins, &mut texts,
        800 * U, 600 * U, 0);
    assert_eq!(bullets.len(), 1);
    assert_eq!(enemies[0].health, 30 * U);
}

#[test]
fn landed_projectile_is_consumed_and_splashes() {
    let mut player = Player::new(800 * U, 600 * U);
    player.stats.critical_chance = 0;
    player.weapon.damage = 10 * U;
    // Keep the fire gate closed so the tick only moves and resolves.
    player.weapon.last_attack_time = 0;
    let mut bullets = vec![Attack::new(Vec2Fx { x: 200 * U, y: 200 * U },
        Vec2Fx { x: 0, y: 0 }, 0)];
    let mut enemy = test_enemy(200 * U, 200 * U, true);
    enemy.health = 100 * U;
    let mut enemies = vec![enemy];
    let mut coins: Vec<Money> = Vec::new();
    let mut texts = DamageText::new();
    Attack::attack(0, &mut player, &mut bullets, &mut enemies, &mut coins, &mut texts,
        800 * U, 600 * U, 0);
    assert!(bullets.is_empty());
    assert_eq!(enemies[0].health, 90 * U);
}

#[test]
fn surviving_projectile_keeps_flying() {
    let mut player = Player::new(800 * U, 600 * U);
    let mut bullets = vec![Attack::new(Vec2Fx { x: 100 * U, y: 100 * U },
        Vec2Fx { x: FP, y: 0 }, 400 * U)];
    let mut enemies: Vec<Enemy> = Vec::new();
    let mut coins: Vec<Money> = Vec::new();
    let mut texts = DamageText::new();
    Attack::attack(0, &mut player, &mut bullets, &mut enemies, &mut coins, &mut texts,
        800 * U, 600 * U, 16);
    assert_eq!(bullets.len(), 1);
    assert_eq!(bullets[0].position, Vec2Fx { x: 100 * U + 64_000, y: 100 * U });
}

#[test]
fn fire_gate_arms_on_cooldown_and_range() {
    let mut player = Player::new(800 * U, 600 * U);
    player.position = Vec2Fx { x: 400 * U, y: 300 * U };
    let mut enemy = test_enemy(500 * U, 300 * U, true); // 100 units: in range
    enemy.health = 100 * U;
    let mut enemies = vec![enemy];
    let mut bullets: Vec<Attack> = Vec::new();
    let mut coins: Vec<Money> = Vec::new();
    let mut texts = DamageText::new();
    // The 833 ms cooldown has elapsed by the one-second mark.
    Attack::attack(1_000, &mut player, &mut bullets, &mut enemies, &mut coins, &mut texts,
        800 * U, 600 * U, 0);
    assert!(player.weapon.can_shoot);
    assert_eq!(player.weapon.last_attack_time, 1_000);
    // Immediately after, the cooldown is running again: disarmed.
    Attack::attack(1_001, &mut player, &mut bullets, &mut enemies, &mut coins, &mut texts,
        800 * U, 600 * U, 0);
    assert!(!player.weapon.can_shoot);
    // An elapsed cooldown with no target in range also disarms.
    player.weapon.can_shoot = true;
    enemies[0].position = Vec2Fx { x: 800 * U, y: 600 * U };
    Attack::attack(5_000, &mut player, &mut bullets, &mut enemies, &mut coins, &mut texts,
        800 * U, 600 * U, 0);
    assert!(!player.weapon.can_shoot);
}

#[test]
fn weapon_system_orbits_and_fires() {
    let mut player = Player::new(800 * U, 600 * U);
    player.position = Vec2Fx { x: 400 * U, y: 300 * U };
    player.weapon.can_shoot = true;
    let enemy = test_enemy(500 * U, 300 * U, true); // due east, in range
    let mut bullets: Vec<Attack> = Vec::new();
    Attack::weapon_system(&mut player, &enemy, &mut bullets);
    // The gun sits on the 40-unit orbit circle toward the target.
    assert_eq!(player.weapon.position, Vec2Fx { x: 440 * U, y: 300 * U });
    assert_eq!(player.weapon.direction, Vec2Fx { x: FP, y: 0 });
    assert_eq!(bullets.len(), 1);
    assert_eq!(bullets[0].position, Vec2Fx { x: 440 * U, y: 300 * U });
    assert_eq!(bullets[0].speed, player.weapon.speed);
    // Out of range: the weapon tracks but does not fire.
    let far = test_enemy(790 * U, 300 * U, true);
    Attack::weapon_system(&mut player, &far, &mut bullets);
    assert_eq!(bullets.len(), 1);
    // Disarmed: no shot even in range.
    player.weapon.can_shoot = false;
    Attack::weapon_system(&mut player, &enemy, &mut bullets);
    assert_eq!(bullets.len(), 1);
}

#[test]
fn volley_targets_nearest_enemies_first() {
    let mut player = Player::new(800 * U, 600 * U);
    player.position = Vec2Fx { x: 400 * U, y: 300 * U };
    player.weapon.can_shoot = true;
    player.weapon.count = 2;
    // Three enemies; the two nearest are east (100) and west (150).
    let enemies = vec![
        test_enemy(650 * U, 300 * U, true),    // 250 away
        test_enemy(500 * U, 300 * U, true),    // 100 away: nearest
        test_enemy(250 * U, 300 * U, true),    // 150 away: second
    ];
    let mut bullets: Vec<Attack> = Vec::new();
    Attack::draw_weapon_system(&enemies, &mut player, &mut bullets);
    assert_eq!(bullets.len(), 2);
    assert_eq!(bullets[0].direction, Vec2Fx { x: FP, y: 0 });
    assert_eq!(bullets[1].direction, Vec2Fx { x: -FP, y: 0 });
}

#[test]
fn closest_enemy_ties_break_to_pool_order() {
    let mut player = Player::new(800 * U, 600 * U);
    player.position = Vec2Fx { x: 400 * U, y: 300 * U };
    let enemies = vec![
        test_enemy(400 * U, 300 * U, false),   // dormant: skipped
        test_enemy(500 * U, 300 * U, true),    // 100 east
        test_enemy(300 * U, 300 * U, true),    // 100 west: tie, later
    ];
    assert_eq!(player.find_closest_enemy(&enemies), Some(1));
    let none: Vec<Enemy> = vec![test_enemy(0, 0, false)];
    assert_eq!(player.find_closest_enemy(&none), None);
}

#[test]
fn floating_text_drifts_and_expires() {
    let mut texts = DamageText::new();
    let mut player = Player::new(800 * U, 600 * U);
    player.weapon.damage = 10 * U;
    let mut enemy = test_enemy(100 * U, 100 * U, true);
    enemy.health = 100 * U;
    apply_damage_with_roll(&player, &mut enemy, false, &mut texts);
    assert_eq!(texts.floating_texts.len(), 1);
    texts.update(500);
    assert_eq!(texts.floating_texts.len(), 1);
    // The text drifts upward at 50 units/s.
    assert_eq!(texts.floating_texts[0].position.y, 100 * U - 25 * U);
    assert_eq!(texts.floating_texts[0].lifetime_ms, 500);
    texts.update(500);
    assert!(texts.floating_texts.is_empty());
}
