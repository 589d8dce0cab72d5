use arena_core::fixed::FP;
use arena_core::player::Player;
use arena_core::shop::{Shop, Item, Attributes, AttributeKind, ApplyShopItem,
    get_four_items_from_list};

const U: i64 = FP;

fn item_with(kind: AttributeKind, quantity: u32, duration: u32, price: u32) -> Item {
    Item {
        texture_name: String::from("love_potion"),
        name: String::from("Test Item"),
        price,
        description: String::from("A test item"),
        level_requirement: 0,
        attributes: Attributes { attribute_type: kind, quantity, duration },
    }
}

#[test]
fn reroll_cost_sequence() {
    // Starting at 2, the price of the fourth reroll is 2+3+2+3 = 10.
    let mut shop = Shop::new();
    assert_eq!(shop.reroll_cost, 2);
    assert_eq!(shop.increment_reroll_cost(), 5);
    assert_eq!(shop.increment_reroll_cost(), 7);
    assert_eq!(shop.increment_reroll_cost(), 10);
    assert_eq!(shop.reroll_count, 3);
}

#[test]
fn permanent_item_deducts_price_and_raises_stat() {
    let mut player = Player::new(800 * U, 600 * U);
    let money0 = player.stats.money;
    let damage0 = player.weapon.damage;
    let apply = ApplyShopItem { item: item_with(AttributeKind::WeaponDamage, 5, 0, 15) };
    apply.apply_item(&mut player);
    assert_eq!(player.stats.money, money0 - 15);
    assert_eq!(player.weapon.damage, damage0 + 5 * U);
}

#[test]
fn weapon_count_caps_at_six() {
    let mut player = Player::new(800 * U, 600 * U);
    assert_eq!(player.weapon.count, 3);
    let apply = ApplyShopItem { item: item_with(AttributeKind::WeaponCount, 5, 0, 1) };
    apply.apply_item(&mut player);
    assert_eq!(player.weapon.count, 6);
}

#[test]
fn percentage_quantities_scale_down() {
    // Attack speed, critical chance and critical damage quantities are
    // percentages: a quantity of 10 adds 0.10.
    let mut player = Player::new(800 * U, 600 * U);
    let modifier0 = player.stats.attack_speed_modifier;
    let chance0 = player.stats.critical_chance;
    let crit0 = player.stats.critical_damage;
    ApplyShopItem { item: item_with(AttributeKind::AttackSpeed, 10, 0, 1) }
        .apply_item(&mut player);
    ApplyShopItem { item: item_with(AttributeKind::CriticalChance, 10, 0, 1) }
        .apply_item(&mut player);
    ApplyShopItem { item: item_with(AttributeKind::CriticalDamage, 10, 0, 1) }
        .apply_item(&mut player);
    assert_eq!(player.stats.attack_speed_modifier, modifier0 + 1_000);
    assert_eq!(player.stats.critical_chance, chance0 + 1_000);
    assert_eq!(player.stats.critical_damage, crit0 + 1_000);
}

#[test]
fn remaining_kinds_apply_their_stat() {
    let mut player = Player::new(800 * U, 600 * U);
    let health0 = player.stats.health;
    let defense0 = player.stats.defense;
    let radius0 = player.weapon.damage_radius;
    let range0 = player.weapon.range;
    let speed0 = player.weapon.speed;
    let move0 = player.stats.movement_speed;
    let aoe0 = player.weapon.aoe_count;
    ApplyShopItem { item: item_with(AttributeKind::PlayerHealth, 5, 0, 1) }
        .apply_item(&mut player);
    ApplyShopItem { item: item_with(AttributeKind::Defense, 2, 0, 1) }
        .apply_item(&mut player);
    ApplyShopItem { item: item_with(AttributeKind::DamageRadius, 10, 0, 1) }
        .apply_item(&mut player);
    ApplyShopItem { item: item_with(AttributeKind::DamageRange, 25, 0, 1) }
        .apply_item(&mut player);
    ApplyShopItem { item: item_with(AttributeKind::BulletSpeed, 50, 0, 1) }
        .apply_item(&mut player);
    ApplyShopItem { item: item_with(AttributeKind::MovementSpeed, 20, 0, 1) }
        .apply_item(&mut player);
    ApplyShopItem { item: item_with(AttributeKind::AoeTargets, 1, 0, 1) }
        .apply_item(&mut player);
    assert_eq!(player.stats.health, health0 + 5 * U);
    assert_eq!(player.stats.defense, defense0 + 2);
    assert_eq!(player.weapon.damage_radius, radius0 + 10 * U);
    assert_eq!(player.weapon.range, range0 + 25 * U);
    assert_eq!(player.weapon.speed, speed0 + 50 * U);
    assert_eq!(player.stats.movement_speed, move0 + 20 * U);
    assert_eq!(player.weapon.aoe_count, aoe0 + 1);
}

#[test]
fn unknown_kind_only_costs_the_price() {
    let mut player = Player::new(800 * U, 600 * U);
    let money0 = player.stats.money;
    let weapon_before = (player.weapon.damage, player.weapon.count, player.weapon.range);
    let stats_before = (player.stats.health, player.stats.movement_speed,
        player.stats.critical_chance);
    ApplyShopItem { item: item_with(AttributeKind::Other, 99, 0, 8) }.apply_item(&mut player);
    assert_eq!(player.stats.money, money0 - 8);
    assert_eq!(weapon_before, (player.weapon.damage, player.weapon.count, player.weapon.range));
    assert_eq!(stats_before, (player.stats.health, player.stats.movement_speed,
        player.stats.critical_chance));
}

#[test]
fn buff_items_are_a_stub() {
    // A positive duration marks a temporary buff, which is a known gap:
    // nothing changes, not even the money.
    let mut player = Player::new(800 * U, 600 * U);
    let money0 = player.stats.money;
    let health0 = player.stats.health;
    ApplyShopItem { item: item_with(AttributeKind::PlayerHealth, 5, 30, 10) }
        .apply_item(&mut player);
    assert_eq!(player.stats.money, money0);
    assert_eq!(player.stats.health, health0);
}

#[test]
fn shop_offers_four_unlocked_items() {
    for _ in 0..10 {
        let offered = get_four_items_from_list(0);
        assert_eq!(offered.len(), 4);
        for item in offered.iter() {
            assert!(item.level_requirement == 0);
        }
        let offered = Item::shop(5);
        assert_eq!(offered.len(), 4);
        for item in offered.iter() {
            assert!(item.level_requirement <= 5);
        }
    }
}

#[test]
fn shop_never_offers_one_entry_twice() {
    // Every catalogue entry carries a different effect kind, so four
    // distinct entries means four pairwise different effects.
    for _ in 0..20 {
        let offered = Item::shop(5);
        assert_eq!(offered.len(), 4);
        for a in 0..4 {
            for b in (a + 1)..4 {
                assert_ne!(offered[a].attributes.attribute_type,
                    offered[b].attributes.attribute_type);
            }
        }
    }
}
