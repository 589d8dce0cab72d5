//! Shop economics: reroll pricing and the permanent stat effects of
//! purchased items.

use vstd::prelude::*;
use crate::fixed::{FP, STAT_LIMIT, min_cap, add_capped, add_capped_u32};
use crate::player::{Player, Stats, Weapon, AOE_CAP};
use crate::rng::random_number;

verus! {

pub struct Shop {
    pub reroll_count: u32,
    pub reroll_cost: u32,
}

impl Shop {
    pub fn new() -> (s: Shop)
        ensures
            s.reroll_cost == 2,
            s.reroll_count == 0,
    {
        Shop { reroll_cost: 2, reroll_count: 0 }
    }

    /// Escalate the reroll price: the cost rises by 3 on odd reroll
    /// counts and by 2 on even ones, so a run from the base price of 2
    /// goes 2, 5, 7, 10, ...
    pub fn increment_reroll_cost(&mut self) -> (cost: u32)
        requires
            old(self).reroll_count < u32::MAX,
            old(self).reroll_cost <= u32::MAX - 3,
        ensures
            final(self).reroll_count == old(self).reroll_count + 1,
            final(self).reroll_cost == old(self).reroll_cost
                + if (old(self).reroll_count + 1) % 2 == 1 { 3int } else { 2int },
            cost == final(self).reroll_cost,
    {
        self.reroll_count = self.reroll_count + 1;
        if self.reroll_count % 2 == 1 {
            self.reroll_cost = self.reroll_cost + 3;
        } else {
            self.reroll_cost = self.reroll_cost + 2;
        }
        self.reroll_cost
    }
}

/// The closed set of stats a shop item can permanently raise. An
/// `Other` kind stands for any unrecognised effect and applies nothing.
#[derive(Clone, Copy, PartialEq, Eq, Structural, Debug)]
pub enum AttributeKind {
    PlayerHealth,
    Defense,
    DamageRadius,
    DamageRange,
    WeaponDamage,
    WeaponCount,
    BulletSpeed,
    AttackSpeed,
    MovementSpeed,
    CriticalChance,
    CriticalDamage,
    AoeTargets,
    Other,
}

#[derive(Clone, Copy, PartialEq, Eq, Structural, Debug)]
pub struct Attributes {
    pub attribute_type: AttributeKind,
    pub quantity: u32,
    pub duration: u32,
}

#[derive(Debug)]
pub struct Item {
    pub texture_name: String,
    pub name: String,
    pub price: u32,
    pub description: String,
    pub level_requirement: u32,
    pub attributes: Attributes,
}

impl Clone for Item {
    fn clone(&self) -> (c: Item)
        ensures
            c.texture_name@ == self.texture_name@,
            c.name@ == self.name@,
            c.price == self.price,
            c.description@ == self.description@,
            c.level_requirement == self.level_requirement,
            c.attributes == self.attributes,
    {
        Item {
            texture_name: self.texture_name.clone(),
            name: self.name.clone(),
            price: self.price,
            description: self.description.clone(),
            level_requirement: self.level_requirement,
            attributes: self.attributes,
        }
    }
}

pub struct ApplyShopItem {
    pub item: Item,
}

/// The player after a permanent item effect is applied: the price is
/// deducted and exactly the named stat rises by the item's quantity
/// (stat-point quantities are percentages for rates and chances), with
/// weapon count capped at 6. An unrecognised kind only costs the price.
pub open spec fn item_applied(p: Player, item_price: u32, a: Attributes) -> Player {
    let q = a.quantity as int;
    let paid = Stats { money: (p.stats.money - item_price) as u32, ..p.stats };
    match a.attribute_type {
        AttributeKind::PlayerHealth => Player { stats: Stats {
            health: min_cap(paid.health + q * FP, STAT_LIMIT as int) as i64, ..paid }, ..p },
        AttributeKind::Defense => Player { stats: Stats {
            defense: min_cap(paid.defense + q, u32::MAX as int) as u32, ..paid }, ..p },
        AttributeKind::DamageRadius => Player { stats: paid, weapon: Weapon {
            damage_radius: min_cap(p.weapon.damage_radius + q * FP, STAT_LIMIT as int) as i64,
            ..p.weapon }, ..p },
        AttributeKind::DamageRange => Player { stats: paid, weapon: Weapon {
            range: min_cap(p.weapon.range + q * FP, STAT_LIMIT as int) as i64,
            ..p.weapon }, ..p },
        AttributeKind::WeaponDamage => Player { stats: paid, weapon: Weapon {
            damage: min_cap(p.weapon.damage + q * FP, STAT_LIMIT as int) as i64,
            ..p.weapon }, ..p },
        AttributeKind::WeaponCount => Player { stats: paid, weapon: Weapon {
            count: min_cap(p.weapon.count + q, 6) as usize, ..p.weapon }, ..p },
        AttributeKind::BulletSpeed => Player { stats: paid, weapon: Weapon {
            speed: min_cap(p.weapon.speed + q * FP, STAT_LIMIT as int) as i64,
            ..p.weapon }, ..p },
        AttributeKind::AttackSpeed => Player { stats: Stats {
            attack_speed_modifier: min_cap(paid.attack_speed_modifier + q * 100,
                STAT_LIMIT as int) as i64, ..paid }, ..p },
        AttributeKind::MovementSpeed => Player { stats: Stats {
            movement_speed: min_cap(paid.movement_speed + q * FP, STAT_LIMIT as int) as i64,
            ..paid }, ..p },
        AttributeKind::CriticalChance => Player { stats: Stats {
            critical_chance: min_cap(paid.critical_chance + q * 100, STAT_LIMIT as int) as i64,
            ..paid }, ..p },
        AttributeKind::CriticalDamage => Player { stats: Stats {
            critical_damage: min_cap(paid.critical_damage + q * 100, STAT_LIMIT as int) as i64,
            ..paid }, ..p },
        AttributeKind::AoeTargets => Player { stats: paid, weapon: Weapon {
            aoe_count: min_cap(p.weapon.aoe_count + q, AOE_CAP as int) as usize,
            ..p.weapon }, ..p },
        AttributeKind::Other => Player { stats: paid, ..p },
    }
}

impl ApplyShopItem {
    /// Apply a purchased item. An item with a positive duration is a
    /// temporary buff, which the game does not implement yet (a known
    /// gap): nothing changes. A permanent item deducts its price and
    /// applies its stat delta.
    pub fn apply_item(&self, player: &mut Player)
        requires
            old(player).wf(),
            self.item.attributes.duration == 0 ==> self.item.price <= old(player).stats.money,
        ensures
            final(player).wf(),
            *final(player) == if self.item.attributes.duration > 0 {
                *old(player)
            } else {
                item_applied(*old(player), self.item.price, self.item.attributes)
            },
    {
        if self.item.attributes.duration > 0 {
            self.apply_buff(player);
        } else {
            self.apply_item_attributes(player);
        }
    }

    /// Temporary buffs are a stub: the duration branch applies nothing.
    fn apply_buff(&self, player: &mut Player)
        ensures
            *final(player) == *old(player),
    {
    }

    fn apply_item_attributes(&self, player: &mut Player)
        requires
            old(player).wf(),
            self.item.price <= old(player).stats.money,
        ensures
            final(player).wf(),
            *final(player) == item_applied(*old(player), self.item.price, self.item.attributes),
    {
        player.stats.money = player.stats.money - self.item.price;
        let q = self.item.attributes.quantity;
        match self.item.attributes.attribute_type {
            AttributeKind::PlayerHealth => {
                player.stats.health = add_capped(player.stats.health, (q as i64) * FP,
                    STAT_LIMIT);
            },
            AttributeKind::Defense => {
                player.stats.defense = add_capped_u32(player.stats.defense, q);
            },
            AttributeKind::DamageRadius => {
                player.weapon.damage_radius = add_capped(player.weapon.damage_radius,
                    (q as i64) * FP, STAT_LIMIT);
            },
            AttributeKind::DamageRange => {
                player.weapon.range = add_capped(player.weapon.range, (q as i64) * FP,
                    STAT_LIMIT);
            },
            AttributeKind::WeaponDamage => {
                player.weapon.damage = add_capped(player.weapon.damage, (q as i64) * FP,
                    STAT_LIMIT);
            },
            AttributeKind::WeaponCount => {
                if q > 6 {
                    player.weapon.count = 6;
                } else if player.weapon.count + (q as usize) > 6 {
                    player.weapon.count = 6;
                } else {
                    player.weapon.count = player.weapon.count + (q as usize);
                }
            },
            AttributeKind::BulletSpeed => {
                player.weapon.speed = add_capped(player.weapon.speed, (q as i64) * FP,
                    STAT_LIMIT);
            },
            AttributeKind::AttackSpeed => {
                player.stats.attack_speed_modifier = add_capped(
                    player.stats.attack_speed_modifier, (q as i64) * 100, STAT_LIMIT);
            },
            AttributeKind::MovementSpeed => {
                player.stats.movement_speed = add_capped(player.stats.movement_speed,
                    (q as i64) * FP, STAT_LIMIT);
            },
            AttributeKind::CriticalChance => {
                player.stats.critical_chance = add_capped(player.stats.critical_chance,
                    (q as i64) * 100, STAT_LIMIT);
            },
            AttributeKind::CriticalDamage => {
                player.stats.critical_damage = add_capped(player.stats.critical_damage,
                    (q as i64) * 100, STAT_LIMIT);
            },
            AttributeKind::AoeTargets => {
                if (q as u64) > (AOE_CAP as u64) {
                    player.weapon.aoe_count = AOE_CAP;
                } else if player.weapon.aoe_count as u64 + q as u64 > AOE_CAP as u64 {
                    player.weapon.aoe_count = AOE_CAP;
                } else {
                    player.weapon.aoe_count = player.weapon.aoe_count + (q as usize);
                }
            },
            AttributeKind::Other => {},
        }
    }
}

/// The non-text facts of the catalogue entry at position `i`: its
/// price, level requirement and effect.
pub open spec fn catalogue_entry(i: int) -> (u32, u32, Attributes) {
    if i == 0 {
        (10u32, 0u32, Attributes { attribute_type: AttributeKind::PlayerHealth, quantity: 5,
            duration: 0 })
    } else if i == 1 {
        (15u32, 0u32, Attributes { attribute_type: AttributeKind::WeaponDamage, quantity: 5,
            duration: 0 })
    } else if i == 2 {
        (20u32, 0u32, Attributes { attribute_type: AttributeKind::AttackSpeed, quantity: 10,
            duration: 0 })
    } else if i == 3 {
        (12u32, 0u32, Attributes { attribute_type: AttributeKind::MovementSpeed, quantity: 20,
            duration: 0 })
    } else if i == 4 {
        (18u32, 1u32, Attributes { attribute_type: AttributeKind::CriticalChance, quantity: 2,
            duration: 0 })
    } else if i == 5 {
        (25u32, 1u32, Attributes { attribute_type: AttributeKind::CriticalDamage, quantity: 2,
            duration: 0 })
    } else if i == 6 {
        (40u32, 1u32, Attributes { attribute_type: AttributeKind::WeaponCount, quantity: 1,
            duration: 0 })
    } else {
        (30u32, 1u32, Attributes { attribute_type: AttributeKind::AoeTargets, quantity: 1,
            duration: 0 })
    }
}

/// The item carries the price, level requirement and effect of the
/// catalogue entry at position `i`.
pub open spec fn item_matches_entry(it: Item, i: int) -> bool {
    &&& it.price == catalogue_entry(i).0
    &&& it.level_requirement == catalogue_entry(i).1
    &&& it.attributes == catalogue_entry(i).2
}

/// The items are distinct catalogue entries: an injective index map
/// sends each offered item to the entry it came from.
pub open spec fn picks_from_catalogue(items: Seq<Item>, idx: Seq<int>) -> bool {
    &&& idx.len() == items.len()
    &&& (forall|k: int| 0 <= k < idx.len()
        ==> 0 <= #[trigger] idx[k] < 8 && item_matches_entry(items[k], idx[k]))
    &&& (forall|k1: int, k2: int| 0 <= k1 < k2 < idx.len()
        ==> #[trigger] idx[k1] != #[trigger] idx[k2])
}

/// The stock catalogue the shop draws from: four starter items and four
/// unlocked from level one.
pub fn item_catalogue() -> (r: Vec<Item>)
    ensures
        r@.len() == 8,
        forall|i: int| 0 <= i < r@.len()
            ==> (#[trigger] r@[i]).level_requirement == if i < 4 { 0int } else { 1int },
        forall|i: int| 0 <= i < r@.len() ==> item_matches_entry(#[trigger] r@[i], i),
{
    let mut items: Vec<Item> = Vec::new();
    items.push(Item {
        texture_name: new_strlit_string("love_potion"),
        name: new_strlit_string("Love Potion"),
        price: 10,
        description: new_strlit_string("Restores 5 health"),
        level_requirement: 0,
        attributes: Attributes { attribute_type: AttributeKind::PlayerHealth, quantity: 5,
            duration: 0 },
    });
    items.push(Item {
        texture_name: new_strlit_string("love_potion"),
        name: new_strlit_string("Whetstone"),
        price: 15,
        description: new_strlit_string("Weapon damage +5"),
        level_requirement: 0,
        attributes: Attributes { attribute_type: AttributeKind::WeaponDamage, quantity: 5,
            duration: 0 },
    });
    items.push(Item {
        texture_name: new_strlit_string("love_potion"),
        name: new_strlit_string("Trigger Oil"),
        price: 20,
        description: new_strlit_string("Attack speed +10%"),
        level_requirement: 0,
        attributes: Attributes { attribute_type: AttributeKind::AttackSpeed, quantity: 10,
            duration: 0 },
    });
    items.push(Item {
        texture_name: new_strlit_string("love_potion"),
        name: new_strlit_string("Boots"),
        price: 12,
        description: new_strlit_string("Movement speed +20"),
        level_requirement: 0,
        attributes: Attributes { attribute_type: AttributeKind::MovementSpeed, quantity: 20,
            duration: 0 },
    });
    items.push(Item {
        texture_name: new_strlit_string("love_potion"),
        name: new_strlit_string("Lucky Clover"),
        price: 18,
        description: new_strlit_string("Critical chance +2%"),
        level_requirement: 1,
        attributes: Attributes { attribute_type: AttributeKind::CriticalChance, quantity: 2,
            duration: 0 },
    });
    items.push(Item {
        texture_name: new_strlit_string("love_potion"),
        name: new_strlit_string("Heavy Rounds"),
        price: 25,
        description: new_strlit_string("Critical damage +2%"),
        level_requirement: 1,
        attributes: Attributes { attribute_type: AttributeKind::CriticalDamage, quantity: 2,
            duration: 0 },
    });
    items.push(Item {
        texture_name: new_strlit_string("love_potion"),
        name: new_strlit_string("Side Arm"),
        price: 40,
        description: new_strlit_string("Weapon count +1"),
        level_requirement: 1,
        attributes: Attributes { attribute_type: AttributeKind::WeaponCount, quantity: 1,
            duration: 0 },
    });
    items.push(Item {
        texture_name: new_strlit_string("love_potion"),
        name: new_strlit_string("Blast Powder"),
        price: 30,
        description: new_strlit_string("Splash targets +1"),
        level_requirement: 1,
        attributes: Attributes { attribute_type: AttributeKind::AoeTargets, quantity: 1,
            duration: 0 },
    });
    items
}

/// An owned `String` from a literal.
fn new_strlit_string(s: &str) -> (r: String)
    ensures
        r@ == s@,
{
    s.to_owned()
}

/// Draw four distinct items the player's level unlocks, in a random
/// order; the catalogue always holds at least four starter items, and
/// no entry is ever offered twice.
pub fn get_four_items_from_list(level: u32) -> (r: Vec<Item>)
    ensures
        r@.len() == 4,
        forall|i: int| 0 <= i < r@.len() ==> (#[trigger] r@[i]).level_requirement <= level,
        exists|idx: Seq<int>| #[trigger] picks_from_catalogue(r@, idx),
{
    let catalogue = item_catalogue();
    let mut eligible: Vec<Item> = Vec::new();
    let ghost mut eligible_idx: Seq<int> = Seq::empty();
    let n = catalogue.len();
    for i in 0..n
        invariant
            n == catalogue@.len() == 8,
            eligible@.len() <= i,
            eligible@.len() >= if i <= 4 { i as int } else { 4int },
            forall|j: int| 0 <= j < catalogue@.len()
                ==> (#[trigger] catalogue@[j]).level_requirement
                    == if j < 4 { 0int } else { 1int },
            forall|j: int| 0 <= j < catalogue@.len()
                ==> item_matches_entry(#[trigger] catalogue@[j], j),
            forall|j: int| 0 <= j < eligible@.len()
                ==> (#[trigger] eligible@[j]).level_requirement <= level,
            eligible_idx.len() == eligible@.len(),
            forall|j: int| 0 <= j < eligible_idx.len()
                ==> 0 <= #[trigger] eligible_idx[j] < i
                    && item_matches_entry(eligible@[j], eligible_idx[j]),
            forall|j1: int, j2: int| 0 <= j1 < j2 < eligible_idx.len()
                ==> #[trigger] eligible_idx[j1] != #[trigger] eligible_idx[j2],
    {
        if catalogue[i].level_requirement <= level {
            let item = catalogue[i].clone();
            eligible.push(item);
            proof {
                eligible_idx = eligible_idx.push(i as int);
            }
        }
    }
    let mut picked: Vec<Item> = Vec::new();
    let ghost mut picked_idx: Seq<int> = Seq::empty();
    while picked.len() < 4 && eligible.len() > 0
        invariant
            picked@.len() <= 4,
            eligible@.len() <= 8,
            picked@.len() + eligible@.len() >= 4,
            forall|j: int| 0 <= j < eligible@.len()
                ==> (#[trigger] eligible@[j]).level_requirement <= level,
            forall|j: int| 0 <= j < picked@.len()
                ==> (#[trigger] picked@[j]).level_requirement <= level,
            eligible_idx.len() == eligible@.len(),
            picked_idx.len() == picked@.len(),
            forall|j: int| 0 <= j < eligible_idx.len()
                ==> 0 <= #[trigger] eligible_idx[j] < 8
                    && item_matches_entry(eligible@[j], eligible_idx[j]),
            forall|j: int| 0 <= j < picked_idx.len()
                ==> 0 <= #[trigger] picked_idx[j] < 8
                    && item_matches_entry(picked@[j], picked_idx[j]),
            forall|j1: int, j2: int| 0 <= j1 < j2 < eligible_idx.len()
                ==> #[trigger] eligible_idx[j1] != #[trigger] eligible_idx[j2],
            forall|j1: int, j2: int| 0 <= j1 < j2 < picked_idx.len()
                ==> #[trigger] picked_idx[j1] != #[trigger] picked_idx[j2],
            forall|j1: int, j2: int| 0 <= j1 < picked_idx.len()
                && 0 <= j2 < eligible_idx.len()
                ==> #[trigger] picked_idx[j1] != #[trigger] eligible_idx[j2],
        decreases eligible@.len(),
    {
        let idx = random_number(0, (eligible.len() - 1) as i32) as usize;
        proof {
            eligible_idx.remove_ensures(idx as int);
        }
        let ghost taken = eligible_idx[idx as int];
        let item = eligible.remove(idx);
        picked.push(item);
        proof {
            eligible_idx = eligible_idx.remove(idx as int);
            picked_idx = picked_idx.push(taken);
        }
    }
    proof {
        assert(picks_from_catalogue(picked@, picked_idx));
    }
    picked
}

impl Item {
    /// The four-item selection offered when the shop opens: four
    /// distinct catalogue entries the player's level unlocks.
    pub fn shop(level: u32) -> (r: Vec<Item>)
        ensures
            r@.len() == 4,
            forall|i: int| 0 <= i < r@.len() ==> (#[trigger] r@[i]).level_requirement <= level,
            exists|idx: Seq<int>| #[trigger] picks_from_catalogue(r@, idx),
    {
        get_four_items_from_list(level)
    }
}

} // verus!
