//! The player character: position, stats, leveling and weapon parameters.

use vstd::prelude::*;
use crate::fixed::{FP, STAT_LIMIT, TIME_LIMIT, MAP_LIMIT, COORD_LIMIT, DT_LIMIT, tdiv, min_cap,
    add_capped, div_trunc, clamp_i64, clamp_spec};
use crate::vec2::{Vec2Fx, dir_x_spec, dir_y_spec, direction_to, lemma_tdiv_abs_bound};
use crate::rng::random_fx;

verus! {

/// Saturation bound for accumulated experience.
pub const EXP_CAP: i64 = 1_000_000_000_000_000_000;

/// Threshold values stop growing once they pass this bound, so the
/// 1.1125x step never leaves the machine word.
pub const THRESHOLD_GROW_LIMIT: i64 = 200_000_000_000_000;

/// Largest value the experience-to-next-level threshold can take.
pub const THRESHOLD_CAP: i64 = 250_000_000_000_000;

/// Most negative health value; damage saturates here.
pub const HEALTH_MIN: i64 = -1_000_000_000_000_000_000;

/// Largest enemy health value (rescaled health can exceed plain stats).
pub const HEALTH_MAX: i64 = 100_000_000_000_000_000;

/// Cap on the number of enemies one projectile impact may damage.
pub const AOE_CAP: usize = 1_000_000;

pub struct Level {
    pub level: u32,
    pub experience: i64,
    pub experience_to_next_level: i64,
}

impl Level {
    pub open spec fn wf(self) -> bool {
        &&& 0 <= self.experience <= EXP_CAP
        &&& 1 <= self.experience_to_next_level <= THRESHOLD_CAP
    }

    /// The level state after gaining `amount` experience: one threshold
    /// crossing at most, the threshold growing by the 1.1125 factor.
    /// Experience saturates at `EXP_CAP` and the threshold stops growing
    /// past `THRESHOLD_GROW_LIMIT`, keeping both inside the machine word.
    pub open spec fn after_gain(self, amount: int) -> Level {
        let gained = min_cap(self.experience + amount, EXP_CAP as int);
        if gained >= self.experience_to_next_level {
            Level {
                level: min_cap(self.level + 1, u32::MAX as int) as u32,
                experience: (gained - self.experience_to_next_level) as i64,
                experience_to_next_level: if self.experience_to_next_level
                    <= THRESHOLD_GROW_LIMIT {
                    tdiv(self.experience_to_next_level * 11_125, 10_000) as i64
                } else {
                    self.experience_to_next_level
                },
            }
        } else {
            Level { level: self.level, experience: gained as i64, ..self }
        }
    }

    /// Whether gaining `amount` crosses the threshold.
    pub open spec fn gain_levels_up(self, amount: int) -> bool {
        min_cap(self.experience + amount, EXP_CAP as int) >= self.experience_to_next_level
    }

    pub fn new(level: u32, experience: i64, experience_to_next_level: i64) -> (l: Level)
        requires
            0 <= experience <= EXP_CAP,
            1 <= experience_to_next_level <= THRESHOLD_CAP,
        ensures
            l.level == level,
            l.experience == experience,
            l.experience_to_next_level == experience_to_next_level,
            l.wf(),
    {
        Level { level, experience, experience_to_next_level }
    }

    /// Add experience; cross at most one threshold, growing the threshold
    /// multiplicatively. Returns whether a level was gained.
    pub fn gain_experience(&mut self, experience: i64) -> (leveled: bool)
        requires
            old(self).wf(),
            0 <= experience <= STAT_LIMIT,
        ensures
            *final(self) == old(self).after_gain(experience as int),
            leveled == old(self).gain_levels_up(experience as int),
            final(self).wf(),
    {
        self.experience = add_capped(self.experience, experience, EXP_CAP);
        if self.experience >= self.experience_to_next_level {
            if self.level < u32::MAX {
                self.level = self.level + 1;
            }
            self.experience = self.experience - self.experience_to_next_level;
            if self.experience_to_next_level <= THRESHOLD_GROW_LIMIT {
                self.experience_to_next_level = (self.experience_to_next_level * 11_125) / 10_000;
            }
            true
        } else {
            false
        }
    }
}

pub struct Stats {
    pub base_attack_speed: i64,
    pub attack_speed_modifier: i64,
    pub health: i64,
    pub max_health: i64,
    pub movement_speed: i64,
    pub money: u32,
    pub level: Level,
    pub critical_chance: i64,
    pub critical_damage: i64,
    pub defense: u32,
}

impl Stats {
    pub open spec fn wf(self) -> bool {
        &&& 1 <= self.base_attack_speed <= STAT_LIMIT
        &&& 1 <= self.attack_speed_modifier <= STAT_LIMIT
        &&& HEALTH_MIN <= self.health <= STAT_LIMIT
        &&& 0 <= self.max_health <= STAT_LIMIT
        &&& 0 <= self.movement_speed <= STAT_LIMIT
        &&& self.level.wf()
        &&& 0 <= self.critical_chance <= STAT_LIMIT
        &&& 0 <= self.critical_damage <= STAT_LIMIT
    }

    /// The fixed stat boosts applied once per level gained.
    pub open spec fn after_level_boost(self, l: Level) -> Stats {
        Stats {
            max_health: min_cap(self.max_health + 2 * FP, STAT_LIMIT as int) as i64,
            health: min_cap(self.max_health + 2 * FP, STAT_LIMIT as int) as i64,
            attack_speed_modifier: min_cap(self.attack_speed_modifier + 50,
                STAT_LIMIT as int) as i64,
            movement_speed: min_cap(self.movement_speed + 5 * FP, STAT_LIMIT as int) as i64,
            critical_chance: min_cap(self.critical_chance + 50, STAT_LIMIT as int) as i64,
            critical_damage: min_cap(self.critical_damage + 50, STAT_LIMIT as int) as i64,
            level: l,
            ..self
        }
    }
}

pub struct Weapon {
    pub count: usize,
    pub damage: i64,
    pub last_attack_time: u64,
    pub position: Vec2Fx,
    pub direction: Vec2Fx,
    pub can_shoot: bool,
    pub range: i64,
    pub damage_radius: i64,
    pub speed: i64,
    pub circle_radius: i64,
    pub aoe_count: usize,
}

impl Weapon {
    pub open spec fn wf(self) -> bool {
        &&& self.count <= 6
        &&& 0 <= self.damage <= STAT_LIMIT
        &&& self.last_attack_time <= TIME_LIMIT
        &&& self.position.wf()
        &&& -FP <= self.direction.x <= FP && -FP <= self.direction.y <= FP
        &&& 0 <= self.range <= STAT_LIMIT
        &&& 0 <= self.damage_radius <= STAT_LIMIT
        &&& 0 <= self.speed <= STAT_LIMIT
        &&& 0 <= self.circle_radius <= STAT_LIMIT
        &&& self.aoe_count <= AOE_CAP
    }
}

pub struct Player {
    pub position: Vec2Fx,
    pub size: Vec2Fx,
    pub stats: Stats,
    pub weapon: Weapon,
}

/// Milliseconds between two auto-fire shots, `1 / (base x modifier)`
/// seconds; effectively unbounded when the rate rounds down to zero.
pub open spec fn attack_interval_spec(s: Stats) -> int {
    let rate = tdiv(s.base_attack_speed * s.attack_speed_modifier, FP as int);
    if rate >= 1 {
        tdiv(1000 * FP, rate)
    } else {
        TIME_LIMIT as int
    }
}

impl Player {
    pub open spec fn wf(self) -> bool {
        &&& self.position.wf()
        &&& 0 <= self.size.x <= COORD_LIMIT && 0 <= self.size.y <= COORD_LIMIT
        &&& self.stats.wf()
        &&& self.weapon.wf()
    }

    /// A fresh character at a random spot on the map, carrying the game's
    /// starting stats and weapon.
    pub fn new(map_w: i64, map_h: i64) -> (p: Player)
        requires
            25 * FP < map_w <= MAP_LIMIT,
            25 * FP < map_h <= MAP_LIMIT,
        ensures
            p.wf(),
            25 * FP <= p.position.x <= map_w && 25 * FP <= p.position.y <= map_h,
            p.size.x == 50 * FP && p.size.y == 50 * FP,
            p.stats.base_attack_speed == 12_000,
            p.stats.attack_speed_modifier == FP,
            p.stats.health == 5 * FP,
            p.stats.max_health == 10 * FP,
            p.stats.movement_speed == 200 * FP,
            p.stats.money == 1000,
            p.stats.level.level == 0,
            p.stats.level.experience == 0,
            p.stats.level.experience_to_next_level == 20 * FP,
            p.stats.critical_chance == 100,
            p.stats.critical_damage == 100,
            p.stats.defense == 0,
            p.weapon.count == 3,
            p.weapon.damage == 10 * FP,
            p.weapon.last_attack_time == 0,
            p.weapon.position.x == 10 * FP && p.weapon.position.y == 0,
            p.weapon.direction.x == FP && p.weapon.direction.y == 0,
            !p.weapon.can_shoot,
            p.weapon.range == 300 * FP,
            p.weapon.damage_radius == 50 * FP,
            p.weapon.speed == 400 * FP,
            p.weapon.circle_radius == 40 * FP,
            p.weapon.aoe_count == 3,
    {
        let x = random_fx(25 * FP, map_w);
        let y = random_fx(25 * FP, map_h);
        Player {
            position: Vec2Fx { x, y },
            size: Vec2Fx { x: 50 * FP, y: 50 * FP },
            stats: Stats {
                base_attack_speed: 12_000,
                attack_speed_modifier: FP,
                health: 5 * FP,
                max_health: 10 * FP,
                movement_speed: 200 * FP,
                money: 1000,
                level: Level::new(0, 0, 20 * FP),
                critical_chance: 100,
                critical_damage: 100,
                defense: 0,
            },
            weapon: Weapon {
                count: 3,
                damage: 10 * FP,
                last_attack_time: 0,
                position: Vec2Fx { x: 10 * FP, y: 0 },
                direction: Vec2Fx { x: FP, y: 0 },
                can_shoot: false,
                range: 300 * FP,
                damage_radius: 50 * FP,
                speed: 400 * FP,
                circle_radius: 40 * FP,
                aoe_count: 3,
            },
        }
    }

    /// Seconds-per-shot of the weapon, in milliseconds.
    pub fn attack_interval(&self) -> (r: u64)
        requires
            self.stats.wf(),
        ensures
            r == attack_interval_spec(self.stats),
            r <= TIME_LIMIT,
    {
        proof {
            assert(1 <= self.stats.base_attack_speed * self.stats.attack_speed_modifier
                <= 1_000_000_000_000_000_000) by (nonlinear_arith)
                requires
                    1 <= self.stats.base_attack_speed <= STAT_LIMIT,
                    1 <= self.stats.attack_speed_modifier <= STAT_LIMIT;
        }
        let rate = (self.stats.base_attack_speed * self.stats.attack_speed_modifier) / FP;
        if rate >= 1 {
            ((1000 * FP) / rate) as u64
        } else {
            TIME_LIMIT
        }
    }

    /// Apply `gain_experience` to the character; on a level-up, boost the
    /// fixed set of stats once and heal to the new maximum.
    pub fn level_up(&mut self, experience: i64) -> (leveled: bool)
        requires
            old(self).wf(),
            0 <= experience <= STAT_LIMIT,
        ensures
            final(self).wf(),
            leveled == old(self).stats.level.gain_levels_up(experience as int),
            final(self).stats == if leveled {
                old(self).stats.after_level_boost(
                    old(self).stats.level.after_gain(experience as int))
            } else {
                Stats { level: old(self).stats.level.after_gain(experience as int),
                    ..old(self).stats }
            },
            final(self).position == old(self).position,
            final(self).size == old(self).size,
            final(self).weapon == old(self).weapon,
    {
        let leveled = self.stats.level.gain_experience(experience);
        if leveled {
            self.stats.max_health = add_capped(self.stats.max_health, 2 * FP, STAT_LIMIT);
            self.stats.health = self.stats.max_health;
            self.stats.attack_speed_modifier = add_capped(self.stats.attack_speed_modifier, 50,
                STAT_LIMIT);
            self.stats.movement_speed = add_capped(self.stats.movement_speed, 5 * FP, STAT_LIMIT);
            self.stats.critical_chance = add_capped(self.stats.critical_chance, 50, STAT_LIMIT);
            self.stats.critical_damage = add_capped(self.stats.critical_damage, 50, STAT_LIMIT);
        }
        leveled
    }

    /// One frame of keyboard-driven movement: `input_x`/`input_y` are the
    /// summed key directions (each in -1..=1), normalized so diagonals are
    /// no faster, then scaled by speed and frame time and clamped to the
    /// map.
    pub fn movement(&mut self, input_x: i64, input_y: i64, map_w: i64, map_h: i64, dt_ms: u64)
        requires
            old(self).wf(),
            -1 <= input_x <= 1 && -1 <= input_y <= 1,
            0 < map_w <= MAP_LIMIT && 0 < map_h <= MAP_LIMIT,
            old(self).size.x <= map_w && old(self).size.y <= map_h,
            dt_ms <= DT_LIMIT,
        ensures
            final(self).wf(),
            ({
                let origin = Vec2Fx { x: 0, y: 0 };
                let target = Vec2Fx { x: (input_x * FP) as i64, y: (input_y * FP) as i64 };
                let dx = tdiv(tdiv(dir_x_spec(origin, target) * old(self).stats.movement_speed,
                    FP as int) * dt_ms, 1000);
                let dy = tdiv(tdiv(dir_y_spec(origin, target) * old(self).stats.movement_speed,
                    FP as int) * dt_ms, 1000);
                final(self).position.x == clamp_spec(old(self).position.x + dx, 0,
                    map_w - old(self).size.x)
                && final(self).position.y == clamp_spec(old(self).position.y + dy, 0,
                    map_h - old(self).size.y)
            }),
            final(self).size == old(self).size,
            final(self).stats == old(self).stats,
            final(self).weapon == old(self).weapon,
    {
        let origin = Vec2Fx { x: 0, y: 0 };
        let target = Vec2Fx { x: input_x * FP, y: input_y * FP };
        let dir = direction_to(origin, target);
        let speed = self.stats.movement_speed;
        proof {
            assert(-10_000_000_000_000 <= dir.x as int * speed as int <= 10_000_000_000_000
                && -10_000_000_000_000 <= dir.y as int * speed as int <= 10_000_000_000_000)
                by (nonlinear_arith)
                requires
                    -10_000 <= dir.x as int <= 10_000,
                    -10_000 <= dir.y as int <= 10_000,
                    0 <= speed as int <= 1_000_000_000;
            lemma_tdiv_abs_bound(dir.x as int * speed as int, FP as int, 1_000_000_000);
            lemma_tdiv_abs_bound(dir.y as int * speed as int, FP as int, 1_000_000_000);
        }
        let vx = div_trunc(dir.x * speed, FP);
        let vy = div_trunc(dir.y * speed, FP);
        proof {
            assert(-1_000_000_000_000_000 <= vx as int * dt_ms as int <= 1_000_000_000_000_000
                && -1_000_000_000_000_000 <= vy as int * dt_ms as int <= 1_000_000_000_000_000)
                by (nonlinear_arith)
                requires
                    -1_000_000_000 <= vx as int <= 1_000_000_000,
                    -1_000_000_000 <= vy as int <= 1_000_000_000,
                    0 <= dt_ms as int <= 1_000_000;
            lemma_tdiv_abs_bound(vx as int * dt_ms as int, 1000, 1_000_000_000_000);
            lemma_tdiv_abs_bound(vy as int * dt_ms as int, 1000, 1_000_000_000_000);
        }
        let dx = div_trunc(vx * (dt_ms as i64), 1000);
        let dy = div_trunc(vy * (dt_ms as i64), 1000);
        self.position = Vec2Fx {
            x: clamp_i64(self.position.x + dx, 0, map_w - self.size.x),
            y: clamp_i64(self.position.y + dy, 0, map_h - self.size.y),
        };
    }
}

} // verus!
