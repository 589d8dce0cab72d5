//! The enemy pool: fixed-capacity slots that are retired and reactivated,
//! never freed, plus per-enemy steering and melee attack.

use vstd::prelude::*;
use crate::fixed::{FP, STAT_LIMIT, TIME_LIMIT, MAP_LIMIT, POOL_LIMIT, DT_LIMIT, tdiv, div_trunc,
    sub_floored, max_floor};
use crate::vec2::{Vec2Fx, boxes_touch_spec, boxes_touch, lemma_tdiv_abs_bound, dist_sq_spec,
    dist_sq, dir_x_spec, dir_y_spec, direction_to, clamp_coords, clamp_coords_spec};
use crate::player::{Player, Stats, HEALTH_MIN, HEALTH_MAX};
use crate::utilities::{on_perimeter, random_spawn_position};

verus! {

/// Where a dormant enemy is parked, well off any map.
pub const DORMANT_X: i64 = -1_000_000;

/// Where a dormant enemy is parked, well off any map.
pub const DORMANT_Y: i64 = -1_000_000;

#[derive(Clone, Copy)]
pub struct Enemy {
    pub attack_speed: u64,
    pub elite: bool,
    pub damage: i64,
    pub active: bool,
    pub base_health: i64,
    pub health: i64,
    pub last_attack_time: u64,
    pub position: Vec2Fx,
    pub movement_speed: i64,
    pub size: Vec2Fx,
    pub experience: i64,
}

pub struct Enemies {
    pub enemy_pool: Vec<Enemy>,
    pub last_enemy_spawn_time: u64,
    pub enemy_spawn_rate: u64,
}

impl Enemy {
    pub open spec fn wf(self) -> bool {
        &&& self.attack_speed <= TIME_LIMIT
        &&& 0 <= self.damage <= STAT_LIMIT
        &&& HEALTH_MIN <= self.base_health <= HEALTH_MAX
        &&& HEALTH_MIN <= self.health <= HEALTH_MAX
        &&& self.last_attack_time <= TIME_LIMIT
        &&& self.position.wf()
        &&& 0 <= self.movement_speed <= STAT_LIMIT
        &&& 0 <= self.size.x <= MAP_LIMIT && 0 <= self.size.y <= MAP_LIMIT
        &&& 0 <= self.experience <= STAT_LIMIT
    }

    pub fn new(movement_speed: i64, health: i64, damage: i64, elite: bool, size: Vec2Fx,
        active: bool, attack_speed: u64, experience: i64, position: Vec2Fx) -> (e: Enemy)
        requires
            0 <= movement_speed <= STAT_LIMIT,
            0 <= health <= HEALTH_MAX,
            0 <= damage <= STAT_LIMIT,
            0 <= size.x <= MAP_LIMIT && 0 <= size.y <= MAP_LIMIT,
            attack_speed <= TIME_LIMIT,
            0 <= experience <= STAT_LIMIT,
            position.wf(),
        ensures
            e.attack_speed == attack_speed,
            e.elite == elite,
            e.damage == damage,
            e.active == active,
            e.base_health == health,
            e.health == health,
            e.last_attack_time == 0,
            e.position == position,
            e.movement_speed == movement_speed,
            e.size == size,
            e.experience == experience,
            e.wf(),
    {
        Enemy {
            attack_speed,
            elite,
            damage,
            active,
            base_health: health,
            health,
            last_attack_time: 0,
            position,
            movement_speed,
            size,
            experience,
        }
    }

    /// The enemy's 50x50 and the player's 20x20 bounding boxes, each
    /// centered at its position, touch.
    pub open spec fn colliding_spec(e: Enemy, p: Player) -> bool {
        boxes_touch_spec(p.position, 20 * FP, 20 * FP, e.position, 50 * FP, 50 * FP)
    }

    fn is_colliding(enemy: &Enemy, player: &Player) -> (r: bool)
        requires
            enemy.wf(),
            player.wf(),
        ensures
            r == Enemy::colliding_spec(*enemy, *player),
    {
        boxes_touch(player.position, 20 * FP, 20 * FP, enemy.position, 50 * FP, 50 * FP)
    }

    /// Whether the melee attack lands at time `now`.
    pub open spec fn attack_fires(self, p: Player, now: u64) -> bool {
        &&& Enemy::colliding_spec(self, p)
        &&& now > self.last_attack_time + self.attack_speed
        &&& p.stats.health > 0
        &&& self.active
    }

    /// Melee attack: deal `damage` to an overlapping, living player once
    /// per cooldown window.
    pub fn attack(&mut self, player: &mut Player, now: u64)
        requires
            old(self).wf(),
            old(player).wf(),
            now <= TIME_LIMIT,
        ensures
            final(self).wf(),
            final(player).wf(),
            if old(self).attack_fires(*old(player), now) {
                final(player).stats.health == max_floor(
                    old(player).stats.health - old(self).damage, HEALTH_MIN as int)
                && final(self).last_attack_time == now
            } else {
                final(player).stats.health == old(player).stats.health
                && final(self).last_attack_time == old(self).last_attack_time
            },
            *final(self) == (Enemy { last_attack_time: final(self).last_attack_time,
                ..*old(self) }),
            *final(player) == (Player { stats: final(player).stats, ..*old(player) }),
            final(player).stats == (crate::player::Stats { health: final(player).stats.health,
                ..old(player).stats }),
    {
        if Enemy::is_colliding(self, player) && now > self.last_attack_time + self.attack_speed
            && player.stats.health > 0 && self.active {
            player.stats.health = sub_floored(player.stats.health, self.damage, HEALTH_MIN);
            self.last_attack_time = now;
        }
    }

    /// The retired form of an enemy: dormant, parked off-map, health and
    /// damage rescaled from the player's current power.
    pub open spec fn retired_enemy(e: Enemy, p: Player) -> Enemy {
        Enemy {
            active: false,
            position: Vec2Fx { x: DORMANT_X, y: DORMANT_Y },
            health: (tdiv(p.weapon.damage * p.stats.critical_damage, FP as int) * 125) as i64,
            damage: tdiv(p.stats.max_health * 30, 100) as i64,
            last_attack_time: 0,
            ..e
        }
    }

    /// Retire the slot: deactivate, teleport off-map, rescale health from
    /// the player's weapon and damage from the player's maximum health.
    pub fn set_enemy_idle(&mut self, player: &Player)
        requires
            old(self).wf(),
            player.wf(),
        ensures
            *final(self) == Enemy::retired_enemy(*old(self), *player),
            final(self).wf(),
            !final(self).active,
    {
        proof {
            assert(0 <= player.weapon.damage * player.stats.critical_damage
                <= 1_000_000_000_000_000_000) by (nonlinear_arith)
                requires
                    0 <= player.weapon.damage <= STAT_LIMIT,
                    0 <= player.stats.critical_damage <= STAT_LIMIT;
            lemma_tdiv_abs_bound(player.weapon.damage as int * player.stats.critical_damage as int,
                FP as int, 100_000_000_000_000);
        }
        self.active = false;
        self.position = Vec2Fx { x: DORMANT_X, y: DORMANT_Y };
        self.health = (div_trunc(player.weapon.damage * player.stats.critical_damage, FP)) * 125;
        self.damage = (player.stats.max_health * 30) / 100;
        self.last_attack_time = 0;
    }

    /// Reactivate the slot at a random point on the map perimeter.
    pub fn set_enemy_active(&mut self, map_w: i64, map_h: i64)
        requires
            old(self).wf(),
            0 < map_w <= MAP_LIMIT,
            0 < map_h <= MAP_LIMIT,
        ensures
            final(self).wf(),
            final(self).active,
            on_perimeter(final(self).position, map_w as int, map_h as int),
            *final(self) == (Enemy { active: true, position: final(self).position,
                ..*old(self) }),
    {
        self.active = true;
        self.position = random_spawn_position(map_w, map_h);
    }

    /// Where a spawning (active) or pooled (dormant) enemy is placed.
    pub fn spawn_position(active: bool, map_w: i64, map_h: i64) -> (v: Vec2Fx)
        requires
            0 < map_w <= MAP_LIMIT,
            0 < map_h <= MAP_LIMIT,
        ensures
            active ==> on_perimeter(v, map_w as int, map_h as int),
            !active ==> v.x == DORMANT_X && v.y == DORMANT_Y,
            v.wf(),
    {
        if active {
            random_spawn_position(map_w, map_h)
        } else {
            Vec2Fx { x: DORMANT_X, y: DORMANT_Y }
        }
    }

    /// Pre-create a pool of `capacity` dormant enemies; the last
    /// `elite_reserve` slots are flagged elite and held back from ordinary
    /// activation.
    pub fn spawn_enemy_pool(capacity: usize, elite_reserve: usize, now: u64) -> (r: Enemies)
        requires
            elite_reserve <= capacity <= POOL_LIMIT,
            now <= TIME_LIMIT,
        ensures
            r.wf(),
            r.enemy_pool@.len() == capacity,
            forall|i: int| 0 <= i < capacity ==> {
                let e = #[trigger] r.enemy_pool@[i];
                &&& !e.active
                &&& e.position.x == DORMANT_X && e.position.y == DORMANT_Y
                &&& e.health == 30 * FP && e.base_health == 30 * FP
                &&& e.damage == FP
                &&& e.attack_speed == 1500
                &&& e.elite == (i >= capacity - elite_reserve)
                &&& e.last_attack_time == 0
                &&& 150 * FP <= e.movement_speed <= 200 * FP
                &&& FP <= e.experience <= 10 * FP
                &&& e.size.x == 50 * FP && e.size.y == 50 * FP
            },
            r.last_enemy_spawn_time == now,
            r.enemy_spawn_rate == 2000,
    {
        let mut pool: Vec<Enemy> = Vec::new();
        let mut count: usize = 0;
        while count < capacity
            invariant
                count <= capacity <= POOL_LIMIT,
                elite_reserve <= capacity,
                pool@.len() == count,
                forall|i: int| 0 <= i < count ==> {
                    let e = #[trigger] pool@[i];
                    &&& !e.active
                    &&& e.position.x == DORMANT_X && e.position.y == DORMANT_Y
                    &&& e.health == 30 * FP && e.base_health == 30 * FP
                    &&& e.damage == FP
                    &&& e.attack_speed == 1500
                    &&& e.elite == (i >= capacity - elite_reserve)
                    &&& e.last_attack_time == 0
                    &&& 150 * FP <= e.movement_speed <= 200 * FP
                    &&& FP <= e.experience <= 10 * FP
                    &&& e.size.x == 50 * FP && e.size.y == 50 * FP
                    &&& e.wf()
                },
            decreases capacity - count,
        {
            let enemy_speed = crate::rng::random_fx(150 * FP, 200 * FP);
            let experience = (crate::rng::random_number(1, 10) as i64) * FP;
            let elite = count >= capacity - elite_reserve;
            let enemy = Enemy::new(enemy_speed, 30 * FP, FP, elite,
                Vec2Fx { x: 50 * FP, y: 50 * FP }, false, 1500, experience,
                Vec2Fx { x: DORMANT_X, y: DORMANT_Y });
            pool.push(enemy);
            count = count + 1;
        }
        Enemies { enemy_pool: pool, last_enemy_spawn_time: now, enemy_spawn_rate: 2000 }
    }

    /// Index of the first dormant, non-elite slot, or -1 when every slot
    /// is active or elite.
    pub open spec fn first_dormant(s: Seq<Enemy>, i: int) -> int
        decreases s.len() - i when 0 <= i <= s.len()
    {
        if i >= s.len() {
            -1
        } else if !s[i].active && !s[i].elite {
            i
        } else {
            Enemy::first_dormant(s, i + 1)
        }
    }

    /// Timed activation: when the spawn interval (scaled down by player
    /// level) has passed, wake the first dormant non-elite slot at a
    /// random perimeter point. At most one slot per call, and never one
    /// that is already active.
    pub fn enemy_collection(current_time: u64, enemies: &mut Enemies, player: &Player,
        map_w: i64, map_h: i64)
        requires
            old(enemies).wf(),
            player.wf(),
            current_time <= TIME_LIMIT,
            0 < map_w <= MAP_LIMIT,
            0 < map_h <= MAP_LIMIT,
        ensures
            final(enemies).wf(),
            final(enemies).enemy_spawn_rate == old(enemies).enemy_spawn_rate,
            final(enemies).enemy_pool@.len() == old(enemies).enemy_pool@.len(),
            ({
                let rate = if player.stats.level.level > 1 {
                    old(enemies).enemy_spawn_rate as int / player.stats.level.level as int
                } else {
                    old(enemies).enemy_spawn_rate as int
                };
                let fired = current_time > old(enemies).last_enemy_spawn_time + rate;
                let idx = Enemy::first_dormant(old(enemies).enemy_pool@, 0);
                if !fired {
                    *final(enemies) == *old(enemies)
                } else {
                    final(enemies).last_enemy_spawn_time == current_time
                    && if idx == -1 {
                        final(enemies).enemy_pool@ == old(enemies).enemy_pool@
                    } else {
                        &&& !old(enemies).enemy_pool@[idx].active
                        &&& final(enemies).enemy_pool@[idx].active
                        &&& on_perimeter(final(enemies).enemy_pool@[idx].position,
                            map_w as int, map_h as int)
                        &&& final(enemies).enemy_pool@[idx] == (Enemy { active: true,
                            position: final(enemies).enemy_pool@[idx].position,
                            ..old(enemies).enemy_pool@[idx] })
                        &&& forall|j: int| 0 <= j < old(enemies).enemy_pool@.len() && j != idx
                            ==> final(enemies).enemy_pool@[j] == old(enemies).enemy_pool@[j]
                    }
                }
            }),
    {
        let rate: u64 = if player.stats.level.level > 1 {
            enemies.enemy_spawn_rate / (player.stats.level.level as u64)
        } else {
            enemies.enemy_spawn_rate
        };
        if current_time > enemies.last_enemy_spawn_time + rate {
            enemies.last_enemy_spawn_time = current_time;
            let n = enemies.enemy_pool.len();
            let mut i: usize = 0;
            while i < n
                invariant
                    n == enemies.enemy_pool@.len(),
                    0 <= i <= n,
                    enemies.wf(),
                    enemies.enemy_pool@ == old(enemies).enemy_pool@,
                    enemies.last_enemy_spawn_time == current_time,
                    enemies.enemy_spawn_rate == old(enemies).enemy_spawn_rate,
                    0 < map_w <= MAP_LIMIT && 0 < map_h <= MAP_LIMIT,
                    Enemy::first_dormant(old(enemies).enemy_pool@, 0)
                        == Enemy::first_dormant(old(enemies).enemy_pool@, i as int),
                    ({
                        let rate = if player.stats.level.level > 1 {
                            old(enemies).enemy_spawn_rate as int
                                / player.stats.level.level as int
                        } else {
                            old(enemies).enemy_spawn_rate as int
                        };
                        current_time > old(enemies).last_enemy_spawn_time + rate
                    }),
                ensures
                    n == enemies.enemy_pool@.len(),
                    enemies.wf(),
                    enemies.last_enemy_spawn_time == current_time,
                    enemies.enemy_spawn_rate == old(enemies).enemy_spawn_rate,
                    ({
                        let idx = Enemy::first_dormant(old(enemies).enemy_pool@, 0);
                        if idx == -1 {
                            enemies.enemy_pool@ == old(enemies).enemy_pool@
                        } else {
                            &&& !old(enemies).enemy_pool@[idx].active
                            &&& enemies.enemy_pool@[idx].active
                            &&& on_perimeter(enemies.enemy_pool@[idx].position,
                                map_w as int, map_h as int)
                            &&& enemies.enemy_pool@[idx] == (Enemy { active: true,
                                position: enemies.enemy_pool@[idx].position,
                                ..old(enemies).enemy_pool@[idx] })
                            &&& forall|j: int| 0 <= j < old(enemies).enemy_pool@.len() && j != idx
                                ==> enemies.enemy_pool@[j] == old(enemies).enemy_pool@[j]
                        }
                    }),
                decreases n - i,
            {
                if !enemies.enemy_pool[i].active && !enemies.enemy_pool[i].elite {
                    let pos = random_spawn_position(map_w, map_h);
                    let slot = &mut enemies.enemy_pool[i];
                    slot.active = true;
                    slot.position = pos;
                    proof {
                        assert(Enemy::first_dormant(old(enemies).enemy_pool@, i as int)
                            == i as int);
                    }
                    return;
                }
                i = i + 1;
            }
        }
    }
}

impl Enemies {
    pub open spec fn wf(self) -> bool {
        &&& self.enemy_pool@.len() <= POOL_LIMIT
        &&& forall|i: int| 0 <= i < self.enemy_pool@.len()
            ==> (#[trigger] self.enemy_pool@[i]).wf()
        &&& self.last_enemy_spawn_time <= TIME_LIMIT
        &&& self.enemy_spawn_rate <= TIME_LIMIT
    }
}

/// `o` repels `e`: it is active, strictly inside the separation radius,
/// and not at the exact same spot.
pub open spec fn is_neighbor(o: Enemy, e: Enemy, radius: int) -> bool {
    &&& o.active
    &&& dist_sq_spec(e.position, o.position) < radius * radius
    &&& o.position != e.position
}

/// How many of the first `n` snapshot slots repel `e`.
pub open spec fn sep_count_prefix(s: Seq<Enemy>, e: Enemy, radius: int, n: int) -> int
    decreases n,
{
    if n <= 0 {
        0
    } else {
        sep_count_prefix(s, e, radius, n - 1)
            + if is_neighbor(s[n - 1], e, radius) { 1int } else { 0int }
    }
}

/// Sum of the x components of the unit vectors pushing `e` away from the
/// first `n` repelling slots.
pub open spec fn sep_sum_x_prefix(s: Seq<Enemy>, e: Enemy, radius: int, n: int) -> int
    decreases n,
{
    if n <= 0 {
        0
    } else {
        sep_sum_x_prefix(s, e, radius, n - 1)
            + if is_neighbor(s[n - 1], e, radius) {
                dir_x_spec(s[n - 1].position, e.position)
            } else {
                0
            }
    }
}

/// Sum of the y components of the separation push on `e`.
pub open spec fn sep_sum_y_prefix(s: Seq<Enemy>, e: Enemy, radius: int, n: int) -> int
    decreases n,
{
    if n <= 0 {
        0
    } else {
        sep_sum_y_prefix(s, e, radius, n - 1)
            + if is_neighbor(s[n - 1], e, radius) {
                dir_y_spec(s[n - 1].position, e.position)
            } else {
                0
            }
    }
}

/// The separation sums stay within one fixed-point unit per neighbor.
pub proof fn lemma_sep_prefix_bounds(s: Seq<Enemy>, e: Enemy, radius: int, n: int)
    requires
        0 <= n <= s.len(),
        forall|i: int| 0 <= i < s.len() ==> (#[trigger] s[i]).wf(),
        e.position.wf(),
    ensures
        0 <= sep_count_prefix(s, e, radius, n) <= n,
        -(sep_count_prefix(s, e, radius, n) * 10_000) <= sep_sum_x_prefix(s, e, radius, n)
            <= sep_count_prefix(s, e, radius, n) * 10_000,
        -(sep_count_prefix(s, e, radius, n) * 10_000) <= sep_sum_y_prefix(s, e, radius, n)
            <= sep_count_prefix(s, e, radius, n) * 10_000,
    decreases n,
{
    if n > 0 {
        lemma_sep_prefix_bounds(s, e, radius, n - 1);
        if is_neighbor(s[n - 1], e, radius) {
            crate::vec2::lemma_dir_spec_bounds(s[n - 1].position, e.position);
        }
    }
}

/// The enemy after one steering step toward `p_pos`, repelled by the
/// active neighbors recorded in the snapshot `others`.
pub open spec fn moved_enemy(e: Enemy, p_pos: Vec2Fx, others: Seq<Enemy>, radius: int,
    dt: int) -> Enemy {
    let dirx = dir_x_spec(e.position, p_pos);
    let diry = dir_y_spec(e.position, p_pos);
    let cnt = sep_count_prefix(others, e, radius, others.len() as int);
    let sx = sep_sum_x_prefix(others, e, radius, others.len() as int);
    let sy = sep_sum_y_prefix(others, e, radius, others.len() as int);
    let ax = if cnt > 0 { tdiv(sx, cnt) } else { 0int };
    let ay = if cnt > 0 { tdiv(sy, cnt) } else { 0int };
    let combined = Vec2Fx { x: (dirx + ax) as i64, y: (diry + ay) as i64 };
    let origin = Vec2Fx { x: 0, y: 0 };
    let fx = dir_x_spec(origin, combined);
    let fy = dir_y_spec(origin, combined);
    let dx = tdiv(tdiv(fx * e.movement_speed, FP as int) * dt, 1000);
    let dy = tdiv(tdiv(fy * e.movement_speed, FP as int) * dt, 1000);
    Enemy { position: clamp_coords_spec(e.position.x + dx, e.position.y + dy), ..e }
}

impl Enemy {
    /// One steering step: head for the player, pushed apart from active
    /// neighbors within `separation_radius` (averaged over their count),
    /// renormalized, and scaled by speed and frame time. The snapshot
    /// `others` holds the previous tick's slots; a dormant enemy does not
    /// move.
    pub fn movement(enemy: &mut Enemy, player: &Player, others: &Vec<Enemy>,
        separation_radius: i64, dt_ms: u64)
        requires
            old(enemy).wf(),
            player.wf(),
            forall|i: int| 0 <= i < others@.len() ==> (#[trigger] others@[i]).wf(),
            others@.len() <= POOL_LIMIT,
            0 <= separation_radius <= MAP_LIMIT,
            dt_ms <= DT_LIMIT,
        ensures
            final(enemy).wf(),
            *final(enemy) == if old(enemy).active {
                moved_enemy(*old(enemy), player.position, others@, separation_radius as int,
                    dt_ms as int)
            } else {
                *old(enemy)
            },
    {
        if !enemy.active {
            return;
        }
        let dir = direction_to(enemy.position, player.position);
        let n = others.len();
        let mut sep_x: i64 = 0;
        let mut sep_y: i64 = 0;
        let mut neighbors: i64 = 0;
        proof {
            assert(separation_radius * separation_radius <= 10_000_000_000_000_000)
                by (nonlinear_arith)
                requires 0 <= separation_radius <= MAP_LIMIT, MAP_LIMIT == 100_000_000;
        }
        let radius_sq = separation_radius * separation_radius;
        for i in 0..n
            invariant
                n == others@.len() <= POOL_LIMIT,
                forall|j: int| 0 <= j < others@.len() ==> (#[trigger] others@[j]).wf(),
                enemy.wf(),
                enemy.position.wf(),
                radius_sq == separation_radius * separation_radius,
                0 <= separation_radius <= MAP_LIMIT,
                neighbors == sep_count_prefix(others@, *enemy, separation_radius as int, i as int),
                sep_x == sep_sum_x_prefix(others@, *enemy, separation_radius as int, i as int),
                sep_y == sep_sum_y_prefix(others@, *enemy, separation_radius as int, i as int),
                0 <= neighbors <= i,
                -(neighbors * 10_000) <= sep_x <= neighbors * 10_000,
                -(neighbors * 10_000) <= sep_y <= neighbors * 10_000,
        {
            let other = &others[i];
            if other.active && dist_sq(enemy.position, other.position) < radius_sq
                && !(other.position.x == enemy.position.x
                    && other.position.y == enemy.position.y) {
                let away = direction_to(other.position, enemy.position);
                sep_x = sep_x + away.x;
                sep_y = sep_y + away.y;
                neighbors = neighbors + 1;
            }
        }
        let avg_x = if neighbors > 0 {
            proof {
                lemma_tdiv_abs_bound(sep_x as int, neighbors as int, FP as int);
            }
            div_trunc(sep_x, neighbors)
        } else {
            0
        };
        let avg_y = if neighbors > 0 {
            proof {
                lemma_tdiv_abs_bound(sep_y as int, neighbors as int, FP as int);
            }
            div_trunc(sep_y, neighbors)
        } else {
            0
        };
        let combined = Vec2Fx { x: dir.x + avg_x, y: dir.y + avg_y };
        let origin = Vec2Fx { x: 0, y: 0 };
        let fdir = direction_to(origin, combined);
        let speed = enemy.movement_speed;
        proof {
            assert(-10_000_000_000_000 <= fdir.x as int * speed as int <= 10_000_000_000_000
                && -10_000_000_000_000 <= fdir.y as int * speed as int <= 10_000_000_000_000)
                by (nonlinear_arith)
                requires
                    -10_000 <= fdir.x as int <= 10_000,
                    -10_000 <= fdir.y as int <= 10_000,
                    0 <= speed as int <= 1_000_000_000;
            lemma_tdiv_abs_bound(fdir.x as int * speed as int, FP as int, 1_000_000_000);
            lemma_tdiv_abs_bound(fdir.y as int * speed as int, FP as int, 1_000_000_000);
        }
        let vx = div_trunc(fdir.x * speed, FP);
        let vy = div_trunc(fdir.y * speed, FP);
        proof {
            assert(-1_000_000_000_000_000 <= vx as int * dt_ms as int <= 1_000_000_000_000_000
                && -1_000_000_000_000_000 <= vy as int * dt_ms as int <= 1_000_000_000_000_000)
                by (nonlinear_arith)
                requires
                    -1_000_000_000 <= vx as int <= 1_000_000_000,
                    -1_000_000_000 <= vy as int <= 1_000_000_000,
                    0 <= dt_ms as int <= 1_000_000;
            lemma_tdiv_abs_bound(vx as int * dt_ms as int, 1000, 1_000_000_000_000);
            lemma_tdiv_abs_bound(vy as int * dt_ms as int, 1000, 1_000_000_000_000);
        }
        let dx = div_trunc(vx * (dt_ms as i64), 1000);
        let dy = div_trunc(vy * (dt_ms as i64), 1000);
        enemy.position = clamp_coords(enemy.position.x + dx, enemy.position.y + dy);
    }
}

/// The pool and player after the first `n` enemies have taken their melee
/// swings in slot order; damage lands sequentially, so an earlier kill
/// shields the player from later swings.
pub open spec fn attack_fold(s: Seq<Enemy>, p: Player, now: u64, n: int) -> (Seq<Enemy>, Player)
    decreases n,
{
    if n <= 0 {
        (s, p)
    } else {
        let (s1, p1) = attack_fold(s, p, now, n - 1);
        let e = s1[n - 1];
        if e.attack_fires(p1, now) {
            (
                s1.update(n - 1, Enemy { last_attack_time: now, ..e }),
                Player {
                    stats: Stats {
                        health: max_floor(p1.stats.health - e.damage, HEALTH_MIN as int) as i64,
                        ..p1.stats
                    },
                    ..p1
                },
            )
        } else {
            (s1, p1)
        }
    }
}

/// `attack_fold` leaves the slots at or beyond `n` untouched and keeps
/// the pool's length; the player only changes in health.
pub proof fn lemma_attack_fold_frame(s: Seq<Enemy>, p: Player, now: u64, n: int)
    requires
        0 <= n <= s.len(),
    ensures
        attack_fold(s, p, now, n).0.len() == s.len(),
        forall|j: int| n <= j < s.len() ==> attack_fold(s, p, now, n).0[j] == s[j],
        attack_fold(s, p, now, n).1 == (Player { stats: attack_fold(s, p, now, n).1.stats,
            ..p }),
        attack_fold(s, p, now, n).1.stats == (Stats {
            health: attack_fold(s, p, now, n).1.stats.health, ..p.stats }),
    decreases n,
{
    if n > 0 {
        lemma_attack_fold_frame(s, p, now, n - 1);
    }
}

/// Every enemy's position after the snapshot steering pass.
pub open spec fn moved_all(s: Seq<Enemy>, p_pos: Vec2Fx, radius: int, dt: int) -> Seq<Enemy> {
    Seq::new(s.len(), |i: int| if s[i].active {
        moved_enemy(s[i], p_pos, s, radius, dt)
    } else {
        s[i]
    })
}

impl Enemy {
    /// One simulation tick for the whole pool: every active enemy steers
    /// against a snapshot of the previous positions, then each slot takes
    /// its melee swing in order.
    pub fn update(enemies: &mut Vec<Enemy>, player: &mut Player, now: u64, dt_ms: u64)
        requires
            forall|i: int| 0 <= i < old(enemies)@.len() ==> (#[trigger] old(enemies)@[i]).wf(),
            old(enemies)@.len() <= POOL_LIMIT,
            old(player).wf(),
            now <= TIME_LIMIT,
            dt_ms <= DT_LIMIT,
        ensures
            final(enemies)@.len() == old(enemies)@.len(),
            forall|i: int| 0 <= i < final(enemies)@.len() ==> (#[trigger] final(enemies)@[i]).wf(),
            final(player).wf(),
            ({
                let moved = moved_all(old(enemies)@, old(player).position, 30 * FP as int,
                    dt_ms as int);
                let r = attack_fold(moved, *old(player), now, moved.len() as int);
                final(enemies)@ == r.0 && *final(player) == r.1
            }),
    {
        let n = enemies.len();
        let mut snapshot: Vec<Enemy> = Vec::new();
        for i in 0..n
            invariant
                n == enemies@.len(),
                snapshot@.len() == i,
                snapshot@ == enemies@.take(i as int),
                forall|j: int| 0 <= j < enemies@.len() ==> (#[trigger] enemies@[j]).wf(),
        {
            snapshot.push(enemies[i]);
            proof {
                assert(snapshot@ == enemies@.take(i + 1));
            }
        }
        proof {
            assert(snapshot@ == enemies@.take(n as int));
            assert(snapshot@ == enemies@);
        }
        let ghost moved = moved_all(old(enemies)@, old(player).position, 30 * FP as int,
            dt_ms as int);
        for i in 0..n
            invariant
                n == enemies@.len() == snapshot@.len() <= POOL_LIMIT,
                snapshot@ == old(enemies)@,
                moved == moved_all(old(enemies)@, old(player).position, 30 * FP as int,
                    dt_ms as int),
                *player == *old(player),
                player.wf(),
                dt_ms <= DT_LIMIT,
                forall|j: int| 0 <= j < snapshot@.len() ==> (#[trigger] snapshot@[j]).wf(),
                forall|j: int| 0 <= j < enemies@.len() ==> (#[trigger] enemies@[j]).wf(),
                forall|j: int| 0 <= j < i ==> enemies@[j] == moved[j],
                forall|j: int| i <= j < n ==> enemies@[j] == old(enemies)@[j],
        {
            let mut e = enemies[i];
            Enemy::movement(&mut e, player, &snapshot, 30 * FP, dt_ms);
            enemies[i] = e;
        }
        proof {
            assert(enemies@ =~= moved);
        }
        let ghost pool_after_move = enemies@;
        for i in 0..n
            invariant
                n == enemies@.len(),
                pool_after_move == moved,
                pool_after_move.len() == n,
                now <= TIME_LIMIT,
                player.wf(),
                forall|j: int| 0 <= j < enemies@.len() ==> (#[trigger] enemies@[j]).wf(),
                ({
                    let r = attack_fold(pool_after_move, *old(player), now, i as int);
                    enemies@ == r.0 && *player == r.1
                }),
        {
            proof {
                lemma_attack_fold_frame(pool_after_move, *old(player), now, i as int);
            }
            let mut e = enemies[i];
            e.attack(player, now);
            enemies[i] = e;
        }
    }
}

/// Number of active slots in a pool.
pub open spec fn count_active(s: Seq<Enemy>) -> int
    decreases s.len()
{
    if s.len() == 0 {
        0
    } else {
        count_active(s.drop_last()) + if s.last().active { 1int } else { 0int }
    }
}

/// The number of active enemies never exceeds the pool's capacity.
pub proof fn lemma_active_within_capacity(s: Seq<Enemy>)
    ensures
        0 <= count_active(s) <= s.len(),
    decreases s.len(),
{
    if s.len() > 0 {
        lemma_active_within_capacity(s.drop_last());
    }
}

/// Retirement is idempotent: a retired slot retired again is the same
/// dormant, off-map, rescaled slot.
pub proof fn lemma_retire_idempotent(e: Enemy, p: Player)
    ensures
        Enemy::retired_enemy(Enemy::retired_enemy(e, p), p) == Enemy::retired_enemy(e, p),
        !Enemy::retired_enemy(e, p).active,
        Enemy::retired_enemy(e, p).position.x == DORMANT_X,
        Enemy::retired_enemy(e, p).position.y == DORMANT_Y,
{
}

} // verus!
