//! Combat resolution: projectiles, the critical-hit damage formula,
//! area-of-effect application, kill handling and floating combat text.

use vstd::prelude::*;
use crate::fixed::{FP, STAT_LIMIT, TIME_LIMIT, MAP_LIMIT, DT_LIMIT, tdiv, div_trunc,
    sub_floored, max_floor, min_cap, isqrt, sqrt_floor};
use crate::vec2::{Vec2Fx, dist_sq_spec, dist_sq, dir_x_spec, dir_y_spec, direction_to,
    clamp_coords, clamp_coords_spec, lemma_tdiv_abs_bound};
use crate::player::{Player, Stats, Weapon, HEALTH_MIN, attack_interval_spec};
use crate::enemy::{Enemy, DORMANT_X, DORMANT_Y};
use crate::money::Money;
use crate::rng::{is_critical_hit, random_number};

verus! {

/// A projectile in flight.
#[derive(Clone, Copy)]
pub struct Attack {
    pub position: Vec2Fx,
    pub direction: Vec2Fx,
    pub speed: i64,
}

/// One piece of floating combat text: the damage figure, rendered large
/// and highlighted for critical hits, drifting upward while it lives.
#[derive(Clone, Copy)]
pub struct FloatingText {
    pub damage: i64,
    pub size: i64,
    pub position: Vec2Fx,
    pub velocity: Vec2Fx,
    pub lifetime_ms: i64,
    pub crit: bool,
}

pub struct DamageText {
    pub floating_texts: Vec<FloatingText>,
}

impl Attack {
    pub open spec fn wf(self) -> bool {
        &&& self.position.wf()
        &&& -FP <= self.direction.x <= FP && -FP <= self.direction.y <= FP
        &&& 0 <= self.speed <= STAT_LIMIT
    }

    pub fn new(player_pos: Vec2Fx, direction: Vec2Fx, speed: i64) -> (a: Attack)
        ensures
            a.position == player_pos,
            a.direction == direction,
            a.speed == speed,
    {
        Attack { position: player_pos, direction, speed }
    }

    /// The projectile's position after one frame of travel.
    pub open spec fn updated_spec(self, dt: int) -> Attack {
        let dx = tdiv(tdiv(self.direction.x * self.speed, FP as int) * dt, 1000);
        let dy = tdiv(tdiv(self.direction.y * self.speed, FP as int) * dt, 1000);
        Attack { position: clamp_coords_spec(self.position.x + dx, self.position.y + dy), ..self }
    }

    /// Advance along the direction at `speed` for `dt_ms` milliseconds.
    pub fn update(&mut self, dt_ms: u64)
        requires
            old(self).wf(),
            dt_ms <= DT_LIMIT,
        ensures
            final(self).wf(),
            *final(self) == old(self).updated_spec(dt_ms as int),
    {
        let speed = self.speed;
        proof {
            assert(-10_000_000_000_000 <= self.direction.x as int * speed as int
                <= 10_000_000_000_000
                && -10_000_000_000_000 <= self.direction.y as int * speed as int
                <= 10_000_000_000_000) by (nonlinear_arith)
                requires
                    -10_000 <= self.direction.x as int <= 10_000,
                    -10_000 <= self.direction.y as int <= 10_000,
                    0 <= speed as int <= 1_000_000_000;
            lemma_tdiv_abs_bound(self.direction.x as int * speed as int, FP as int,
                1_000_000_000);
            lemma_tdiv_abs_bound(self.direction.y as int * speed as int, FP as int,
                1_000_000_000);
        }
        let vx = div_trunc(self.direction.x * speed, FP);
        let vy = div_trunc(self.direction.y * speed, FP);
        proof {
            assert(-1_000_000_000_000_000 <= vx as int * dt_ms as int <= 1_000_000_000_000_000
                && -1_000_000_000_000_000 <= vy as int * dt_ms as int <= 1_000_000_000_000_000)
                by (nonlinear_arith)
                requires
                    -1_000_000_000 <= vx as int <= 1_000_000_000,
                    -1_000_000_000 <= vy as int <= 1_000_000_000,
                    0 <= dt_ms as int <= 1_000_000;
            lemma_tdiv_abs_bound(vx as int * dt_ms as int, 1000, 1_000_000_000_000);
            lemma_tdiv_abs_bound(vy as int * dt_ms as int, 1000, 1_000_000_000_000);
        }
        let dx = div_trunc(vx * (dt_ms as i64), 1000);
        let dy = div_trunc(vy * (dt_ms as i64), 1000);
        self.position = clamp_coords(self.position.x + dx, self.position.y + dy);
    }

    /// The projectile has left the `map_w x map_h` playing field.
    pub open spec fn out_of_bounds_spec(self, map_w: int, map_h: int) -> bool {
        self.position.x < 0 || self.position.x > map_w || self.position.y < 0
            || self.position.y > map_h
    }

    pub fn is_out_of_bounds(&self, map_w: i64, map_h: i64) -> (r: bool)
        ensures
            r == self.out_of_bounds_spec(map_w as int, map_h as int),
    {
        self.position.x < 0 || self.position.x > map_w || self.position.y < 0
            || self.position.y > map_h
    }

    /// The effective hit radius around an enemy: the diagonal of its
    /// bounding box less thirty units.
    pub open spec fn hit_radius_spec(e: Enemy) -> int {
        sqrt_floor((e.size.x * e.size.x + e.size.y * e.size.y) as nat) - 30 * FP
    }

    /// The projectile is within the enemy's hit radius.
    pub open spec fn collision_spec(self, e: Enemy) -> bool {
        let hr = Attack::hit_radius_spec(e);
        hr > 0 && dist_sq_spec(self.position, e.position) < hr * hr
    }

    pub fn check_collision(&self, enemy: &Enemy) -> (r: bool)
        requires
            self.wf(),
            enemy.wf(),
        ensures
            r == self.collision_spec(*enemy),
    {
        proof {
            assert(0 <= enemy.size.x * enemy.size.x <= 10_000_000_000_000_000
                && 0 <= enemy.size.y * enemy.size.y <= 10_000_000_000_000_000)
                by (nonlinear_arith)
                requires
                    0 <= enemy.size.x <= 100_000_000,
                    0 <= enemy.size.y <= 100_000_000;
        }
        let s2 = enemy.size.x * enemy.size.x + enemy.size.y * enemy.size.y;
        let len = isqrt(s2 as u64);
        proof {
            assert(len as int <= 150_000_000) by (nonlinear_arith)
                requires
                    len as int * len as int <= s2 as int,
                    s2 as int <= 20_000_000_000_000_000;
        }
        let hr = (len as i64) - 30 * FP;
        if hr <= 0 {
            return false;
        }
        proof {
            assert(hr as int * hr as int <= 22_500_000_000_000_000) by (nonlinear_arith)
                requires 0 < hr as int <= 150_000_000;
        }
        let d2 = dist_sq(self.position, enemy.position);
        d2 < hr * hr
    }
}

/// Damage dealt by one projectile hit: the raw weapon damage or, on a
/// critical roll, `weapon damage x 100 x critical damage` exactly as the
/// game scales it.
pub open spec fn damage_roll_spec(weapon_damage: int, critical_damage: int, crit: bool) -> int {
    if crit {
        tdiv(weapon_damage * critical_damage, FP as int) * 100
    } else {
        weapon_damage
    }
}

/// The floating text raised for one damage application.
pub open spec fn text_for_spec(dmg: int, position: Vec2Fx, crit: bool) -> FloatingText {
    FloatingText {
        damage: dmg as i64,
        size: if crit { (30 * FP) as i64 } else { (20 * FP) as i64 },
        position,
        velocity: Vec2Fx { x: 0, y: (-50 * FP) as i64 },
        lifetime_ms: 1000,
        crit,
    }
}

/// One damage application with roll `crit`: the enemy loses the rolled
/// damage and a floating text is raised at its position.
pub open spec fn damage_applied(p: Player, e0: Enemy, e1: Enemy, t0: Seq<FloatingText>,
    t1: Seq<FloatingText>, crit: bool) -> bool {
    let dmg = damage_roll_spec(p.weapon.damage as int, p.stats.critical_damage as int, crit);
    &&& e1 == (Enemy { health: max_floor(e0.health - dmg, HEALTH_MIN as int) as i64, ..e0 })
    &&& t1 == t0.push(text_for_spec(dmg, e0.position, crit))
}

impl FloatingText {
    pub open spec fn wf(self) -> bool {
        &&& self.position.wf()
        &&& -STAT_LIMIT <= self.velocity.x <= STAT_LIMIT
        &&& -STAT_LIMIT <= self.velocity.y <= STAT_LIMIT
        &&& -10_000_000 <= self.lifetime_ms <= 1_000_000_000
    }

    /// The text after drifting for `dt` milliseconds of its lifetime.
    pub open spec fn updated_spec(self, dt: int) -> FloatingText {
        FloatingText {
            position: clamp_coords_spec(self.position.x + tdiv(self.velocity.x * dt, 1000),
                self.position.y + tdiv(self.velocity.y * dt, 1000)),
            lifetime_ms: (self.lifetime_ms - dt) as i64,
            ..self
        }
    }

    pub fn is_expired(&self) -> (r: bool)
        ensures
            r == (self.lifetime_ms <= 0),
    {
        self.lifetime_ms <= 0
    }
}

/// The texts that remain after every one of the first `n` drifts for
/// `dt` milliseconds and the expired ones are dropped, in order.
pub open spec fn pruned_texts(s: Seq<FloatingText>, dt: int, n: int) -> Seq<FloatingText>
    decreases n,
{
    if n <= 0 {
        Seq::empty()
    } else {
        let prev = pruned_texts(s, dt, n - 1);
        let t = s[n - 1].updated_spec(dt);
        if t.lifetime_ms > 0 {
            prev.push(t)
        } else {
            prev
        }
    }
}

impl DamageText {
    pub open spec fn wf(self) -> bool {
        forall|i: int| 0 <= i < self.floating_texts@.len()
            ==> (#[trigger] self.floating_texts@[i]).wf()
    }

    /// Drift every floating text and drop the expired ones.
    pub fn update(&mut self, dt_ms: u64)
        requires
            old(self).wf(),
            dt_ms <= DT_LIMIT,
        ensures
            final(self).wf(),
            final(self).floating_texts@ == pruned_texts(old(self).floating_texts@, dt_ms as int,
                old(self).floating_texts@.len() as int),
    {
        let n = self.floating_texts.len();
        let mut kept: Vec<FloatingText> = Vec::new();
        for i in 0..n
            invariant
                n == self.floating_texts@.len(),
                self.floating_texts@ == old(self).floating_texts@,
                forall|j: int| 0 <= j < n ==> (#[trigger] self.floating_texts@[j]).wf(),
                forall|j: int| 0 <= j < kept@.len() ==> (#[trigger] kept@[j]).wf(),
                kept@ == pruned_texts(old(self).floating_texts@, dt_ms as int, i as int),
                dt_ms <= DT_LIMIT,
        {
            let t = self.floating_texts[i];
            let mut moved = t;
            proof {
                assert(-1_000_000_000_000_000 <= t.velocity.x as int * dt_ms as int
                    <= 1_000_000_000_000_000
                    && -1_000_000_000_000_000 <= t.velocity.y as int * dt_ms as int
                    <= 1_000_000_000_000_000) by (nonlinear_arith)
                    requires
                        -1_000_000_000 <= t.velocity.x as int <= 1_000_000_000,
                        -1_000_000_000 <= t.velocity.y as int <= 1_000_000_000,
                        0 <= dt_ms as int <= 1_000_000;
                lemma_tdiv_abs_bound(t.velocity.x as int * dt_ms as int, 1000,
                    1_000_000_000_000);
                lemma_tdiv_abs_bound(t.velocity.y as int * dt_ms as int, 1000,
                    1_000_000_000_000);
            }
            let mx = div_trunc(t.velocity.x * (dt_ms as i64), 1000);
            let my = div_trunc(t.velocity.y * (dt_ms as i64), 1000);
            moved.position = clamp_coords(t.position.x + mx, t.position.y + my);
            moved.lifetime_ms = t.lifetime_ms - (dt_ms as i64);
            if !moved.is_expired() {
                kept.push(moved);
            }
        }
        self.floating_texts = kept;
    }

    pub fn new() -> (t: DamageText)
        ensures
            t.floating_texts@.len() == 0,
            t.wf(),
    {
        DamageText { floating_texts: Vec::new() }
    }

    fn add_floating_text(&mut self, size: i64, damage: i64, crit: bool, position: Vec2Fx)
        requires
            position.wf(),
        ensures
            final(self).floating_texts@ == old(self).floating_texts@.push(FloatingText {
                damage, size, position, velocity: Vec2Fx { x: 0, y: (-50 * FP) as i64 },
                lifetime_ms: 1000, crit }),
            old(self).wf() ==> final(self).wf(),
    {
        self.floating_texts.push(FloatingText {
            damage,
            size,
            position,
            velocity: Vec2Fx { x: 0, y: -50 * FP },
            lifetime_ms: 1000,
            crit,
        });
    }
}

/// Apply one hit with a known critical roll; exact damage and text.
pub fn apply_damage_with_roll(player: &Player, enemy: &mut Enemy, crit: bool,
    damage_text: &mut DamageText)
    requires
        player.wf(),
        old(enemy).wf(),
        old(damage_text).wf(),
    ensures
        final(enemy).wf(),
        final(damage_text).wf(),
        damage_applied(*player, *old(enemy), *final(enemy), old(damage_text).floating_texts@,
            final(damage_text).floating_texts@, crit),
{
    let mut damage = player.weapon.damage;
    let mut font_size: i64 = 20 * FP;
    if crit {
        proof {
            assert(0 <= player.weapon.damage * player.stats.critical_damage
                <= 1_000_000_000_000_000_000) by (nonlinear_arith)
                requires
                    0 <= player.weapon.damage <= STAT_LIMIT,
                    0 <= player.stats.critical_damage <= STAT_LIMIT;
            lemma_tdiv_abs_bound(player.weapon.damage as int
                * player.stats.critical_damage as int, FP as int, 100_000_000_000_000);
        }
        font_size = 30 * FP;
        damage = div_trunc(player.weapon.damage * player.stats.critical_damage, FP) * 100;
    }
    enemy.health = sub_floored(enemy.health, damage, HEALTH_MIN);
    damage_text.add_floating_text(font_size, damage, crit, enemy.position);
}

/// Apply one hit, rolling the critical chance. Whatever the roll, the
/// outcome is one exact damage application; a non-positive chance never
/// crits and a chance of one or more always does.
pub fn apply_damage(player: &Player, enemy: &mut Enemy, damage_text: &mut DamageText)
    requires
        player.wf(),
        old(enemy).wf(),
        old(damage_text).wf(),
    ensures
        final(enemy).wf(),
        final(damage_text).wf(),
        exists|crit: bool| damage_applied(*player, *old(enemy), *final(enemy),
            old(damage_text).floating_texts@, final(damage_text).floating_texts@, crit)
            && (player.stats.critical_chance <= 0 ==> !crit)
            && (player.stats.critical_chance >= FP ==> crit),
{
    let crit = is_critical_hit(player.stats.critical_chance);
    apply_damage_with_roll(player, enemy, crit, damage_text);
}

/// The player after the experience from one kill is granted.
pub open spec fn leveled_player(p: Player, exp: int) -> Player {
    let leveled = p.stats.level.gain_levels_up(exp);
    let l = p.stats.level.after_gain(exp);
    Player {
        stats: if leveled {
            p.stats.after_level_boost(l)
        } else {
            Stats { level: l, ..p.stats }
        },
        ..p
    }
}

/// The full outcome of one kill with loot value `loot`: experience is
/// granted (with stat boosts on a level-up), a coin drops at the enemy's
/// spot, and the slot is retired against the player's post-kill power.
pub open spec fn kill_outcome(e0: Enemy, p0: Player, m0: Seq<Money>, e1: Enemy, p1: Player,
    m1: Seq<Money>, loot: u32) -> bool {
    &&& p1 == leveled_player(p0, e0.experience as int)
    &&& m1 == m0.push(Money {
        position: e0.position,
        size: Vec2Fx { x: (20 * FP) as i64, y: (20 * FP) as i64 },
        value: loot,
        collected: false,
    })
    &&& e1 == Enemy::retired_enemy(e0, p1)
}

/// Kill handling with a known loot value: grant experience (and stat
/// boosts on a level-up), drop a coin worth `loot` at the enemy's spot,
/// and retire the slot against the player's post-kill power.
pub fn enemy_died_with_loot(enemy: &mut Enemy, player: &mut Player, money: &mut Vec<Money>,
    loot: u32)
    requires
        old(enemy).wf(),
        old(player).wf(),
    ensures
        final(enemy).wf(),
        final(player).wf(),
        if old(enemy).health > 0 {
            *final(enemy) == *old(enemy) && *final(player) == *old(player)
            && final(money)@ == old(money)@
        } else {
            kill_outcome(*old(enemy), *old(player), old(money)@, *final(enemy), *final(player),
                final(money)@, loot)
        },
{
    if enemy.health <= 0 {
        player.level_up(enemy.experience);
        let coin = Money::new(enemy.position, loot);
        money.push(coin);
        enemy.set_enemy_idle(player);
    }
}

/// Kill handling: as [`enemy_died_with_loot`], with the coin's value
/// drawn from 1..=10.
pub fn enemy_died(enemy: &mut Enemy, player: &mut Player, money: &mut Vec<Money>)
    requires
        old(enemy).wf(),
        old(player).wf(),
    ensures
        final(enemy).wf(),
        final(player).wf(),
        if old(enemy).health > 0 {
            *final(enemy) == *old(enemy) && *final(player) == *old(player)
            && final(money)@ == old(money)@
        } else {
            exists|loot: u32| 1 <= loot <= 10
                && #[trigger] kill_outcome(*old(enemy), *old(player), old(money)@,
                    *final(enemy), *final(player), final(money)@, loot)
        },
{
    let loot = random_number(1, 10) as u32;
    enemy_died_with_loot(enemy, player, money, loot);
}

/// Slot `i` holds an active enemy at least as close to `p_pos` as every
/// other active slot, and strictly closer than every earlier active slot
/// (the first of the nearest wins ties).
pub open spec fn closest_active_at(p_pos: Vec2Fx, s: Seq<Enemy>, i: int) -> bool {
    &&& 0 <= i < s.len()
    &&& s[i].active
    &&& forall|j: int| 0 <= j < s.len() && (#[trigger] s[j]).active
        ==> dist_sq_spec(p_pos, s[i].position) <= dist_sq_spec(p_pos, s[j].position)
    &&& forall|j: int| 0 <= j < i && (#[trigger] s[j]).active
        ==> dist_sq_spec(p_pos, s[j].position) > dist_sq_spec(p_pos, s[i].position)
}

impl Player {
    /// The first-encountered nearest active enemy, if any is active.
    pub fn find_closest_enemy(&self, enemies: &Vec<Enemy>) -> (r: Option<usize>)
        requires
            self.wf(),
            forall|i: int| 0 <= i < enemies@.len() ==> (#[trigger] enemies@[i]).wf(),
        ensures
            match r {
                Some(i) => closest_active_at(self.position, enemies@, i as int),
                None => forall|j: int| 0 <= j < enemies@.len()
                    ==> !(#[trigger] enemies@[j]).active,
            },
    {
        let n = enemies.len();
        let mut best: Option<usize> = None;
        let mut best_d2: i64 = 0;
        for i in 0..n
            invariant
                n == enemies@.len(),
                forall|j: int| 0 <= j < n ==> (#[trigger] enemies@[j]).wf(),
                self.wf(),
                match best {
                    Some(b) => {
                        &&& 0 <= b < i
                        &&& enemies@[b as int].active
                        &&& best_d2 == dist_sq_spec(self.position, enemies@[b as int].position)
                        &&& forall|j: int| 0 <= j < i && (#[trigger] enemies@[j]).active
                            ==> best_d2 <= dist_sq_spec(self.position, enemies@[j].position)
                        &&& forall|j: int| 0 <= j < b && (#[trigger] enemies@[j]).active
                            ==> dist_sq_spec(self.position, enemies@[j].position) > best_d2
                    },
                    None => forall|j: int| 0 <= j < i ==> !(#[trigger] enemies@[j]).active,
                },
        {
            if enemies[i].active {
                let d2 = dist_sq(self.position, enemies[i].position);
                match best {
                    None => {
                        best = Some(i);
                        best_d2 = d2;
                    },
                    Some(_) => {
                        if d2 < best_d2 {
                            best = Some(i);
                            best_d2 = d2;
                        }
                    },
                }
            }
        }
        best
    }
}

/// How many of the first `n` slots differ between two pools.
pub open spec fn count_changed(a: Seq<Enemy>, b: Seq<Enemy>, n: int) -> int
    decreases n,
{
    if n <= 0 {
        0
    } else {
        count_changed(a, b, n - 1) + if a[n - 1] == b[n - 1] { 0int } else { 1int }
    }
}

/// What splash damage may do to one slot: the enemy keeps its identity
/// and either takes damage in place or dies and is retired off-map.
pub open spec fn aoe_touched(e0: Enemy, e1: Enemy) -> bool {
    &&& e1.elite == e0.elite
    &&& e1.size == e0.size
    &&& e1.movement_speed == e0.movement_speed
    &&& e1.experience == e0.experience
    &&& e1.attack_speed == e0.attack_speed
    &&& ({
        ||| (e1.active == e0.active && e1.position == e0.position
            && e1.last_attack_time == e0.last_attack_time
            && e1.base_health == e0.base_health && e1.health <= e0.health
            && e1.damage == e0.damage)
        ||| (!e1.active && e1.position.x == DORMANT_X && e1.position.y == DORMANT_Y
            && e1.last_attack_time == 0 && e1.base_health == e0.base_health)
    })
}

/// Two splash outcomes in a row are one splash outcome.
pub proof fn lemma_aoe_touched_trans(e0: Enemy, e1: Enemy, e2: Enemy)
    requires
        aoe_touched(e0, e1),
        aoe_touched(e1, e2),
    ensures
        aoe_touched(e0, e2),
{
}

/// The player with combat-relevant frame fields preserved: everything an
/// area-of-effect resolution may change is the leveling block.
pub open spec fn aoe_player_frame(p0: Player, p1: Player) -> bool {
    &&& p1.position == p0.position
    &&& p1.size == p0.size
    &&& p1.weapon == p0.weapon
    &&& p1.stats.money == p0.stats.money
    &&& p1.stats.defense == p0.stats.defense
    &&& p1.stats.base_attack_speed == p0.stats.base_attack_speed
    &&& p1.stats.level.level >= p0.stats.level.level
}

/// The whole splash resolution as a fold over the first `n` slots, given
/// the critical rolls and loot values drawn along the way (`crits[k]` and
/// `loots[k]` are consumed by the k-th damaged enemy). Returns the pool,
/// player, coin list and text list after the walk, plus how many enemies
/// were damaged: each active slot within the weapon's damage radius, up
/// to the `aoe_count` cap, takes one damage application with its roll,
/// and a death is resolved on the spot.
pub open spec fn splash_fold(pool: Seq<Enemy>, hit: Vec2Fx, p0: Player, m0: Seq<Money>,
    t0: Seq<FloatingText>, crits: Seq<bool>, loots: Seq<u32>, n: int)
    -> (Seq<Enemy>, Player, Seq<Money>, Seq<FloatingText>, int)
    decreases n,
{
    if n <= 0 {
        (pool, p0, m0, t0, 0int)
    } else {
        let r = splash_fold(pool, hit, p0, m0, t0, crits, loots, n - 1);
        let e = r.0[n - 1];
        if e.active
            && dist_sq_spec(e.position, hit)
                <= r.1.weapon.damage_radius * r.1.weapon.damage_radius
            && r.4 < r.1.weapon.aoe_count {
            let crit = crits[r.4];
            let dmg = damage_roll_spec(r.1.weapon.damage as int,
                r.1.stats.critical_damage as int, crit);
            let e1 = Enemy { health: max_floor(e.health - dmg, HEALTH_MIN as int) as i64, ..e };
            let t1 = r.3.push(text_for_spec(dmg, e.position, crit));
            if e1.health <= 0 {
                let p1 = leveled_player(r.1, e1.experience as int);
                let m1 = r.2.push(Money {
                    position: e1.position,
                    size: Vec2Fx { x: (20 * FP) as i64, y: (20 * FP) as i64 },
                    value: loots[r.4],
                    collected: false,
                });
                (r.0.update(n - 1, Enemy::retired_enemy(e1, p1)), p1, m1, t1, r.4 + 1)
            } else {
                (r.0.update(n - 1, e1), r.1, r.2, t1, r.4 + 1)
            }
        } else {
            r
        }
    }
}

/// The fold walks slots in order: it never touches a slot at or past `n`,
/// keeps the pool's length, only relevels the player, and damages at
/// most `min(n, aoe_count)` enemies.
pub proof fn lemma_splash_fold_frame(pool: Seq<Enemy>, hit: Vec2Fx, p0: Player, m0: Seq<Money>,
    t0: Seq<FloatingText>, crits: Seq<bool>, loots: Seq<u32>, n: int)
    requires
        0 <= n <= pool.len(),
    ensures
        splash_fold(pool, hit, p0, m0, t0, crits, loots, n).0.len() == pool.len(),
        forall|j: int| n <= j < pool.len()
            ==> splash_fold(pool, hit, p0, m0, t0, crits, loots, n).0[j] == pool[j],
        splash_fold(pool, hit, p0, m0, t0, crits, loots, n).1.weapon == p0.weapon,
        splash_fold(pool, hit, p0, m0, t0, crits, loots, n).1.position == p0.position,
        splash_fold(pool, hit, p0, m0, t0, crits, loots, n).1.size == p0.size,
        0 <= splash_fold(pool, hit, p0, m0, t0, crits, loots, n).4 <= n,
        splash_fold(pool, hit, p0, m0, t0, crits, loots, n).4 <= p0.weapon.aoe_count,
    decreases n,
{
    if n > 0 {
        lemma_splash_fold_frame(pool, hit, p0, m0, t0, crits, loots, n - 1);
    }
}

/// The fold reads only the rolls it consumes: extending the roll
/// sequences beyond the damaged count changes nothing.
pub proof fn lemma_splash_fold_roll_prefix(pool: Seq<Enemy>, hit: Vec2Fx, p0: Player,
    m0: Seq<Money>, t0: Seq<FloatingText>, crits1: Seq<bool>, loots1: Seq<u32>,
    crits2: Seq<bool>, loots2: Seq<u32>, n: int)
    requires
        0 <= n <= pool.len(),
        crits1.is_prefix_of(crits2),
        loots1.is_prefix_of(loots2),
        splash_fold(pool, hit, p0, m0, t0, crits1, loots1, n).4 <= crits1.len(),
        splash_fold(pool, hit, p0, m0, t0, crits1, loots1, n).4 <= loots1.len(),
    ensures
        splash_fold(pool, hit, p0, m0, t0, crits2, loots2, n)
            == splash_fold(pool, hit, p0, m0, t0, crits1, loots1, n),
    decreases n,
{
    if n > 0 {
        let prev = splash_fold(pool, hit, p0, m0, t0, crits1, loots1, n - 1);
        let this = splash_fold(pool, hit, p0, m0, t0, crits1, loots1, n);
        assert(prev.4 <= this.4);
        lemma_splash_fold_frame(pool, hit, p0, m0, t0, crits1, loots1, n - 1);
        lemma_splash_fold_roll_prefix(pool, hit, p0, m0, t0, crits1, loots1, crits2, loots2,
            n - 1);
        let e = prev.0[n - 1];
        if e.active
            && dist_sq_spec(e.position, hit)
                <= prev.1.weapon.damage_radius * prev.1.weapon.damage_radius
            && prev.4 < prev.1.weapon.aoe_count {
            // The one roll this step consumes agrees between the two
            // sequences.
            assert(this.4 == prev.4 + 1);
            assert(crits1 =~= crits2.subrange(0, crits1.len() as int));
            assert(loots1 =~= loots2.subrange(0, loots1.len() as int));
            assert(crits2[prev.4] == crits1[prev.4]);
            assert(loots2[prev.4] == loots1[prev.4]);
        }
    }
}

/// Once the damaged count has reached the cap, walking further slots
/// changes nothing.
pub proof fn lemma_splash_fold_saturated(pool: Seq<Enemy>, hit: Vec2Fx, p0: Player,
    m0: Seq<Money>, t0: Seq<FloatingText>, crits: Seq<bool>, loots: Seq<u32>, i: int, n: int)
    requires
        0 <= i <= n <= pool.len(),
        splash_fold(pool, hit, p0, m0, t0, crits, loots, i).4 == p0.weapon.aoe_count,
    ensures
        splash_fold(pool, hit, p0, m0, t0, crits, loots, n)
            == splash_fold(pool, hit, p0, m0, t0, crits, loots, i),
    decreases n - i,
{
    if i < n {
        lemma_splash_fold_saturated(pool, hit, p0, m0, t0, crits, loots, i, n - 1);
        lemma_splash_fold_frame(pool, hit, p0, m0, t0, crits, loots, n - 1);
    }
}

/// The splash resolution relation: the after-state is the fold of the
/// before-state over the whole pool, under some sequence of critical
/// rolls and in-range loot values.
pub open spec fn splash_resolved(pool0: Seq<Enemy>, hit: Vec2Fx, p0: Player, m0: Seq<Money>,
    t0: Seq<FloatingText>, pool1: Seq<Enemy>, p1: Player, m1: Seq<Money>,
    t1: Seq<FloatingText>) -> bool {
    exists|crits: Seq<bool>, loots: Seq<u32>|
        #![trigger splash_fold(pool0, hit, p0, m0, t0, crits, loots, pool0.len() as int)]
        {
            &&& (forall|k: int| 0 <= k < loots.len() ==> 1 <= #[trigger] loots[k] <= 10)
            &&& ({
                let r = splash_fold(pool0, hit, p0, m0, t0, crits, loots, pool0.len() as int);
                pool1 == r.0 && p1 == r.1 && m1 == r.2 && t1 == r.3
            })
        }
}

/// Splash damage around `hit_position`: walk the pool in order, damage
/// each active enemy inside the weapon's damage radius (resolving deaths
/// at once), and stop before damaging more than `aoe_count` enemies.
/// Returns false: a projectile that lands is always consumed.
pub fn apply_area_of_effect_damage(enemies: &mut Vec<Enemy>, hit_position: Vec2Fx,
    money: &mut Vec<Money>, player: &mut Player, damage_text: &mut DamageText) -> (removed: bool)
    requires
        forall|i: int| 0 <= i < old(enemies)@.len() ==> (#[trigger] old(enemies)@[i]).wf(),
        old(player).wf(),
        old(damage_text).wf(),
        hit_position.wf(),
    ensures
        !removed,
        final(enemies)@.len() == old(enemies)@.len(),
        forall|i: int| 0 <= i < final(enemies)@.len() ==> (#[trigger] final(enemies)@[i]).wf(),
        final(player).wf(),
        final(damage_text).wf(),
        // Never more than the weapon's target cap is touched per impact,
        // and a single pass never touches one slot twice.
        count_changed(old(enemies)@, final(enemies)@, old(enemies)@.len() as int)
            <= old(player).weapon.aoe_count,
        // Dormant enemies and enemies outside the damage radius are
        // untouched.
        forall|i: int| 0 <= i < old(enemies)@.len()
            && !((#[trigger] old(enemies)@[i]).active
                && dist_sq_spec(old(enemies)@[i].position, hit_position)
                    <= old(player).weapon.damage_radius * old(player).weapon.damage_radius)
            ==> final(enemies)@[i] == old(enemies)@[i],
        // A touched slot only loses health or dies and is retired.
        forall|i: int| 0 <= i < old(enemies)@.len()
            ==> final(enemies)@[i] == old(enemies)@[i]
                || aoe_touched(#[trigger] old(enemies)@[i], final(enemies)@[i]),
        aoe_player_frame(*old(player), *final(player)),
        old(money)@.is_prefix_of(final(money)@),
        old(damage_text).floating_texts@.is_prefix_of(final(damage_text).floating_texts@),
        // The after-state is exactly the splash fold of the before-state
        // under the critical and loot rolls drawn along the way.
        splash_resolved(old(enemies)@, hit_position, *old(player), old(money)@,
            old(damage_text).floating_texts@, final(enemies)@, *final(player), final(money)@,
            final(damage_text).floating_texts@),
    {
    let ghost pool0 = old(enemies)@;
    let n = enemies.len();
    let radius = player.weapon.damage_radius;
    proof {
        assert(radius * radius <= 1_000_000_000_000_000_000) by (nonlinear_arith)
            requires 0 <= radius <= STAT_LIMIT;
    }
    let radius_sq = radius * radius;
    let mut enemies_damaged: usize = 0;
    let ghost mut crits_g: Seq<bool> = Seq::empty();
    let ghost mut loots_g: Seq<u32> = Seq::empty();
    let mut i: usize = 0;
    while i < n
        invariant
            n == enemies@.len() == pool0.len(),
            pool0 == old(enemies)@,
            forall|j: int| 0 <= j < n ==> (#[trigger] enemies@[j]).wf(),
            player.wf(),
            damage_text.wf(),
            hit_position.wf(),
            radius == old(player).weapon.damage_radius,
            radius_sq == radius * radius,
            player.weapon == old(player).weapon,
            0 <= i <= n,
            enemies_damaged <= player.weapon.aoe_count,
            count_changed(pool0, enemies@, i as int) <= enemies_damaged,
            forall|j: int| i <= j < n ==> enemies@[j] == pool0[j],
            forall|j: int| 0 <= j < i
                && !((#[trigger] pool0[j]).active
                    && dist_sq_spec(pool0[j].position, hit_position) <= radius * radius)
                ==> enemies@[j] == pool0[j],
            forall|j: int| 0 <= j < i
                ==> enemies@[j] == pool0[j]
                    || aoe_touched(#[trigger] pool0[j], enemies@[j]),
            aoe_player_frame(*old(player), *player),
            old(money)@.is_prefix_of(money@),
            old(damage_text).floating_texts@.is_prefix_of(damage_text.floating_texts@),
            crits_g.len() == enemies_damaged as int,
            loots_g.len() == enemies_damaged as int,
            forall|k: int| 0 <= k < loots_g.len() ==> 1 <= #[trigger] loots_g[k] <= 10,
            ({
                let r = splash_fold(pool0, hit_position, *old(player), old(money)@,
                    old(damage_text).floating_texts@, crits_g, loots_g, i as int);
                enemies@ == r.0 && *player == r.1 && money@ == r.2
                    && damage_text.floating_texts@ == r.3 && enemies_damaged as int == r.4
            }),
        ensures
            forall|k: int| 0 <= k < loots_g.len() ==> 1 <= #[trigger] loots_g[k] <= 10,
            ({
                let r = splash_fold(pool0, hit_position, *old(player), old(money)@,
                    old(damage_text).floating_texts@, crits_g, loots_g, n as int);
                enemies@ == r.0 && *player == r.1 && money@ == r.2
                    && damage_text.floating_texts@ == r.3
            }),
            n == enemies@.len() == pool0.len(),
            pool0 == old(enemies)@,
            forall|j: int| 0 <= j < n ==> (#[trigger] enemies@[j]).wf(),
            player.wf(),
            damage_text.wf(),
            count_changed(pool0, enemies@, n as int) <= old(player).weapon.aoe_count,
            forall|j: int| 0 <= j < n
                && !((#[trigger] pool0[j]).active
                    && dist_sq_spec(pool0[j].position, hit_position) <= radius * radius)
                ==> enemies@[j] == pool0[j],
            forall|j: int| 0 <= j < n
                ==> enemies@[j] == pool0[j]
                    || aoe_touched(#[trigger] pool0[j], enemies@[j]),
            radius == old(player).weapon.damage_radius,
            aoe_player_frame(*old(player), *player),
            old(money)@.is_prefix_of(money@),
            old(damage_text).floating_texts@.is_prefix_of(damage_text.floating_texts@),
        decreases n - i,
    {
        let ghost pool_before = enemies@;
        let e_ref = &enemies[i];
        let active = e_ref.active;
        let d2 = dist_sq(e_ref.position, hit_position);
        if active && d2 <= radius_sq {
            if enemies_damaged == player.weapon.aoe_count {
                proof {
                    lemma_splash_fold_saturated(pool0, hit_position, *old(player),
                        old(money)@, old(damage_text).floating_texts@, crits_g, loots_g,
                        i as int, n as int);
                    lemma_count_changed_extend(pool0, enemies@, i as int, n as int);
                }
                break;
            }
            let mut e = enemies[i];
            let ghost e0 = e;
            let ghost p_b = *player;
            let ghost m_b = money@;
            let ghost t_b = damage_text.floating_texts@;
            apply_damage(player, &mut e, damage_text);
            let ghost e1 = e;
            let ghost t_mid = damage_text.floating_texts@;
            enemy_died(&mut e, player, money);
            enemies[i] = e;
            enemies_damaged = enemies_damaged + 1;
            proof {
                assert(count_changed(pool0, enemies@, i + 1)
                    <= count_changed(pool0, pool_before, i as int) + 1) by {
                    lemma_count_changed_congruent(pool0, pool_before, enemies@, i as int);
                };
                // Record the rolls this slot consumed and extend the fold.
                let crit = choose|c: bool| damage_applied(p_b, e0, e1, t_b, t_mid, c);
                let loot: u32 = if e1.health <= 0 {
                    choose|l: u32| 1 <= l <= 10
                        && kill_outcome(e1, p_b, m_b, e, *player, money@, l)
                } else {
                    1u32
                };
                let crits_new = crits_g.push(crit);
                let loots_new = loots_g.push(loot);
                lemma_splash_fold_roll_prefix(pool0, hit_position, *old(player), old(money)@,
                    old(damage_text).floating_texts@, crits_g, loots_g, crits_new, loots_new,
                    i as int);
                crits_g = crits_new;
                loots_g = loots_new;
            }
        } else {
            proof {
                lemma_count_changed_congruent(pool0, pool_before, enemies@, i as int);
            }
        }
        i = i + 1;
    }
    proof {
        assert(pool0.len() as int == n as int);
        assert(splash_resolved(pool0, hit_position, *old(player), old(money)@,
            old(damage_text).floating_texts@, enemies@, *player, money@,
            damage_text.floating_texts@)) by {
            let r = splash_fold(pool0, hit_position, *old(player), old(money)@,
                old(damage_text).floating_texts@, crits_g, loots_g, pool0.len() as int);
            assert(enemies@ == r.0 && *player == r.1 && money@ == r.2
                && damage_text.floating_texts@ == r.3);
        };
    }
    false
}

/// A prefix of a prefix is a prefix.
proof fn lemma_prefix_trans<T>(a: Seq<T>, b: Seq<T>, c: Seq<T>)
    requires
        a.is_prefix_of(b),
        b.is_prefix_of(c),
    ensures
        a.is_prefix_of(c),
{
    assert(c.subrange(0, a.len() as int) =~= a);
}

/// One projectile's outcome within a tick: a projectile that has left
/// the map is dropped with nothing else happening; one that remains
/// either touches no active enemy of the pool as it then stands and
/// survives in order, or is consumed by exactly one splash resolution at
/// its position.
pub open spec fn tick_step(b: Attack, map_w: int, map_h: int, km: Seq<Attack>, pm: Seq<Enemy>,
    ppm: Player, mm: Seq<Money>, tm: Seq<FloatingText>, kept: Seq<Attack>, pool1: Seq<Enemy>,
    p1: Player, m1: Seq<Money>, t1: Seq<FloatingText>) -> bool {
    if b.out_of_bounds_spec(map_w, map_h) {
        // Dropped before any collision is considered.
        kept == km && pool1 == pm && p1 == ppm && m1 == mm && t1 == tm
    } else if exists|e: int| 0 <= e < pm.len() && (#[trigger] pm[e]).active
        && b.collision_spec(pm[e]) {
        // Consumed: one splash resolution at its position.
        kept == km && splash_resolved(pm, b.position, ppm, mm, tm, pool1, p1, m1, t1)
    } else {
        // Survives, in order; nothing else changes.
        kept == km.push(b) && pool1 == pm && p1 == ppm && m1 == mm && t1 == tm
    }
}

/// The links of a fly-filter-resolve chain: consecutive states are
/// joined by one projectile outcome each, in order.
pub open spec fn tick_chain_links(flown: Seq<Attack>, map_w: int, map_h: int,
    states: Seq<(Seq<Attack>, Seq<Enemy>, Player, Seq<Money>, Seq<FloatingText>)>,
    n: int) -> bool {
    forall|i: int| 0 <= i < n ==> tick_step(flown[i], map_w, map_h,
        (#[trigger] states[i]).0, states[i].1, states[i].2, states[i].3, states[i].4,
        states[i + 1].0, states[i + 1].1, states[i + 1].2, states[i + 1].3, states[i + 1].4)
}

/// The whole fly-filter-resolve pass as a relation over the first `n`
/// flown projectiles: a chain of intermediate states links the
/// before-state (with no projectile kept yet) to the after-state by one
/// `tick_step` per projectile.
pub open spec fn tick_resolved(flown: Seq<Attack>, map_w: int, map_h: int, pool0: Seq<Enemy>,
    p0: Player, m0: Seq<Money>, t0: Seq<FloatingText>, kept: Seq<Attack>, pool1: Seq<Enemy>,
    p1: Player, m1: Seq<Money>, t1: Seq<FloatingText>, n: int) -> bool {
    exists|states: Seq<(Seq<Attack>, Seq<Enemy>, Player, Seq<Money>, Seq<FloatingText>)>|
        #![trigger tick_chain_links(flown, map_w, map_h, states, n)]
        {
            &&& states.len() == n + 1
            &&& states[0] == (Seq::<Attack>::empty(), pool0, p0, m0, t0)
            &&& states[n] == (kept, pool1, p1, m1, t1)
            &&& tick_chain_links(flown, map_w, map_h, states, n)
        }
}

impl Attack {
    /// One combat tick: arm the weapon exactly when its cooldown has
    /// passed and the nearest active enemy is in range (resetting the
    /// cooldown clock), and disarm it otherwise; fly every projectile one
    /// frame; then drop each projectile that left the map (before any
    /// collision is looked at) or that hit an enemy, the hit resolving
    /// splash damage around the impact.
    pub fn attack(current_time: u64, player: &mut Player, bullets: &mut Vec<Attack>,
        enemies: &mut Vec<Enemy>, coins: &mut Vec<Money>, damage_text: &mut DamageText,
        map_w: i64, map_h: i64, dt_ms: u64)
        requires
            old(player).wf(),
            forall|i: int| 0 <= i < old(bullets)@.len() ==> (#[trigger] old(bullets)@[i]).wf(),
            forall|i: int| 0 <= i < old(enemies)@.len() ==> (#[trigger] old(enemies)@[i]).wf(),
            old(damage_text).wf(),
            current_time <= TIME_LIMIT,
            0 < map_w <= MAP_LIMIT,
            0 < map_h <= MAP_LIMIT,
            dt_ms <= DT_LIMIT,
        ensures
            final(player).wf(),
            final(damage_text).wf(),
            final(enemies)@.len() == old(enemies)@.len(),
            forall|i: int| 0 <= i < final(enemies)@.len() ==> (#[trigger] final(enemies)@[i]).wf(),
            // Enemies only take splash damage or die and are retired.
            forall|i: int| 0 <= i < old(enemies)@.len()
                ==> final(enemies)@[i] == old(enemies)@[i]
                    || aoe_touched(#[trigger] old(enemies)@[i], final(enemies)@[i]),
            // The weapon is armed exactly when the cooldown has elapsed
            // and the nearest active enemy is in range, and that resets
            // the cooldown clock.
            ({
                let due = current_time > old(player).weapon.last_attack_time
                    + attack_interval_spec(old(player).stats);
                let armed = due && exists|i: int|
                    #[trigger] closest_active_at(old(player).position, old(enemies)@, i)
                    && dist_sq_spec(old(player).position, old(enemies)@[i].position)
                        < old(player).weapon.range * old(player).weapon.range;
                &&& final(player).weapon.can_shoot == armed
                &&& final(player).weapon.last_attack_time == if armed {
                    current_time as int
                } else {
                    old(player).weapon.last_attack_time as int
                }
            }),
            final(player).weapon == (Weapon {
                can_shoot: final(player).weapon.can_shoot,
                last_attack_time: final(player).weapon.last_attack_time,
                ..old(player).weapon }),
            final(player).position == old(player).position,
            final(player).size == old(player).size,
            final(player).stats.money == old(player).stats.money,
            final(player).stats.defense == old(player).stats.defense,
            final(player).stats.level.level >= old(player).stats.level.level,
            // Every projectile that survives the tick flew one frame from
            // one of the old projectiles and is still on the map.
            final(bullets)@.len() <= old(bullets)@.len(),
            forall|k: int| 0 <= k < final(bullets)@.len()
                ==> (#[trigger] final(bullets)@[k]).wf()
                    && !final(bullets)@[k].out_of_bounds_spec(map_w as int, map_h as int)
                    && exists|j: int| 0 <= j < old(bullets)@.len()
                        && final(bullets)@[k] == #[trigger] old(bullets)@[j].updated_spec(
                            dt_ms as int),
            old(coins)@.is_prefix_of(final(coins)@),
            old(damage_text).floating_texts@.is_prefix_of(final(damage_text).floating_texts@),
            // With nothing to hit, the tick is a pure fly-and-filter pass.
            old(enemies)@.len() == 0 ==> final(bullets)@ == surviving_bullets(old(bullets)@,
                map_w as int, map_h as int, dt_ms as int, old(bullets)@.len() as int),
            // In general the tick is exactly the fly-filter-resolve pass
            // over the one-frame flights of the old projectiles, starting
            // from the pool as the weapon was armed.
            ({
                let pg = Player { weapon: Weapon {
                    can_shoot: final(player).weapon.can_shoot,
                    last_attack_time: final(player).weapon.last_attack_time,
                    ..old(player).weapon }, ..*old(player) };
                tick_resolved(
                    Seq::new(old(bullets)@.len(),
                        |q: int| old(bullets)@[q].updated_spec(dt_ms as int)),
                    map_w as int, map_h as int, old(enemies)@, pg, old(coins)@,
                    old(damage_text).floating_texts@, final(bullets)@, final(enemies)@,
                    *final(player), final(coins)@, final(damage_text).floating_texts@,
                    old(bullets)@.len() as int)
            }),
    {
        let interval = player.attack_interval();
        let mut armed = false;
        if current_time > player.weapon.last_attack_time + interval {
            let target = player.find_closest_enemy(enemies);
            match target {
                Some(idx) => {
                    proof {
                        assert(player.weapon.range * player.weapon.range
                            <= 1_000_000_000_000_000_000) by (nonlinear_arith)
                            requires 0 <= player.weapon.range <= STAT_LIMIT;
                    }
                    let d2 = dist_sq(player.position, enemies[idx].position);
                    if d2 < player.weapon.range * player.weapon.range {
                        armed = true;
                        player.weapon.last_attack_time = current_time;
                    }
                },
                None => {},
            }
        }
        player.weapon.can_shoot = armed;

        let ghost player_gated = *player;
        let n = bullets.len();
        for j in 0..n
            invariant
                n == bullets@.len() == old(bullets)@.len(),
                *player == player_gated,
                dt_ms <= DT_LIMIT,
                forall|k: int| 0 <= k < n ==> (#[trigger] old(bullets)@[k]).wf(),
                forall|k: int| 0 <= k < j ==> #[trigger] bullets@[k]
                    == old(bullets)@[k].updated_spec(dt_ms as int) && bullets@[k].wf(),
                forall|k: int| j <= k < n ==> #[trigger] bullets@[k] == old(bullets)@[k],
        {
            let mut b = bullets[j];
            b.update(dt_ms);
            bullets[j] = b;
        }

        let ghost flown = bullets@;
        let mut kept: Vec<Attack> = Vec::new();
        let ghost mut states_g: Seq<(Seq<Attack>, Seq<Enemy>, Player, Seq<Money>,
            Seq<FloatingText>)> = Seq::empty().push((Seq::<Attack>::empty(), old(enemies)@,
            player_gated, old(coins)@, old(damage_text).floating_texts@));
        let mut j: usize = 0;
        while j < n
            invariant
                n == bullets@.len() == old(bullets)@.len(),
                bullets@ == flown,
                0 <= j <= n,
                0 < map_w <= MAP_LIMIT && 0 < map_h <= MAP_LIMIT,
                player.wf(),
                damage_text.wf(),
                forall|k: int| 0 <= k < n ==> (#[trigger] flown[k]).wf()
                    && flown[k] == old(bullets)@[k].updated_spec(dt_ms as int),
                enemies@.len() == old(enemies)@.len(),
                forall|k: int| 0 <= k < enemies@.len() ==> (#[trigger] enemies@[k]).wf(),
                forall|k: int| 0 <= k < old(enemies)@.len()
                    ==> enemies@[k] == old(enemies)@[k]
                        || aoe_touched(#[trigger] old(enemies)@[k], enemies@[k]),
                kept@.len() <= j,
                forall|k: int| 0 <= k < kept@.len()
                    ==> (#[trigger] kept@[k]).wf()
                        && !kept@[k].out_of_bounds_spec(map_w as int, map_h as int)
                        && exists|m: int| 0 <= m < old(bullets)@.len()
                            && kept@[k] == #[trigger] old(bullets)@[m].updated_spec(dt_ms as int),
                player.weapon == player_gated.weapon,
                player.position == player_gated.position,
                player.size == player_gated.size,
                player.stats.money == player_gated.stats.money,
                player.stats.defense == player_gated.stats.defense,
                player.stats.level.level >= player_gated.stats.level.level,
                old(coins)@.is_prefix_of(coins@),
                old(damage_text).floating_texts@.is_prefix_of(damage_text.floating_texts@),
                old(enemies)@.len() == 0 ==> kept@ == surviving_bullets(old(bullets)@,
                    map_w as int, map_h as int, dt_ms as int, j as int),
                states_g.len() == j + 1,
                states_g[0] == (Seq::<Attack>::empty(), old(enemies)@, player_gated,
                    old(coins)@, old(damage_text).floating_texts@),
                states_g[j as int] == (kept@, enemies@, *player, coins@,
                    damage_text.floating_texts@),
                tick_chain_links(flown, map_w as int, map_h as int, states_g, j as int),
            decreases n - j,
        {
            let ghost kept_b = kept@;
            let ghost pool_b = enemies@;
            let ghost p_b = *player;
            let ghost m_b = coins@;
            let ghost t_b = damage_text.floating_texts@;
            let b = bullets[j];
            if !b.is_out_of_bounds(map_w, map_h) {
                let mut hit = false;
                let en = enemies.len();
                let mut k: usize = 0;
                while k < en
                    invariant
                        en == enemies@.len(),
                        enemies@ == pool_b,
                        forall|m: int| 0 <= m < en ==> (#[trigger] enemies@[m]).wf(),
                        b.wf(),
                        en == 0 ==> !hit,
                        hit ==> exists|m: int| 0 <= m < en && (#[trigger] pool_b[m]).active
                            && b.collision_spec(pool_b[m]),
                        !hit ==> forall|m: int| 0 <= m < k
                            ==> !((#[trigger] pool_b[m]).active
                                && b.collision_spec(pool_b[m])),
                    ensures
                        en == enemies@.len(),
                        enemies@ == pool_b,
                        b.wf(),
                        hit ==> exists|m: int| 0 <= m < en && (#[trigger] pool_b[m]).active
                            && b.collision_spec(pool_b[m]),
                        !hit ==> forall|m: int| 0 <= m < en
                            ==> !((#[trigger] pool_b[m]).active
                                && b.collision_spec(pool_b[m])),
                    decreases en - k,
                {
                    // A dormant slot contributes nothing to collision.
                    if enemies[k].active && b.check_collision(&enemies[k]) {
                        hit = true;
                        break;
                    }
                    k = k + 1;
                }
                if hit {
                    let ghost coins_mid = coins@;
                    let ghost texts_mid = damage_text.floating_texts@;
                    let ghost pool_mid = enemies@;
                    let _ = apply_area_of_effect_damage(enemies, b.position, coins, player,
                        damage_text);
                    proof {
                        lemma_prefix_trans(old(coins)@, coins_mid, coins@);
                        lemma_prefix_trans(old(damage_text).floating_texts@, texts_mid,
                            damage_text.floating_texts@);
                        assert forall|k: int| 0 <= k < old(enemies)@.len()
                            implies enemies@[k] == old(enemies)@[k]
                                || aoe_touched(#[trigger] old(enemies)@[k], enemies@[k]) by {
                            if enemies@[k] != pool_mid[k] && pool_mid[k] != old(enemies)@[k] {
                                lemma_aoe_touched_trans(old(enemies)@[k], pool_mid[k],
                                    enemies@[k]);
                            }
                        };
                        assert(tick_step(b, map_w as int, map_h as int, kept_b, pool_b, p_b,
                            m_b, t_b, kept@, enemies@, *player, coins@,
                            damage_text.floating_texts@));
                    }
                } else {
                    kept.push(b);
                    proof {
                        assert(tick_step(b, map_w as int, map_h as int, kept_b, pool_b, p_b,
                            m_b, t_b, kept@, enemies@, *player, coins@,
                            damage_text.floating_texts@));
                    }
                }
            } else {
                proof {
                    assert(tick_step(b, map_w as int, map_h as int, kept_b, pool_b, p_b,
                        m_b, t_b, kept@, enemies@, *player, coins@,
                        damage_text.floating_texts@));
                }
            }
            proof {
                // Extend the state chain by this projectile's outcome.
                let prev = states_g;
                states_g = states_g.push((kept@, enemies@, *player, coins@,
                    damage_text.floating_texts@));
                assert forall|i: int| 0 <= i < j + 1 implies tick_step(flown[i],
                    map_w as int, map_h as int,
                    (#[trigger] states_g[i]).0, states_g[i].1, states_g[i].2, states_g[i].3,
                    states_g[i].4, states_g[i + 1].0, states_g[i + 1].1, states_g[i + 1].2,
                    states_g[i + 1].3, states_g[i + 1].4) by {
                    if i < j as int {
                        assert(tick_step(flown[i], map_w as int, map_h as int,
                            (prev[i]).0, prev[i].1, prev[i].2, prev[i].3, prev[i].4,
                            prev[i + 1].0, prev[i + 1].1, prev[i + 1].2, prev[i + 1].3,
                            prev[i + 1].4));
                    } else {
                        assert(states_g[i] == (kept_b, pool_b, p_b, m_b, t_b));
                        assert(states_g[i + 1] == (kept@, enemies@, *player, coins@,
                            damage_text.floating_texts@));
                    }
                };
            }
            j = j + 1;
        }
        *bullets = kept;
        proof {
            assert(flown =~= Seq::new(old(bullets)@.len(),
                |q: int| old(bullets)@[q].updated_spec(dt_ms as int)));
            assert(player_gated == (Player { weapon: Weapon {
                can_shoot: player.weapon.can_shoot,
                last_attack_time: player.weapon.last_attack_time,
                ..old(player).weapon }, ..*old(player) }));
            assert(tick_chain_links(flown, map_w as int, map_h as int, states_g, n as int));
        }
    }
}

/// The projectiles still on the map after the first `n` fly one frame,
/// in order; with no enemies on the field this is exactly what a tick
/// leaves in flight.
pub open spec fn surviving_bullets(s: Seq<Attack>, map_w: int, map_h: int, dt: int, n: int)
    -> Seq<Attack>
    decreases n,
{
    if n <= 0 {
        Seq::empty()
    } else {
        let prev = surviving_bullets(s, map_w, map_h, dt, n - 1);
        let b = s[n - 1].updated_spec(dt);
        if b.out_of_bounds_spec(map_w, map_h) {
            prev
        } else {
            prev.push(b)
        }
    }
}

/// Where the weapon sits on its orbit circle while aiming at `target`.
pub open spec fn gun_position_spec(p: Player, target: Vec2Fx) -> Vec2Fx {
    clamp_coords_spec(
        p.position.x + tdiv(dir_x_spec(p.position, target) * p.weapon.circle_radius, FP as int),
        p.position.y + tdiv(dir_y_spec(p.position, target) * p.weapon.circle_radius, FP as int),
    )
}

/// The projectile spawned at the weapon's orbit position toward `target`.
pub open spec fn shot_for_spec(p: Player, target: Vec2Fx) -> Attack {
    Attack {
        position: gun_position_spec(p, target),
        direction: Vec2Fx {
            x: dir_x_spec(p.position, target) as i64,
            y: dir_y_spec(p.position, target) as i64,
        },
        speed: p.weapon.speed,
    }
}

impl Attack {
    /// Aim the weapon at one target: park it on the orbit circle, face the
    /// target, and — if the target is in range and the weapon is armed —
    /// loose one projectile toward it.
    pub fn weapon_system(player: &mut Player, closest_enemy: &Enemy, bullets: &mut Vec<Attack>)
        requires
            old(player).wf(),
            closest_enemy.wf(),
            forall|i: int| 0 <= i < old(bullets)@.len() ==> (#[trigger] old(bullets)@[i]).wf(),
        ensures
            final(player).wf(),
            final(player).weapon.position == gun_position_spec(*old(player),
                closest_enemy.position),
            final(player).weapon.direction == shot_for_spec(*old(player),
                closest_enemy.position).direction,
            *final(player) == (Player { weapon: Weapon {
                position: final(player).weapon.position,
                direction: final(player).weapon.direction,
                ..old(player).weapon }, ..*old(player) }),
            final(bullets)@ == if dist_sq_spec(old(player).position, closest_enemy.position)
                < old(player).weapon.range * old(player).weapon.range
                && old(player).weapon.can_shoot {
                old(bullets)@.push(shot_for_spec(*old(player), closest_enemy.position))
            } else {
                old(bullets)@
            },
            forall|i: int| 0 <= i < final(bullets)@.len() ==> (#[trigger] final(bullets)@[i]).wf(),
    {
        let dir = direction_to(player.position, closest_enemy.position);
        let cr = player.weapon.circle_radius;
        proof {
            assert(-10_000_000_000_000 <= dir.x as int * cr as int <= 10_000_000_000_000
                && -10_000_000_000_000 <= dir.y as int * cr as int <= 10_000_000_000_000)
                by (nonlinear_arith)
                requires
                    -10_000 <= dir.x as int <= 10_000,
                    -10_000 <= dir.y as int <= 10_000,
                    0 <= cr as int <= 1_000_000_000;
            lemma_tdiv_abs_bound(dir.x as int * cr as int, FP as int, 1_000_000_000);
            lemma_tdiv_abs_bound(dir.y as int * cr as int, FP as int, 1_000_000_000);
        }
        let ox = div_trunc(dir.x * cr, FP);
        let oy = div_trunc(dir.y * cr, FP);
        let gun_position = clamp_coords(player.position.x + ox, player.position.y + oy);
        player.weapon.position = gun_position;
        player.weapon.direction = dir;
        proof {
            assert(player.weapon.range * player.weapon.range <= 1_000_000_000_000_000_000)
                by (nonlinear_arith)
                requires 0 <= player.weapon.range <= STAT_LIMIT;
        }
        let d2 = dist_sq(player.position, closest_enemy.position);
        if d2 < player.weapon.range * player.weapon.range {
            if player.weapon.can_shoot {
                let bullet = Attack::new(player.weapon.position, player.weapon.direction,
                    player.weapon.speed);
                bullets.push(bullet);
            }
        }
    }
}

/// Index `a` comes before index `b` when aiming from `p_pos`: strictly
/// closer, or at the same distance and earlier in the pool.
pub open spec fn nearer_first(p_pos: Vec2Fx, s: Seq<Enemy>, a: int, b: int) -> bool {
    ||| dist_sq_spec(p_pos, s[a].position) < dist_sq_spec(p_pos, s[b].position)
    ||| (dist_sq_spec(p_pos, s[a].position) == dist_sq_spec(p_pos, s[b].position) && a < b)
}

/// The pool's indices, stably sorted by distance to `p_pos`: closest
/// first, ties kept in pool order. The three clauses below pin the
/// permutation uniquely.
pub fn sorted_indices_by_distance(p_pos: Vec2Fx, enemies: &Vec<Enemy>) -> (r: Vec<usize>)
    requires
        p_pos.wf(),
        forall|i: int| 0 <= i < enemies@.len() ==> (#[trigger] enemies@[i]).wf(),
    ensures
        r@.len() == enemies@.len(),
        forall|k: int| 0 <= k < r@.len() ==> (#[trigger] r@[k]) < enemies@.len(),
        forall|k1: int, k2: int| 0 <= k1 < k2 < r@.len()
            ==> nearer_first(p_pos, enemies@, #[trigger] r@[k1] as int, #[trigger] r@[k2] as int),
    {
    let n = enemies.len();
    let mut r: Vec<usize> = Vec::new();
    for i in 0..n
        invariant
            n == enemies@.len(),
            p_pos.wf(),
            forall|k: int| 0 <= k < n ==> (#[trigger] enemies@[k]).wf(),
            r@.len() == i,
            forall|k: int| 0 <= k < r@.len() ==> (#[trigger] r@[k]) < i,
            forall|k1: int, k2: int| 0 <= k1 < k2 < r@.len()
                ==> nearer_first(p_pos, enemies@, #[trigger] r@[k1] as int,
                    #[trigger] r@[k2] as int),
    {
        let d_new = dist_sq(p_pos, enemies[i].position);
        let mut pos: usize = 0;
        while pos < r.len() && dist_sq(p_pos, enemies[r[pos]].position) <= d_new
            invariant
                n == enemies@.len(),
                p_pos.wf(),
                forall|k: int| 0 <= k < n ==> (#[trigger] enemies@[k]).wf(),
                r@.len() == i,
                i < n,
                forall|k: int| 0 <= k < r@.len() ==> (#[trigger] r@[k]) < i,
                forall|k1: int, k2: int| 0 <= k1 < k2 < r@.len()
                    ==> nearer_first(p_pos, enemies@, #[trigger] r@[k1] as int,
                        #[trigger] r@[k2] as int),
                0 <= pos <= r@.len(),
                d_new == dist_sq_spec(p_pos, enemies@[i as int].position),
                forall|k: int| 0 <= k < pos
                    ==> dist_sq_spec(p_pos, enemies@[#[trigger] r@[k] as int].position)
                        <= d_new,
            decreases r@.len() - pos,
        {
            pos = pos + 1;
        }
        r.insert(pos, i);
    }
    r
}

/// The projectiles loosed at the first `k` targets of the aiming order:
/// one per target inside the weapon's range, none when the weapon is not
/// armed.
pub open spec fn volley_spec(p: Player, enemies: Seq<Enemy>, order: Seq<usize>, k: int)
    -> Seq<Attack>
    decreases k,
{
    if k <= 0 {
        Seq::empty()
    } else {
        let prev = volley_spec(p, enemies, order, k - 1);
        let target = enemies[order[k - 1] as int].position;
        if dist_sq_spec(p.position, target) < p.weapon.range * p.weapon.range
            && p.weapon.can_shoot {
            prev.push(shot_for_spec(p, target))
        } else {
            prev
        }
    }
}

impl Attack {
    /// Run the weapon over the `weapon.count` nearest enemies (closest
    /// first, pool order breaking ties): aim at each in turn and loose a
    /// projectile at every one inside range while the weapon is armed.
    pub fn draw_weapon_system(enemies: &Vec<Enemy>, player: &mut Player,
        bullets: &mut Vec<Attack>)
        requires
            forall|i: int| 0 <= i < enemies@.len() ==> (#[trigger] enemies@[i]).wf(),
            old(player).wf(),
            forall|i: int| 0 <= i < old(bullets)@.len() ==> (#[trigger] old(bullets)@[i]).wf(),
        ensures
            final(player).wf(),
            *final(player) == (Player { weapon: Weapon {
                position: final(player).weapon.position,
                direction: final(player).weapon.direction,
                ..old(player).weapon }, ..*old(player) }),
            forall|i: int| 0 <= i < final(bullets)@.len() ==> (#[trigger] final(bullets)@[i]).wf(),
            exists|order: Seq<usize>| {
                &&& order.len() == enemies@.len()
                &&& (forall|k: int| 0 <= k < order.len()
                    ==> (#[trigger] order[k]) < enemies@.len())
                &&& (forall|k1: int, k2: int| 0 <= k1 < k2 < order.len()
                    ==> nearer_first(old(player).position, enemies@,
                        #[trigger] order[k1] as int, #[trigger] order[k2] as int))
                &&& final(bullets)@ == old(bullets)@ + volley_spec(*old(player), enemies@,
                    order, min_cap(old(player).weapon.count as int, enemies@.len() as int))
            },
    {
        let sorted = sorted_indices_by_distance(player.position, enemies);
        let limit = if player.weapon.count < sorted.len() {
            player.weapon.count
        } else {
            sorted.len()
        };
        let ghost p0 = *player;
        let ghost order = sorted@;
        for i in 0..limit
            invariant
                sorted@ == order,
                order.len() == enemies@.len(),
                limit == min_cap(p0.weapon.count as int, enemies@.len() as int),
                limit <= sorted@.len(),
                forall|k: int| 0 <= k < order.len() ==> (#[trigger] order[k]) < enemies@.len(),
                forall|k: int| 0 <= k < enemies@.len() ==> (#[trigger] enemies@[k]).wf(),
                player.wf(),
                *player == (Player { weapon: Weapon {
                    position: player.weapon.position,
                    direction: player.weapon.direction,
                    ..p0.weapon }, ..p0 }),
                bullets@ == old(bullets)@ + volley_spec(p0, enemies@, order, i as int),
                forall|k: int| 0 <= k < bullets@.len() ==> (#[trigger] bullets@[k]).wf(),
        {
            Attack::weapon_system(player, &enemies[sorted[i]], bullets);
        }
    }
}

/// Slots that are untouched past `i` add nothing to the change count.
proof fn lemma_count_changed_extend(base: Seq<Enemy>, b: Seq<Enemy>, i: int, n: int)
    requires
        0 <= i <= n,
        n <= base.len(),
        n <= b.len(),
        forall|j: int| i <= j < n ==> base[j] == b[j],
    ensures
        count_changed(base, b, n) == count_changed(base, b, i),
    decreases n - i,
{
    if i < n {
        lemma_count_changed_extend(base, b, i, n - 1);
    }
}

/// `count_changed` over a prefix only reads that prefix, and one more
/// slot adds at most one change.
proof fn lemma_count_changed_congruent(base: Seq<Enemy>, a: Seq<Enemy>, b: Seq<Enemy>, n: int)
    requires
        0 <= n,
        n <= a.len(),
        n + 1 <= b.len(),
        n <= base.len(),
        forall|j: int| 0 <= j < n ==> a[j] == b[j],
    ensures
        count_changed(base, a, n) == count_changed(base, b, n),
        count_changed(base, b, n + 1) <= count_changed(base, b, n) + 1,
    decreases n,
{
    if n > 0 {
        lemma_count_changed_congruent(base, a, b, n - 1);
        assert(count_changed(base, a, n - 1) == count_changed(base, b, n - 1)) by {
            lemma_count_changed_only_prefix(base, a, b, n - 1);
        };
    }
}

/// Two pools that agree on a prefix give the same change count there.
proof fn lemma_count_changed_only_prefix(base: Seq<Enemy>, a: Seq<Enemy>, b: Seq<Enemy>, n: int)
    requires
        0 <= n <= a.len(),
        n <= b.len(),
        n <= base.len(),
        forall|j: int| 0 <= j < n ==> a[j] == b[j],
    ensures
        count_changed(base, a, n) == count_changed(base, b, n),
    decreases n,
{
    if n > 0 {
        lemma_count_changed_only_prefix(base, a, b, n - 1);
    }
}

} // verus!
