//! The wave state machine: timer-driven transitions between combat and
//! the shop intermission, spawn-budget escalation, and the terminal
//! game-over state.

use vstd::prelude::*;
use crate::fixed::{TIME_LIMIT, MAP_LIMIT, min_cap};
use crate::timer::Timer;
use crate::player::Player;
use crate::enemy::{Enemy, Enemies};
use crate::utilities::on_perimeter;

verus! {

/// Where the character is parked once the run is over.
pub const GAME_OVER_X: i64 = -100_000_000;

/// Where the character is parked once the run is over.
pub const GAME_OVER_Y: i64 = -100_000_000;

#[derive(Clone, Copy, PartialEq, Eq, Structural, Debug)]
pub enum WavePhase {
    InWave,
    ShopIntermission,
    GameOver,
}

pub struct Wave {
    pub wave: u32,
    pub spawn_start: u32,
    pub spawn_increment: u32,
    pub duration: Timer,
}

pub struct Waves {
    pub waves: Wave,
    pub phase: WavePhase,
}

/// Count of non-elite slots among the first `n`.
pub open spec fn non_elite_before(s: Seq<Enemy>, n: int) -> int
    decreases n,
{
    if n <= 0 {
        0
    } else {
        non_elite_before(s, n - 1) + if s[n - 1].elite { 0int } else { 1int }
    }
}

impl Waves {
    pub open spec fn wf(self) -> bool {
        self.waves.duration.wf()
    }

    pub fn new(wave: u32, duration_ms: u64, now: u64) -> (w: Waves)
        requires
            duration_ms <= TIME_LIMIT,
            now <= TIME_LIMIT,
        ensures
            w.wf(),
            w.waves.wave == wave,
            w.waves.spawn_start == 20,
            w.waves.spawn_increment == 5,
            w.waves.duration.interval == duration_ms,
            w.waves.duration.last_time == now,
            !w.waves.duration.running,
            w.phase == WavePhase::InWave,
    {
        Waves {
            waves: Wave {
                wave,
                duration: Timer::new(duration_ms, now),
                spawn_start: 20,
                spawn_increment: 5,
            },
            phase: WavePhase::InWave,
        }
    }

    /// Retire every slot in the pool against the player's current power.
    pub fn reset_enemies(&mut self, player: &Player, enemies: &mut Enemies)
        requires
            player.wf(),
            old(enemies).wf(),
        ensures
            *final(self) == *old(self),
            final(enemies).wf(),
            final(enemies).enemy_pool@.len() == old(enemies).enemy_pool@.len(),
            final(enemies).last_enemy_spawn_time == old(enemies).last_enemy_spawn_time,
            final(enemies).enemy_spawn_rate == old(enemies).enemy_spawn_rate,
            forall|i: int| 0 <= i < final(enemies).enemy_pool@.len()
                ==> final(enemies).enemy_pool@[i]
                    == Enemy::retired_enemy(#[trigger] old(enemies).enemy_pool@[i], *player),
    {
        let n = enemies.enemy_pool.len();
        for i in 0..n
            invariant
                n == enemies.enemy_pool@.len(),
                enemies.wf(),
                player.wf(),
                enemies.last_enemy_spawn_time == old(enemies).last_enemy_spawn_time,
                enemies.enemy_spawn_rate == old(enemies).enemy_spawn_rate,
                forall|j: int| 0 <= j < i ==> enemies.enemy_pool@[j]
                    == Enemy::retired_enemy(#[trigger] old(enemies).enemy_pool@[j], *player),
                forall|j: int| i <= j < n ==> enemies.enemy_pool@[j]
                    == old(enemies).enemy_pool@[j],
        {
            let mut e = enemies.enemy_pool[i];
            e.set_enemy_idle(player);
            enemies.enemy_pool[i] = e;
        }
    }

    /// Leave the intermission: heal the player to full, grant the wave
    /// bonus of 100 money, activate the first `spawn_start` non-elite
    /// slots at random perimeter points, raise the next wave's spawn
    /// budget, and restart the wave timer.
    pub fn start_wave(&mut self, player: &mut Player, enemies: &mut Enemies, now: u64,
        map_w: i64, map_h: i64)
        requires
            old(self).wf(),
            old(player).wf(),
            old(enemies).wf(),
            now <= TIME_LIMIT,
            0 < map_w <= MAP_LIMIT,
            0 < map_h <= MAP_LIMIT,
        ensures
            final(self).wf(),
            final(player).wf(),
            final(enemies).wf(),
            final(player).stats.health == old(player).stats.max_health,
            final(player).stats.money == min_cap(old(player).stats.money + 100,
                u32::MAX as int),
            *final(player) == (Player { stats: crate::player::Stats {
                health: final(player).stats.health,
                money: final(player).stats.money,
                ..old(player).stats }, ..*old(player) }),
            final(self).waves.spawn_start == min_cap(old(self).waves.spawn_start
                + old(self).waves.spawn_increment, u32::MAX as int),
            final(self).waves.wave == old(self).waves.wave,
            final(self).waves.spawn_increment == old(self).waves.spawn_increment,
            final(self).waves.duration.interval == old(self).waves.duration.interval,
            final(self).waves.duration.running,
            final(self).waves.duration.last_time == now,
            final(self).phase == WavePhase::InWave,
            final(enemies).enemy_pool@.len() == old(enemies).enemy_pool@.len(),
            final(enemies).last_enemy_spawn_time == old(enemies).last_enemy_spawn_time,
            final(enemies).enemy_spawn_rate == old(enemies).enemy_spawn_rate,
            // Exactly the first spawn_start non-elite slots wake up, at
            // perimeter points; every other slot is untouched.
            forall|i: int| 0 <= i < final(enemies).enemy_pool@.len() ==> {
                let e0 = #[trigger] old(enemies).enemy_pool@[i];
                let e1 = final(enemies).enemy_pool@[i];
                if !e0.elite && non_elite_before(old(enemies).enemy_pool@, i)
                    < old(self).waves.spawn_start {
                    e1.active && on_perimeter(e1.position, map_w as int, map_h as int)
                    && e1 == (Enemy { active: true, position: e1.position, ..e0 })
                } else {
                    e1 == e0
                }
            },
    {
        player.stats.health = player.stats.max_health;
        player.stats.money = crate::fixed::add_capped_u32(player.stats.money, 100);
        let mut spawn_count: u32 = 0;
        let n = enemies.enemy_pool.len();
        let ghost pool0 = enemies.enemy_pool@;
        for i in 0..n
            invariant
                n == enemies.enemy_pool@.len() == pool0.len(),
                pool0 == old(enemies).enemy_pool@,
                enemies.wf(),
                enemies.last_enemy_spawn_time == old(enemies).last_enemy_spawn_time,
                enemies.enemy_spawn_rate == old(enemies).enemy_spawn_rate,
                0 < map_w <= MAP_LIMIT && 0 < map_h <= MAP_LIMIT,
                spawn_count == if non_elite_before(pool0, i as int)
                    < self.waves.spawn_start as int {
                    non_elite_before(pool0, i as int)
                } else {
                    self.waves.spawn_start as int
                },
                *self == *old(self),
                forall|j: int| 0 <= j < i ==> {
                    let e0 = #[trigger] pool0[j];
                    let e1 = enemies.enemy_pool@[j];
                    if !e0.elite && non_elite_before(pool0, j) < self.waves.spawn_start {
                        e1.active && on_perimeter(e1.position, map_w as int, map_h as int)
                        && e1 == (Enemy { active: true, position: e1.position, ..e0 })
                    } else {
                        e1 == e0
                    }
                },
                forall|j: int| i <= j < n ==> enemies.enemy_pool@[j] == pool0[j],
        {
            if !enemies.enemy_pool[i].elite && spawn_count < self.waves.spawn_start {
                let mut e = enemies.enemy_pool[i];
                e.set_enemy_active(map_w, map_h);
                enemies.enemy_pool[i] = e;
                spawn_count = spawn_count + 1;
            }
        }
        self.waves.spawn_start = crate::fixed::add_capped_u32(self.waves.spawn_start,
            self.waves.spawn_increment);
        self.waves.duration.start(now);
        self.phase = WavePhase::InWave;
    }

    /// One frame of the wave state machine. Game over is terminal. While
    /// in a wave: an elapsed timer ends the wave (bumping the counter,
    /// stopping the clock and retiring every enemy) and opens the shop;
    /// a dead player ends the run and is parked off-map; otherwise the
    /// timer is kept running. The caller drives the shop while the
    /// returned phase is the intermission and then calls `start_wave`.
    pub fn update(&mut self, player: &mut Player, enemies: &mut Enemies, now: u64)
        -> (phase: WavePhase)
        requires
            old(self).wf(),
            old(player).wf(),
            old(enemies).wf(),
            now <= TIME_LIMIT,
        ensures
            final(self).wf(),
            final(player).wf(),
            final(enemies).wf(),
            phase == final(self).phase,
            ({
                let ended = old(self).phase != WavePhase::GameOver
                    && old(self).waves.duration.elapsed_spec(now);
                let dead = old(player).stats.health <= 0;
                if old(self).phase == WavePhase::GameOver {
                    // Terminal: nothing moves again.
                    phase == WavePhase::GameOver && *final(self) == *old(self)
                    && *final(player) == *old(player) && *final(enemies) == *old(enemies)
                } else if ended {
                    &&& phase == WavePhase::ShopIntermission
                    &&& final(self).waves.wave == min_cap(old(self).waves.wave + 1,
                        u32::MAX as int)
                    &&& !final(self).waves.duration.running
                    &&& final(self).waves.spawn_start == old(self).waves.spawn_start
                    &&& final(enemies).enemy_pool@.len() == old(enemies).enemy_pool@.len()
                    &&& forall|i: int| 0 <= i < final(enemies).enemy_pool@.len()
                        ==> final(enemies).enemy_pool@[i] == Enemy::retired_enemy(
                            #[trigger] old(enemies).enemy_pool@[i], *old(player))
                    &&& *final(player) == *old(player)
                } else if dead {
                    &&& phase == WavePhase::GameOver
                    &&& final(player).position.x == GAME_OVER_X
                    &&& final(player).position.y == GAME_OVER_Y
                    &&& *final(player) == (Player { position: final(player).position,
                        ..*old(player) })
                    &&& final(self).waves == old(self).waves
                    &&& *final(enemies) == *old(enemies)
                } else {
                    &&& phase == WavePhase::InWave
                    &&& final(self).waves.duration.running
                    &&& final(self).waves.duration.interval
                        == old(self).waves.duration.interval
                    &&& (old(self).waves.duration.running
                        ==> final(self).waves.duration == old(self).waves.duration)
                    &&& final(self).waves.wave == old(self).waves.wave
                    &&& final(self).waves.spawn_start == old(self).waves.spawn_start
                    &&& *final(player) == *old(player)
                    &&& *final(enemies) == *old(enemies)
                }
            }),
    {
        if matches!(self.phase, WavePhase::GameOver) {
            return WavePhase::GameOver;
        }
        if self.waves.duration.has_elapsed(now) {
            if self.waves.wave < u32::MAX {
                self.waves.wave = self.waves.wave + 1;
            }
            self.waves.duration.stop();
            self.reset_enemies(player, enemies);
            self.phase = WavePhase::ShopIntermission;
            WavePhase::ShopIntermission
        } else if player.stats.health <= 0 {
            player.position = crate::vec2::Vec2Fx { x: GAME_OVER_X, y: GAME_OVER_Y };
            self.phase = WavePhase::GameOver;
            WavePhase::GameOver
        } else {
            if !self.waves.duration.running {
                self.waves.duration.start(now);
            }
            self.phase = WavePhase::InWave;
            WavePhase::InWave
        }
    }

    /// Milliseconds left in the running wave.
    pub fn time_left(&self, now: u64) -> (r: u64)
        requires
            self.wf(),
        ensures
            r == self.waves.duration.time_left_spec(now),
    {
        self.waves.duration.time_left(now)
    }
}

} // verus!
