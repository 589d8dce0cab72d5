//! Currency pickups dropped by dying enemies and attracted to the player.

use vstd::prelude::*;
use crate::fixed::{FP, COORD_LIMIT, tdiv, div_trunc};
use crate::vec2::{Vec2Fx, dist_sq_spec, dist_sq, dir_x_spec, dir_y_spec, direction_to,
    clamp_coords, clamp_coords_spec, lemma_tdiv_abs_bound};
use crate::player::{Player, Stats};

verus! {

pub struct Money {
    pub position: Vec2Fx,
    pub size: Vec2Fx,
    pub value: u32,
    pub collected: bool,
}

impl Money {
    pub open spec fn wf(self) -> bool {
        self.position.wf()
    }

    pub fn new(position: Vec2Fx, value: u32) -> (m: Money)
        ensures
            m.position == position,
            m.size.x == 20 * FP && m.size.y == 20 * FP,
            m.value == value,
            !m.collected,
    {
        Money { position, size: Vec2Fx { x: 20 * FP, y: 20 * FP }, value, collected: false }
    }

    /// Attract every coin toward the player (attraction radius 400) and
    /// prune the collected ones; the collections pay out in coin order.
    pub fn update(coins: &mut Vec<Money>, player: &mut Player)
        requires
            forall|i: int| 0 <= i < old(coins)@.len() ==> #[trigger] old(coins)@[i].wf(),
            old(player).wf(),
        ensures
            final(player).wf(),
            forall|i: int| 0 <= i < final(coins)@.len() ==> #[trigger] final(coins)@[i].wf(),
            ({
                let r = coins_fold(old(coins)@, *old(player), old(coins)@.len() as int);
                final(coins)@ == r.0 && *final(player) == r.1
            }),
            forall|i: int| 0 <= i < final(coins)@.len() ==> !(#[trigger] final(coins)@[i].collected),
            final(coins)@.len() <= old(coins)@.len(),
            final(player).stats.money >= old(player).stats.money,
    {
        let n = coins.len();
        let mut kept: Vec<Money> = Vec::new();
        for i in 0..n
            invariant
                n == coins@.len(),
                coins@ == old(coins)@,
                forall|j: int| 0 <= j < coins@.len() ==> #[trigger] coins@[j].wf(),
                player.wf(),
                forall|j: int| 0 <= j < kept@.len() ==> #[trigger] kept@[j].wf(),
                forall|j: int| 0 <= j < kept@.len() ==> !(#[trigger] kept@[j].collected),
                kept@.len() <= i,
                ({
                    let r = coins_fold(old(coins)@, *old(player), i as int);
                    kept@ == r.0 && *player == r.1
                }),
                player.stats.money >= old(player).stats.money,
        {
            let mut coin = coins[i].clone();
            player.collect_coin(&mut coin, 400 * FP);
            if !coin.collected {
                kept.push(coin);
            }
        }
        *coins = kept;
    }
}

impl Clone for Money {
    fn clone(&self) -> (c: Money)
        ensures
            c == *self,
    {
        Money {
            position: self.position,
            size: self.size,
            value: self.value,
            collected: self.collected,
        }
    }
}

impl Player {
    /// Pull a coin within `attraction_radius` one step toward the player;
    /// a coin that comes within five units is collected and its value
    /// added to the player's money.
    pub fn collect_coin(&mut self, money: &mut Money, attraction_radius: i64)
        requires
            old(self).wf(),
            old(money).wf(),
            0 <= attraction_radius <= COORD_LIMIT,
        ensures
            final(self).wf(),
            final(money).wf(),
            *final(money) == coin_after_pull(*old(self), *old(money), attraction_radius as int),
            final(self).stats.money == money_after_pull(*old(self), *old(money),
                attraction_radius as int),
            final(self).position == old(self).position,
            final(self).size == old(self).size,
            final(self).weapon == old(self).weapon,
            final(self).stats == stats_with_money(old(self).stats, final(self).stats.money),
    {
        proof {
            assert(attraction_radius * attraction_radius <= COORD_LIMIT * COORD_LIMIT)
                by (nonlinear_arith)
                requires 0 <= attraction_radius <= COORD_LIMIT;
        }
        let distance_sq = dist_sq(self.position, money.position);
        if distance_sq < attraction_radius * attraction_radius {
            let dir = direction_to(money.position, self.position);
            proof {
                lemma_tdiv_abs_bound(self.stats.movement_speed as int, 50, 20_000_000);
            }
            let step = div_trunc(self.stats.movement_speed, 50);
            proof {
                assert(-200_000_000_000 <= dir.x as int * step as int <= 200_000_000_000
                    && -200_000_000_000 <= dir.y as int * step as int <= 200_000_000_000)
                    by (nonlinear_arith)
                    requires
                        -10_000 <= dir.x as int <= 10_000,
                        -10_000 <= dir.y as int <= 10_000,
                        -20_000_000 <= step as int <= 20_000_000;
                lemma_tdiv_abs_bound(dir.x as int * step as int, FP as int, 100_000_000);
                lemma_tdiv_abs_bound(dir.y as int * step as int, FP as int, 100_000_000);
            }
            let mx = div_trunc(dir.x * step, FP);
            let my = div_trunc(dir.y * step, FP);
            money.position = clamp_coords(money.position.x + mx, money.position.y + my);
            if distance_sq < 25 * FP * FP {
                self.stats.money = crate::fixed::add_capped_u32(self.stats.money, money.value);
                money.collected = true;
            }
        }
    }
}

/// `s` with only its money field replaced.
pub open spec fn stats_with_money(s: Stats, money: u32) -> Stats {
    Stats { money, ..s }
}

/// The coin after one frame of attraction toward the player: pulled a
/// step closer when inside the attraction radius, collected once within
/// five units.
pub open spec fn coin_after_pull(p: Player, m: Money, radius: int) -> Money {
    let d2 = dist_sq_spec(p.position, m.position);
    let attracted = d2 < radius * radius;
    let reached = d2 < 25 * FP * FP;
    let step = tdiv(p.stats.movement_speed as int, 50);
    let mx = tdiv(dir_x_spec(m.position, p.position) * step, FP as int);
    let my = tdiv(dir_y_spec(m.position, p.position) * step, FP as int);
    Money {
        position: if attracted {
            clamp_coords_spec(m.position.x + mx, m.position.y + my)
        } else {
            m.position
        },
        collected: m.collected || (attracted && reached),
        ..m
    }
}

/// The player's money after one frame of attraction: the coin's value is
/// banked the moment it is reached.
pub open spec fn money_after_pull(p: Player, m: Money, radius: int) -> int {
    let d2 = dist_sq_spec(p.position, m.position);
    if d2 < radius * radius && d2 < 25 * FP * FP {
        crate::fixed::min_cap(p.stats.money + m.value, u32::MAX as int)
    } else {
        p.stats.money as int
    }
}

/// The coin list and player after every coin of the first `n` is pulled
/// in order and the collected ones are dropped.
pub open spec fn coins_fold(coins: Seq<Money>, p: Player, n: int) -> (Seq<Money>, Player)
    decreases n,
{
    if n <= 0 {
        (Seq::empty(), p)
    } else {
        let (kept, p1) = coins_fold(coins, p, n - 1);
        let c = coin_after_pull(p1, coins[n - 1], (400 * FP) as int);
        let p2 = Player { stats: stats_with_money(p1.stats,
            money_after_pull(p1, coins[n - 1], (400 * FP) as int) as u32), ..p1 };
        if c.collected {
            (kept, p2)
        } else {
            (kept.push(c), p2)
        }
    }
}

} // verus!
