//! Random placement helpers built on the trusted draws in [`crate::rng`].

use vstd::prelude::*;
use crate::fixed::{MAP_LIMIT, min_cap};
use crate::vec2::Vec2Fx;
use crate::rng::random_fx;
use crate::rng::random_number;

verus! {

/// Up to `count` elements of `items`, drawn without replacement in a
/// random order; each drawn element is a `Clone` of one in the list.
pub fn get_random_elements<T: Clone>(items: &Vec<T>, count: usize) -> (r: Vec<T>)
    requires
        items@.len() <= 1_000_000_000,
    ensures
        r@.len() == min_cap(count as int, items@.len() as int),
{
    let n = items.len();
    let mut indices: Vec<usize> = Vec::new();
    for i in 0..n
        invariant
            indices@.len() == i,
            forall|k: int| 0 <= k < indices@.len() ==> (#[trigger] indices@[k]) < n,
    {
        indices.push(i);
    }
    let mut picked: Vec<T> = Vec::new();
    while picked.len() < count && indices.len() > 0
        invariant
            n == items@.len() <= 1_000_000_000,
            picked@.len() <= count,
            picked@.len() + indices@.len() == n,
            forall|k: int| 0 <= k < indices@.len() ==> (#[trigger] indices@[k]) < n,
        decreases indices@.len(),
    {
        let j = random_fx(0, (indices.len() - 1) as i64) as usize;
        let idx = indices.remove(j);
        let element = items[idx].clone();
        picked.push(element);
    }
    picked
}

/// The point lies on the edge of the `map_w x map_h` rectangle.
pub open spec fn on_perimeter(v: Vec2Fx, map_w: int, map_h: int) -> bool {
    ||| v.y == 0 && 0 <= v.x <= map_w
    ||| v.x == map_w && 0 <= v.y <= map_h
    ||| v.y == map_h && 0 <= v.x <= map_w
    ||| v.x == 0 && 0 <= v.y <= map_h
}

/// A random point inside the closed box `[x_lo, x_hi] x [y_lo, y_hi]`.
pub fn random_position(x_lo: i64, x_hi: i64, y_lo: i64, y_hi: i64) -> (v: Vec2Fx)
    requires
        -MAP_LIMIT <= x_lo <= x_hi <= MAP_LIMIT,
        -MAP_LIMIT <= y_lo <= y_hi <= MAP_LIMIT,
    ensures
        x_lo <= v.x <= x_hi,
        y_lo <= v.y <= y_hi,
        v.wf(),
{
    let x = random_fx(x_lo, x_hi);
    let y = random_fx(y_lo, y_hi);
    Vec2Fx { x, y }
}

/// A random point on the perimeter of the map: one of the four edges,
/// chosen uniformly, with a random offset along it.
pub fn random_spawn_position(map_w: i64, map_h: i64) -> (v: Vec2Fx)
    requires
        0 < map_w <= MAP_LIMIT,
        0 < map_h <= MAP_LIMIT,
    ensures
        on_perimeter(v, map_w as int, map_h as int),
        v.wf(),
{
    let edge = random_number(0, 3);
    if edge == 0 {
        Vec2Fx { x: random_fx(0, map_w), y: 0 }
    } else if edge == 1 {
        Vec2Fx { x: map_w, y: random_fx(0, map_h) }
    } else if edge == 2 {
        Vec2Fx { x: random_fx(0, map_w), y: map_h }
    } else {
        Vec2Fx { x: 0, y: random_fx(0, map_h) }
    }
}

} // verus!
