//! Collisions between two balls.

use vstd::prelude::*;
use crate::ball::Ball;
use crate::fixed::{
    dot, fine_len, fine_length, magnitude, mul_quot, mul_quot_towards, narrow, quot, quot_towards,
    saturate, FINE,
};
use crate::geometry::{distance_squared, squared_distance};

verus! {

/// A speed below this, after a collision between two balls, counts as none:
/// a tenth of a unit.
pub const DEADBAND: i32 = 100;

/// A speed with the deadband applied.
pub open spec fn snapped(v: int) -> int {
    if magnitude(v) < DEADBAND {
        0
    } else {
        v
    }
}

/// The two discs overlap: their centres are closer than the sum of the
/// radii.
pub open spec fn overlapping(b1: Ball, b2: Ball) -> bool {
    distance_squared(b1.x as int, b1.y as int, b2.x as int, b2.y as int) < (b1.radius + b2.radius)
        * (b1.radius + b2.radius)
}

/// What each of two bodies moves by to undo their overlap: half of what
/// their distance is short of `reach`, along the line `(dx, dy)` between
/// the centres, whose fine length is `len`. Each coordinate is rounded away
/// from the other body, so that the two do not end up short of `reach`.
pub open spec fn half_push(dx: int, dy: int, reach: int, len: int) -> (int, int) {
    (
        quot_towards((reach * FINE - len) * dx, 2 * len, dx),
        quot_towards((reach * FINE - len) * dy, 2 * len, dy),
    )
}

/// What two bodies of equal mass hand over in a collision: the part of the
/// relative velocity `(wx, wy)` that lies along the line `(dx, dy)` between
/// the centres, `d2` being the square of its length.
pub open spec fn exchange(wx: int, wy: int, dx: int, dy: int, d2: int) -> (int, int) {
    let along = wx * dx + wy * dy;
    (quot(along * dx, d2), quot(along * dy, d2))
}

/// What the first of two colliding balls moves by; the second moves by as
/// much the other way.
pub open spec fn pair_push(b1: Ball, b2: Ball) -> (int, int) {
    let dx = b1.x - b2.x;
    let dy = b1.y - b2.y;
    half_push(dx, dy, b1.radius + b2.radius, fine_length(dx * dx + dy * dy))
}

/// The two balls after their collision.
///
/// Balls that do not overlap, or whose centres coincide, stay as they are.
/// Any others are woken, pushed apart by half of the overlap each, and swap
/// the parts of their velocities that lie along the line between the
/// centres; a resulting speed inside the deadband becomes zero.
pub open spec fn resolved_pair(b1: Ball, b2: Ball) -> (Ball, Ball) {
    let dx = b1.x - b2.x;
    let dy = b1.y - b2.y;
    let d2 = dx * dx + dy * dy;
    if !overlapping(b1, b2) || d2 == 0 {
        (b1, b2)
    } else {
        let push = pair_push(b1, b2);
        let given = exchange(b1.vx - b2.vx, b1.vy - b2.vy, dx, dy, d2);
        (
            Ball {
                x: saturate(b1.x + push.0),
                y: saturate(b1.y + push.1),
                vx: saturate(snapped(b1.vx - given.0)),
                vy: saturate(snapped(b1.vy - given.1)),
                resting: false,
                ..b1
            },
            Ball {
                x: saturate(b2.x - push.0),
                y: saturate(b2.y - push.1),
                vx: saturate(snapped(b2.vx + given.0)),
                vy: saturate(snapped(b2.vy + given.1)),
                resting: false,
                ..b2
            },
        )
    }
}

/// A speed with the deadband applied.
fn snap(v: i128) -> (r: i128)
    ensures
        r == snapped(v as int),
{
    if -(DEADBAND as i128) < v && v < DEADBAND as i128 {
        0
    } else {
        v
    }
}

/// Whether the two discs overlap.
pub fn are_balls_overlapping(b1: &Ball, b2: &Ball) -> (overlap: bool)
    ensures
        overlap == overlapping(*b1, *b2),
{
    let d2 = squared_distance(b1.x, b1.y, b2.x, b2.y);
    let reach: i128 = b1.radius as i128 + b2.radius as i128;
    assert(0 <= reach * reach <= 0x1_0000_0000 * 0x1_0000_0000) by (nonlinear_arith)
        requires
            -0x1_0000_0000 <= reach <= 0x1_0000_0000,
    ;
    d2 < (reach * reach) as u128
}

/// Resolves the collision of two balls.
pub fn resolve_pair(b1: Ball, b2: Ball) -> (r: (Ball, Ball))
    ensures
        r == resolved_pair(b1, b2),
{
    let dx: i128 = b1.x as i128 - b2.x as i128;
    let dy: i128 = b1.y as i128 - b2.y as i128;
    let d2 = dot(dx, dy, dx, dy);
    let reach: i128 = b1.radius as i128 + b2.radius as i128;
    assert(0 <= reach * reach <= 0x1_0000_0000 * 0x1_0000_0000) by (nonlinear_arith)
        requires
            -0x1_0000_0000 <= reach <= 0x1_0000_0000,
    ;
    if d2 >= reach * reach || d2 == 0 {
        return (b1, b2);
    }
    assert(d2 > 0) by (nonlinear_arith)
        requires
            d2 == dx * dx + dy * dy,
            d2 != 0,
    ;
    let len = fine_len(d2);
    let gap = reach * FINE - len;
    let push_x = mul_quot_towards(gap, dx, 2 * len, dx);
    let push_y = mul_quot_towards(gap, dy, 2 * len, dy);
    let wx: i128 = b1.vx as i128 - b2.vx as i128;
    let wy: i128 = b1.vy as i128 - b2.vy as i128;
    let along = dot(wx, wy, dx, dy);
    let given_x = mul_quot(along, dx, d2);
    let given_y = mul_quot(along, dy, d2);
    (
        Ball {
            x: narrow(b1.x as i128 + push_x),
            y: narrow(b1.y as i128 + push_y),
            vx: narrow(snap(b1.vx as i128 - given_x)),
            vy: narrow(snap(b1.vy as i128 - given_y)),
            radius: b1.radius,
            color: b1.color,
            resting: false,
            terminal_velocity: b1.terminal_velocity,
        },
        Ball {
            x: narrow(b2.x as i128 - push_x),
            y: narrow(b2.y as i128 - push_y),
            vx: narrow(snap(b2.vx as i128 + given_x)),
            vy: narrow(snap(b2.vy as i128 + given_y)),
            radius: b2.radius,
            color: b2.color,
            resting: false,
            terminal_velocity: b2.terminal_velocity,
        },
    )
}

/// Resolves the collision of the balls at `i` and `j`, in place.
pub fn resolve_ball_overlap(balls: &mut Vec<Ball>, i: usize, j: usize)
    requires
        i < old(balls)@.len(),
        j < old(balls)@.len(),
    ensures
        final(balls)@ == old(balls)@.update(i as int, resolved_pair(old(balls)@[i as int], old(balls)@[j as int]).0)
            .update(j as int, resolved_pair(old(balls)@[i as int], old(balls)@[j as int]).1),
{
    let r = resolve_pair(balls[i], balls[j]);
    balls.set(i, r.0);
    balls.set(j, r.1);
}

} // verus!
