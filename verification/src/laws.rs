//! What holds of the simulation whatever the bodies are.

use vstd::prelude::*;
use crate::appdata::World;
use crate::ball::{attracted, damped, Ball, DRAG_PERCENT, PULL};
use crate::collision::{exchange, half_push, overlapping, pair_push, resolved_pair, DEADBAND};
use crate::fixed::{
    fine_length, fits, lemma_fine_length, lemma_quot_bounds, lemma_quot_times,
    lemma_quot_towards_times, lemma_sqrt_floor_at_least, magnitude, quot, quot_towards, sqrt_floor,
    FINE,
};
use crate::geometry::{distance_squared, Point, Rect, Size};
use crate::obstacle::{
    approaching, bounce_target, bounced_off, exit_point, landing, push, pushed_out, reaches,
    rebound, Obstacle, RESTITUTION_TENTHS,
};
use crate::search::lemma_first_index_is_first;
use crate::step::{lemma_met_neighbours_len, met_neighbours, met_obstacles};
use crate::tools::holds_point;

verus! {

/// The inner product of two vectors, squared, is at most the product of
/// their squared lengths.
proof fn lemma_inner_product_bound(ax: int, ay: int, bx: int, by: int)
    ensures
        (ax * bx + ay * by) * (ax * bx + ay * by) <= (ax * ax + ay * ay) * (bx * bx + by * by),
{
    let p = ax * bx;
    let q = ay * by;
    let u = ax * by;
    let w = ay * bx;
    assert(p * q == u * w) by (nonlinear_arith)
        requires
            p == ax * bx,
            q == ay * by,
            u == ax * by,
            w == ay * bx,
    ;
    assert(p * p == (ax * ax) * (bx * bx)) by (nonlinear_arith)
        requires
            p == ax * bx,
    ;
    assert(q * q == (ay * ay) * (by * by)) by (nonlinear_arith)
        requires
            q == ay * by,
    ;
    assert(u * u == (ax * ax) * (by * by)) by (nonlinear_arith)
        requires
            u == ax * by,
    ;
    assert(w * w == (ay * ay) * (bx * bx)) by (nonlinear_arith)
        requires
            w == ay * bx,
    ;
    assert((p + q) * (p + q) == p * p + 2 * (p * q) + q * q) by (nonlinear_arith);
    assert((u - w) * (u - w) == u * u - 2 * (u * w) + w * w) by (nonlinear_arith);
    assert((u - w) * (u - w) >= 0) by (nonlinear_arith);
    let a2 = ax * ax;
    let c2 = ay * ay;
    let b2 = bx * bx;
    let e2 = by * by;
    assert((a2 + c2) * (b2 + e2) == a2 * b2 + a2 * e2 + c2 * b2 + c2 * e2) by (nonlinear_arith);
}

/// A vector whose inner product `x` with one of squared length `d2` is at
/// least `m` times that length has a squared length `e2` of at least `m`
/// squared. The length is given as `len`, in `FINE`-ths and rounded down.
proof fn lemma_projection(d2: int, len: int, x: int, e2: int, m: int)
    requires
        len > 0,
        len * len <= d2 * FINE * FINE,
        m >= 0,
        len * x >= (d2 * m) * FINE,
        e2 * d2 >= x * x,
    ensures
        e2 >= m * m,
{
    let k = FINE as int;
    assert(d2 > 0) by (nonlinear_arith)
        requires
            len > 0,
            len * len <= d2 * 65536 * 65536,
    ;
    assert(d2 * m >= 0) by (nonlinear_arith)
        requires
            d2 > 0,
            m >= 0,
    ;
    assert(x >= 0) by (nonlinear_arith)
        requires
            len > 0,
            len * x >= 0,
    ;
    let p = len * x;
    let q = (d2 * m) * k;
    assert(p * p >= q * q) by (nonlinear_arith)
        requires
            p >= q,
            q >= 0,
    ;
    assert(p * p == (len * len) * (x * x)) by (nonlinear_arith)
        requires
            p == len * x,
    ;
    let kk = k * k;
    assert(q * q == (d2 * kk) * (d2 * (m * m))) by (nonlinear_arith)
        requires
            q == (d2 * m) * k,
            kk == k * k,
    ;
    assert(d2 * FINE * FINE == d2 * kk);
    assert((len * len) * (x * x) <= (d2 * kk) * (x * x)) by (nonlinear_arith)
        requires
            len * len <= d2 * kk,
    ;
    let xx = x * x;
    let mm = m * m;
    let w = d2 * kk;
    assert(w > 0) by (nonlinear_arith)
        requires
            w == d2 * kk,
            d2 > 0,
            kk == 65536 * 65536,
    ;
    assert(xx >= d2 * mm) by (nonlinear_arith)
        requires
            w > 0,
            w * xx >= w * (d2 * mm),
    ;
    assert(e2 >= mm) by (nonlinear_arith)
        requires
            d2 > 0,
            e2 * d2 >= d2 * mm,
    ;
}

/// The deadband leaves the speed `v` as it is, and `v` is a value of
/// `i32`: it is zero, or no less than `DEADBAND` in magnitude.
pub open spec fn kept_by_deadband(v: int) -> bool {
    fits(v) && (v == 0 || magnitude(v) >= DEADBAND)
}

/// Two quotients whose dividends lie along a line, both rounded towards
/// zero, give a vector that lies along that line up to what rounding
/// costs.
proof fn lemma_parallel_quotients(nx: int, ny: int, d: int, dx: int, dy: int)
    requires
        d > 0,
        nx * dy == ny * dx,
    ensures
        magnitude(quot(nx, d) * dy - quot(ny, d) * dx) <= magnitude(dx) + magnitude(dy),
        dx != 0 || dy != 0 ==> magnitude(quot(nx, d) * dy - quot(ny, d) * dx) < magnitude(dx)
            + magnitude(dy),
{
    let qx = quot(nx, d);
    let qy = quot(ny, d);
    let mx = magnitude(dx);
    let my = magnitude(dy);
    let s = mx + my;
    lemma_quot_times(nx, d, dy);
    lemma_quot_times(ny, d, dx);
    let k = qx * dy - qy * dx;
    assert(d * k == d * (qx * dy) - d * (qy * dx)) by (nonlinear_arith)
        requires
            k == qx * dy - qy * dx,
    ;
    assert((d - 1) * my + (d - 1) * mx == (d - 1) * s) by (nonlinear_arith)
        requires
            s == mx + my,
    ;
    assert(-s <= k <= s && (s > 0 ==> -s < k < s)) by (nonlinear_arith)
        requires
            d > 0,
            s >= 0,
            -((d - 1) * s) <= d * k <= (d - 1) * s,
    ;
}

/// Two bodies pushed apart by half of their overlap each lie, along the
/// old line between their centres, no less than the full distance apart.
proof fn lemma_pair_projection(dx: int, dy: int, reach: int, len: int)
    requires
        len > 0,
    ensures
        ({
            let by = half_push(dx, dy, reach, len);
            len * ((dx + 2 * by.0) * dx + (dy + 2 * by.1) * dy) >= ((dx * dx + dy * dy) * reach) * FINE
        }),
{
    let d2 = dx * dx + dy * dy;
    let gap = reach * FINE - len;
    let px = quot_towards(gap * dx, 2 * len, dx);
    let py = quot_towards(gap * dy, 2 * len, dy);
    let tx = px * dx;
    let ty = py * dy;
    lemma_quot_towards_times(gap * dx, 2 * len, dx);
    lemma_quot_towards_times(gap * dy, 2 * len, dy);
    assert((gap * dx) * dx + (gap * dy) * dy == gap * d2) by (nonlinear_arith)
        requires
            d2 == dx * dx + dy * dy,
    ;
    let x = (dx + 2 * px) * dx + (dy + 2 * py) * dy;
    assert(x == d2 + 2 * tx + 2 * ty) by (nonlinear_arith)
        requires
            x == (dx + 2 * px) * dx + (dy + 2 * py) * dy,
            d2 == dx * dx + dy * dy,
            tx == px * dx,
            ty == py * dy,
    ;
    assert(len * x == len * d2 + (2 * len) * tx + (2 * len) * ty) by (nonlinear_arith)
        requires
            x == d2 + 2 * tx + 2 * ty,
    ;
    assert(len * d2 + gap * d2 == (d2 * reach) * FINE) by (nonlinear_arith)
        requires
            gap == reach * FINE - len,
    ;
}

/// Two overlapping balls whose centres differ no longer overlap once their
/// collision is resolved: their centres are no closer than the sum of
/// their radii.
///
/// Balls so near the end of the `i32` range that a pushed centre would
/// leave it are left out.
pub proof fn law_resolved_pair_is_apart(b1: Ball, b2: Ball)
    requires
        b1.wf(),
        b2.wf(),
        overlapping(b1, b2),
        b1.x != b2.x || b1.y != b2.y,
        fits(b1.x + pair_push(b1, b2).0),
        fits(b1.y + pair_push(b1, b2).1),
        fits(b2.x - pair_push(b1, b2).0),
        fits(b2.y - pair_push(b1, b2).1),
    ensures
        !overlapping(resolved_pair(b1, b2).0, resolved_pair(b1, b2).1),
        ({
            let after = resolved_pair(b1, b2);
            (Point { x: after.0.x, y: after.0.y }).distance_spec(Point { x: after.1.x, y: after.1.y })
                >= b1.radius + b2.radius
        }),
{
    let dx = b1.x - b2.x;
    let dy = b1.y - b2.y;
    let d2 = dx * dx + dy * dy;
    let reach = b1.radius + b2.radius;
    assert(d2 > 0) by (nonlinear_arith)
        requires
            d2 == dx * dx + dy * dy,
            dx != 0 || dy != 0,
    ;
    lemma_fine_length(d2);
    let len = fine_length(d2);
    let by = pair_push(b1, b2);
    let after = resolved_pair(b1, b2);
    let ex = after.0.x - after.1.x;
    let ey = after.0.y - after.1.y;
    assert(ex == dx + 2 * by.0);
    assert(ey == dy + 2 * by.1);
    let e2 = distance_squared(after.0.x as int, after.0.y as int, after.1.x as int, after.1.y as int);
    assert(e2 == ex * ex + ey * ey);
    lemma_pair_projection(dx, dy, reach, len);
    let x = ex * dx + ey * dy;
    lemma_inner_product_bound(ex, ey, dx, dy);
    lemma_projection(d2, len, x, e2, reach);
    lemma_sqrt_floor_at_least(e2, reach);
}

/// Resolving the collision of two balls a second time changes nothing.
///
/// Balls so near the end of the `i32` range that a pushed centre would
/// leave it are left out.
pub proof fn law_resolved_pair_stays_resolved(b1: Ball, b2: Ball)
    requires
        b1.wf(),
        b2.wf(),
        overlapping(b1, b2) && (b1.x != b2.x || b1.y != b2.y) ==> fits(b1.x + pair_push(b1, b2).0)
            && fits(b1.y + pair_push(b1, b2).1) && fits(b2.x - pair_push(b1, b2).0) && fits(
            b2.y - pair_push(b1, b2).1,
        ),
    ensures
        resolved_pair(resolved_pair(b1, b2).0, resolved_pair(b1, b2).1) == resolved_pair(b1, b2),
{
    if overlapping(b1, b2) && (b1.x != b2.x || b1.y != b2.y) {
        law_resolved_pair_is_apart(b1, b2);
    } else {
        let dx = b1.x - b2.x;
        let dy = b1.y - b2.y;
        if !(b1.x != b2.x || b1.y != b2.y) {
            assert(dx * dx + dy * dy == 0) by (nonlinear_arith)
                requires
                    dx == 0,
                    dy == 0,
            ;
        }
    }
}

/// What one ball hands to the other in a collision has, along the line
/// between the centres, the size of their relative velocity along it, up
/// to what rounding costs; across that line it has none, up to what
/// rounding costs.
proof fn lemma_exchange_along(wx: int, wy: int, dx: int, dy: int)
    requires
        dx * dx + dy * dy > 0,
    ensures
        ({
            let given = exchange(wx, wy, dx, dy, dx * dx + dy * dy);
            &&& magnitude(given.0 * dx + given.1 * dy - (wx * dx + wy * dy)) <= magnitude(dx) + magnitude(
                dy,
            )
            &&& magnitude(given.0 * dy - given.1 * dx) <= magnitude(dx) + magnitude(dy)
        }),
{
    let d2 = dx * dx + dy * dy;
    let k = wx * dx + wy * dy;
    let gx = quot(k * dx, d2);
    let gy = quot(k * dy, d2);
    let tx = gx * dx;
    let ty = gy * dy;
    let mx = magnitude(dx);
    let my = magnitude(dy);
    let s = mx + my;
    lemma_quot_times(k * dx, d2, dx);
    lemma_quot_times(k * dy, d2, dy);
    assert((k * dx) * dx + (k * dy) * dy == k * d2) by (nonlinear_arith)
        requires
            d2 == dx * dx + dy * dy,
    ;
    assert((d2 - 1) * mx + (d2 - 1) * my == (d2 - 1) * s) by (nonlinear_arith)
        requires
            s == mx + my,
    ;
    assert(d2 * tx + d2 * ty == d2 * (tx + ty)) by (nonlinear_arith);
    let e = tx + ty - k;
    assert(d2 * e == d2 * (tx + ty) - k * d2) by (nonlinear_arith)
        requires
            e == tx + ty - k,
    ;
    assert(-s <= e <= s) by (nonlinear_arith)
        requires
            d2 > 0,
            s >= 0,
            -((d2 - 1) * s) <= d2 * e <= (d2 - 1) * s,
    ;
    assert((k * dx) * dy == (k * dy) * dx) by (nonlinear_arith);
    lemma_parallel_quotients(k * dx, k * dy, d2, dx, dy);
}

/// Two colliding balls swap their speeds along the line between their
/// centres, up to what rounding costs, and keep the sum of the two; the sum
/// of the squares of the two is kept up to what rounding costs. Each keeps
/// its speed across that line, up to what rounding costs.
///
/// The speeds are taken as inner products with the line from the second
/// centre to the first, as it was before the collision, and with that line
/// turned by a right angle. Collisions that leave a speed inside the
/// deadband and not zero, or outside the range of `i32`, are left out.
pub proof fn law_resolved_pair_swaps_speeds(b1: Ball, b2: Ball)
    requires
        overlapping(b1, b2),
        b1.x != b2.x || b1.y != b2.y,
        ({
            let dx = b1.x - b2.x;
            let dy = b1.y - b2.y;
            let given = exchange(b1.vx - b2.vx, b1.vy - b2.vy, dx, dy, dx * dx + dy * dy);
            &&& kept_by_deadband(b1.vx - given.0)
            &&& kept_by_deadband(b1.vy - given.1)
            &&& kept_by_deadband(b2.vx + given.0)
            &&& kept_by_deadband(b2.vy + given.1)
        }),
    ensures
        ({
            let dx = b1.x - b2.x;
            let dy = b1.y - b2.y;
            let after = resolved_pair(b1, b2);
            let before1 = b1.vx * dx + b1.vy * dy;
            let before2 = b2.vx * dx + b2.vy * dy;
            let after1 = after.0.vx * dx + after.0.vy * dy;
            let after2 = after.1.vx * dx + after.1.vy * dy;
            let slack = magnitude(dx) + magnitude(dy);
            &&& after1 + after2 == before1 + before2
            &&& magnitude(after1 - before2) <= slack
            &&& magnitude(after2 - before1) <= slack
            &&& magnitude(after1 * after1 + after2 * after2 - (before1 * before1 + before2 * before2))
                <= 2 * slack * (magnitude(before1 - before2) + slack)
            &&& magnitude((after.0.vx * dy - after.0.vy * dx) - (b1.vx * dy - b1.vy * dx)) <= slack
            &&& magnitude((after.1.vx * dy - after.1.vy * dx) - (b2.vx * dy - b2.vy * dx)) <= slack
        }),
{
    let dx = b1.x - b2.x;
    let dy = b1.y - b2.y;
    let d2 = dx * dx + dy * dy;
    assert(d2 > 0) by (nonlinear_arith)
        requires
            d2 == dx * dx + dy * dy,
            dx != 0 || dy != 0,
    ;
    let wx = b1.vx - b2.vx;
    let wy = b1.vy - b2.vy;
    let given = exchange(wx, wy, dx, dy, d2);
    lemma_exchange_along(wx, wy, dx, dy);
    let after = resolved_pair(b1, b2);
    assert(after.0.vx == b1.vx - given.0);
    assert(after.0.vy == b1.vy - given.1);
    assert(after.1.vx == b2.vx + given.0);
    assert(after.1.vy == b2.vy + given.1);
    let g = given.0 * dx + given.1 * dy;
    let c = given.0 * dy - given.1 * dx;
    assert(after.0.vx * dx + after.0.vy * dy == b1.vx * dx + b1.vy * dy - g) by (nonlinear_arith)
        requires
            after.0.vx == b1.vx - given.0,
            after.0.vy == b1.vy - given.1,
            g == given.0 * dx + given.1 * dy,
    ;
    assert(after.1.vx * dx + after.1.vy * dy == b2.vx * dx + b2.vy * dy + g) by (nonlinear_arith)
        requires
            after.1.vx == b2.vx + given.0,
            after.1.vy == b2.vy + given.1,
            g == given.0 * dx + given.1 * dy,
    ;
    assert(after.0.vx * dy - after.0.vy * dx == b1.vx * dy - b1.vy * dx - c) by (nonlinear_arith)
        requires
            after.0.vx == b1.vx - given.0,
            after.0.vy == b1.vy - given.1,
            c == given.0 * dy - given.1 * dx,
    ;
    assert(after.1.vx * dy - after.1.vy * dx == b2.vx * dy - b2.vy * dx + c) by (nonlinear_arith)
        requires
            after.1.vx == b2.vx + given.0,
            after.1.vy == b2.vy + given.1,
            c == given.0 * dy - given.1 * dx,
    ;
    assert(wx * dx + wy * dy == (b1.vx * dx + b1.vy * dy) - (b2.vx * dx + b2.vy * dy)) by (nonlinear_arith)
        requires
            wx == b1.vx - b2.vx,
            wy == b1.vy - b2.vy,
    ;
    let a = b1.vx * dx + b1.vy * dy;
    let b = b2.vx * dx + b2.vy * dy;
    let e = (after.0.vx * dx + after.0.vy * dy) - b;
    let s = magnitude(dx) + magnitude(dy);
    let w = magnitude(a - b);
    assert((b + e) * (b + e) + (a - e) * (a - e) - (a * a + b * b) == 2 * (e * (b - a)) + 2 * (e * e))
        by (nonlinear_arith);
    assert(-(s * w) <= e * (b - a) <= s * w) by (nonlinear_arith)
        requires
            -s <= e <= s,
            -w <= b - a <= w,
    ;
    assert(0 <= e * e <= s * s) by (nonlinear_arith)
        requires
            -s <= e <= s,
    ;
    assert(2 * s * (w + s) == 2 * (s * w) + 2 * (s * s)) by (nonlinear_arith);
}

/// A ball put out of a surface and sent on by its rebound lies, along the
/// old line from the surface to its centre, no less than a full radius
/// away.
proof fn lemma_bounce_projection(dx: int, dy: int, radius: int, len: int, vx: int, vy: int)
    requires
        dx * dx + dy * dy > 0,
        len > 0,
        vx * dx + vy * dy < 0,
    ensures
        ({
            let out = push(dx, dy, radius, len);
            let v = rebound(vx, vy, dx, dy, dx * dx + dy * dy);
            len * ((dx + out.0 + v.0) * dx + (dy + out.1 + v.1) * dy) >= ((dx * dx + dy * dy) * radius)
                * FINE
        }),
{
    let d2 = dx * dx + dy * dy;
    let gap = radius * FINE - len;
    let along = vx * dx + vy * dy;
    // The push out of the surface.
    let ox = quot_towards(gap * dx, len, dx);
    let oy = quot_towards(gap * dy, len, dy);
    let o = ox * dx + oy * dy;
    lemma_quot_towards_times(gap * dx, len, dx);
    lemma_quot_towards_times(gap * dy, len, dy);
    assert((gap * dx) * dx + (gap * dy) * dy == gap * d2) by (nonlinear_arith)
        requires
            d2 == dx * dx + dy * dy,
    ;
    assert(len * (ox * dx) + len * (oy * dy) == len * o) by (nonlinear_arith)
        requires
            o == ox * dx + oy * dy,
    ;
    assert(len * o >= gap * d2);
    // The mirrored velocity.
    let cx = quot_towards(2 * along * dx, d2, -dx);
    let cy = quot_towards(2 * along * dy, d2, -dy);
    let c = cx * dx + cy * dy;
    lemma_quot_towards_times(2 * along * dx, d2, dx);
    lemma_quot_towards_times(2 * along * dy, d2, dy);
    assert((2 * along * dx) * dx + (2 * along * dy) * dy == (2 * along) * d2) by (nonlinear_arith)
        requires
            d2 == dx * dx + dy * dy,
    ;
    assert(d2 * (cx * dx) + d2 * (cy * dy) == d2 * c) by (nonlinear_arith)
        requires
            c == cx * dx + cy * dy,
    ;
    assert(d2 * c <= (2 * along) * d2);
    assert(c <= 2 * along) by (nonlinear_arith)
        requires
            d2 > 0,
            d2 * c <= (2 * along) * d2,
    ;
    let bx = vx - cx;
    let by = vy - cy;
    let b = bx * dx + by * dy;
    assert(b == along - c) by (nonlinear_arith)
        requires
            b == (vx - cx) * dx + (vy - cy) * dy,
            along == vx * dx + vy * dy,
            c == cx * dx + cy * dy,
    ;
    assert(b >= 1);
    // The rebound.
    let rx = quot_towards(bx * RESTITUTION_TENTHS, 10, dx);
    let ry = quot_towards(by * RESTITUTION_TENTHS, 10, dy);
    let r = rx * dx + ry * dy;
    lemma_quot_towards_times(bx * RESTITUTION_TENTHS, 10, dx);
    lemma_quot_towards_times(by * RESTITUTION_TENTHS, 10, dy);
    assert((bx * RESTITUTION_TENTHS) * dx + (by * RESTITUTION_TENTHS) * dy == 7 * b) by (nonlinear_arith)
        requires
            b == bx * dx + by * dy,
            RESTITUTION_TENTHS == 7,
    ;
    assert(10 * r >= 7 * b);
    assert(r >= 0);
    // The three together.
    let y = (dx + ox + rx) * dx + (dy + oy + ry) * dy;
    assert(y == d2 + o + r) by (nonlinear_arith)
        requires
            y == (dx + ox + rx) * dx + (dy + oy + ry) * dy,
            d2 == dx * dx + dy * dy,
            o == ox * dx + oy * dy,
            r == rx * dx + ry * dy,
    ;
    assert(len * y == len * d2 + len * o + len * r) by (nonlinear_arith)
        requires
            y == d2 + o + r,
    ;
    assert(len * r >= 0) by (nonlinear_arith)
        requires
            len > 0,
            r >= 0,
    ;
    assert(len * d2 + gap * d2 == (d2 * radius) * FINE) by (nonlinear_arith)
        requires
            gap == radius * FINE - len,
    ;
}

/// A ball that overlaps a rectangle from outside and moves towards it no
/// longer reaches the rectangle once it has bounced: its centre is no
/// closer to the rectangle than its radius.
///
/// A ball so near the end of the `i32` range that its new centre would
/// leave it is left out.
pub proof fn law_bounce_leaves_no_overlap(rect: Rect, ball: Ball)
    requires
        rect.wf(),
        0 < rect.gap_squared(ball.x as int, ball.y as int),
        reaches(ball.radius as int, rect.gap_squared(ball.x as int, ball.y as int)),
        approaching(rect, ball),
        fits(bounce_target(rect, ball).0),
        fits(bounce_target(rect, ball).1),
    ensures
        ({
            let after = bounced_off(rect, ball);
            &&& rect.gap_squared(after.x as int, after.y as int) >= ball.radius * ball.radius
            &&& sqrt_floor(rect.gap_squared(after.x as int, after.y as int)) >= ball.radius
            &&& after.radius == ball.radius
        }),
{
    let near = rect.nearest_spec(ball.x as int, ball.y as int);
    let dx = ball.x - near.0;
    let dy = ball.y - near.1;
    let d2 = dx * dx + dy * dy;
    lemma_fine_length(d2);
    let len = fine_length(d2);
    let radius = ball.radius as int;
    assert(!rect.contains_spec(ball.x as int, ball.y as int)) by {
        if rect.contains_spec(ball.x as int, ball.y as int) {
            assert(dx == 0 && dy == 0);
            assert(d2 == 0) by (nonlinear_arith)
                requires
                    d2 == dx * dx + dy * dy,
                    dx == 0,
                    dy == 0,
            ;
        }
    }
    let after = bounced_off(rect, ball);
    let out = push(dx, dy, radius, len);
    let v = rebound(ball.vx as int, ball.vy as int, dx, dy, d2);
    assert(after.x == ball.x + out.0 + v.0);
    assert(after.y == ball.y + out.1 + v.1);
    let far = rect.nearest_spec(after.x as int, after.y as int);
    let ex = after.x - far.0;
    let ey = after.y - far.1;
    let e2 = ex * ex + ey * ey;
    assert(e2 == rect.gap_squared(after.x as int, after.y as int));
    lemma_bounce_projection(dx, dy, radius, len, ball.vx as int, ball.vy as int);
    let tx = dx + out.0 + v.0;
    let ty = dy + out.1 + v.1;
    let y = tx * dx + ty * dy;
    let x = ex * dx + ey * dy;
    assert(ex * dx >= tx * dx) by (nonlinear_arith)
        requires
            ex - tx == near.0 - far.0,
            dx > 0 ==> near.0 >= far.0,
            dx < 0 ==> near.0 <= far.0,
    ;
    assert(ey * dy >= ty * dy) by (nonlinear_arith)
        requires
            ey - ty == near.1 - far.1,
            dy > 0 ==> near.1 >= far.1,
            dy < 0 ==> near.1 <= far.1,
    ;
    assert(len * x >= len * y) by (nonlinear_arith)
        requires
            len > 0,
            x >= y,
    ;
    lemma_inner_product_bound(ex, ey, dx, dy);
    lemma_projection(d2, len, x, e2, radius);
    lemma_sqrt_floor_at_least(e2, radius);
}

/// A ball whose centre lies inside a rectangle touches the rectangle from
/// outside once it has met it: its centre is a radius away.
///
/// A ball so near the end of the `i32` range that its new centre would
/// leave it is left out.
pub proof fn law_pushed_out_ball_touches(rect: Rect, ball: Ball)
    requires
        rect.wf(),
        ball.radius > 0,
        rect.contains_spec(ball.x as int, ball.y as int),
        fits(exit_point(rect, ball).0),
        fits(exit_point(rect, ball).1),
    ensures
        ({
            let after = bounced_off(rect, ball);
            rect.gap_squared(after.x as int, after.y as int) == ball.radius * ball.radius
        }),
{
    let after = bounced_off(rect, ball);
    let r = ball.radius as int;
    let near = rect.nearest_spec(ball.x as int, ball.y as int);
    assert(near == (ball.x as int, ball.y as int));
    let dx = ball.x - near.0;
    let dy = ball.y - near.1;
    assert(dx * dx + dy * dy == 0) by (nonlinear_arith)
        requires
            dx == 0,
            dy == 0,
    ;
    assert(0 < r * r) by (nonlinear_arith)
        requires
            r > 0,
    ;
    assert(after == pushed_out(rect, ball));
    let far = rect.nearest_spec(after.x as int, after.y as int);
    let ex = after.x - far.0;
    let ey = after.y - far.1;
    assert((ex == 0 && (ey == r || ey == -r)) || (ey == 0 && (ex == r || ex == -r)));
    assert(ex * ex + ey * ey == r * r) by (nonlinear_arith)
        requires
            (ex == 0 && (ey == r || ey == -r)) || (ey == 0 && (ex == r || ex == -r)),
    ;
}

/// A ball that has met a rectangle is left as it is by a second meeting
/// with it.
///
/// A ball so near the end of the `i32` range that the first meeting would
/// take its centre out of it is left out.
pub proof fn law_bounced_ball_stays_bounced(rect: Rect, ball: Ball)
    requires
        rect.wf(),
        fits(landing(rect, ball).0),
        fits(landing(rect, ball).1),
    ensures
        bounced_off(rect, bounced_off(rect, ball)) == bounced_off(rect, ball),
{
    let near = rect.nearest_spec(ball.x as int, ball.y as int);
    let dx = ball.x - near.0;
    let dy = ball.y - near.1;
    let d2 = dx * dx + dy * dy;
    assert(d2 == rect.gap_squared(ball.x as int, ball.y as int));
    assert(d2 >= 0) by (nonlinear_arith)
        requires
            d2 == dx * dx + dy * dy,
    ;
    if reaches(ball.radius as int, d2) {
        if rect.contains_spec(ball.x as int, ball.y as int) {
            law_pushed_out_ball_touches(rect, ball);
        } else if d2 != 0 && approaching(rect, ball) {
            law_bounce_leaves_no_overlap(rect, ball);
        }
    }
}

/// Resolving the collision of two balls that do not overlap changes
/// nothing, however often it is done.
pub proof fn law_separate_pair_is_left_alone(b1: Ball, b2: Ball)
    requires
        !overlapping(b1, b2),
    ensures
        resolved_pair(b1, b2) == (b1, b2),
        resolved_pair(resolved_pair(b1, b2).0, resolved_pair(b1, b2).1) == (b1, b2),
{
}

/// A ball that does not reach a rectangle is left as it is by the meeting,
/// however often they meet.
pub proof fn law_clear_ball_is_left_alone(rect: Rect, ball: Ball)
    requires
        rect.gap_squared(ball.x as int, ball.y as int) >= ball.radius * ball.radius,
    ensures
        bounced_off(rect, ball) == ball,
        bounced_off(rect, bounced_off(rect, ball)) == ball,
{
}

/// A ball that overlaps none of the others leaves all of them, and itself,
/// as they are when it meets them.
pub proof fn law_lone_ball_meets_nobody(balls: Seq<Ball>, i: int, k: int)
    requires
        0 <= i < balls.len(),
        0 <= k <= balls.len(),
        forall|j: int| 0 <= j < balls.len() && j != i ==> !overlapping(balls[i], #[trigger] balls[j]),
    ensures
        met_neighbours(balls, i, k) == balls,
    decreases k,
{
    if k > 0 {
        law_lone_ball_meets_nobody(balls, i, k - 1);
    }
}

/// Where no walls stand, a moving ball that crosses the right edge of the
/// surface comes back in at the left edge, with the velocity that drag and
/// gravity have given it in this step: under no gravity, its old velocity
/// after drag.
pub proof fn law_wrap_keeps_velocity(
    ball: Ball,
    size: Size,
    gravity_point: Option<Point>,
    gravity_tuple: (i32, i32),
)
    requires
        !ball.resting,
        size.width >= 0,
        ball.advanced(gravity_point, gravity_tuple).x > size.width,
    ensures
        ({
            let after = ball.updated(size, false, gravity_point, gravity_tuple);
            &&& after.x == 0
            &&& !after.resting
            &&& (after.vx, after.vy) == ball.next_velocity(gravity_point, gravity_tuple)
            &&& gravity_point is None && gravity_tuple == (0i32, 0i32) ==> after.vx == damped(ball.vx as int)
                && after.vy == damped(ball.vy as int)
        }),
{
    lemma_quot_bounds(ball.vx * DRAG_PERCENT, 100);
    lemma_quot_bounds(ball.vy * DRAG_PERCENT, 100);
}

/// A ball that the move tool puts down rests at a standstill where it was
/// put, whatever it did before; the other balls are as they were.
pub proof fn law_moved_ball_rests(world: World, selector: Point, target: Point)
    requires
        world.ball_at(selector) < world.balls.len(),
    ensures
        ({
            let k = world.ball_at(selector);
            let after = world.with_ball_moved(selector, target);
            &&& after.balls.len() == world.balls.len()
            &&& 0 <= k
            &&& world.balls[k].contains_spec(selector.x as int, selector.y as int)
            &&& after.balls[k].resting
            &&& after.balls[k].vx == 0 && after.balls[k].vy == 0
            &&& after.balls[k].x == target.x && after.balls[k].y == target.y
            &&& after.balls[k].radius == world.balls[k].radius
            &&& forall|j: int| 0 <= j < world.balls.len() && j != k ==> after.balls[j] == world.balls[j]
        }),
{
    lemma_first_index_is_first(world.balls, holds_point(selector));
}

/// The two balls are one body: they agree in radius, terminal speed and
/// colour.
pub open spec fn same_body(a: Ball, b: Ball) -> bool {
    a.radius == b.radius && a.terminal_velocity == b.terminal_velocity && a.color == b.color
}

/// Each ball of `after` is the body that stands at its place in `before`.
pub open spec fn same_bodies(before: Seq<Ball>, after: Seq<Ball>) -> bool {
    before.len() == after.len() && forall|i: int|
        0 <= i < before.len() ==> same_body(#[trigger] before[i], after[i])
}

/// Meeting obstacles changes where a ball is and how it moves, and nothing
/// else of it.
proof fn lemma_met_obstacles_keeps_body(ball: Ball, obstacles: Seq<Obstacle>, k: int)
    requires
        k <= obstacles.len(),
    ensures
        same_body(ball, met_obstacles(ball, obstacles, k)),
    decreases k,
{
    if k > 0 {
        lemma_met_obstacles_keeps_body(ball, obstacles, k - 1);
    }
}

/// Meeting other balls changes where balls are and how they move, and
/// nothing else of them.
proof fn lemma_met_neighbours_keeps_bodies(balls: Seq<Ball>, i: int, k: int)
    requires
        0 <= i < balls.len(),
        k <= balls.len(),
    ensures
        same_bodies(balls, met_neighbours(balls, i, k)),
    decreases k,
{
    if k > 0 {
        lemma_met_neighbours_keeps_bodies(balls, i, k - 1);
        lemma_met_neighbours_len(balls, i, k - 1);
        let before = met_neighbours(balls, i, k - 1);
        let after = met_neighbours(balls, i, k);
        assert forall|j: int| 0 <= j < balls.len() implies same_body(#[trigger] balls[j], after[j]) by {
            assert(same_body(balls[j], before[j]));
        }
    }
}

/// The turns of the first `k` balls change where balls are and how they
/// move, and nothing else of them.
proof fn lemma_turns_keep_bodies(world: World, balls: Seq<Ball>, k: int)
    requires
        k <= balls.len(),
    ensures
        same_bodies(balls, world.turns(balls, k)),
    decreases k,
{
    if k > 0 {
        lemma_turns_keep_bodies(world, balls, k - 1);
        let before = world.turns(balls, k - 1);
        let met = met_obstacles(world.moved(before[k - 1]), world.obstacles, world.obstacles.len() as int);
        lemma_met_obstacles_keeps_body(world.moved(before[k - 1]), world.obstacles, world.obstacles.len() as int);
        let placed = before.update(k - 1, met);
        lemma_met_neighbours_keeps_bodies(placed, k - 1, balls.len() as int);
        let after = world.turns(balls, k);
        assert forall|j: int| 0 <= j < balls.len() implies same_body(#[trigger] balls[j], after[j]) by {
            assert(same_body(balls[j], before[j]));
            assert(same_body(before[j], placed[j]));
            assert(same_body(placed[j], after[j]));
        }
    }
}

/// A step of the world neither makes nor loses a ball, and leaves each its
/// radius, its terminal speed and its colour; obstacles and settings stay.
pub proof fn law_step_keeps_bodies(world: World)
    ensures
        same_bodies(world.balls, world.stepped().balls),
        world.stepped().obstacles == world.obstacles,
        world.stepped().size == world.size,
        world.stepped().params == world.params,
        forall|i: int|
            0 <= i < world.balls.len() && (#[trigger] world.balls[i]).wf() ==> world.stepped().balls[i].wf(),
{
    lemma_turns_keep_bodies(world, world.balls, world.balls.len() as int);
    assert forall|i: int| 0 <= i < world.balls.len() && (#[trigger] world.balls[i]).wf() implies world.stepped().balls[i].wf() by {
        assert(same_body(world.balls[i], world.stepped().balls[i]));
    }
}

/// Rest ends only in a collision with another ball, or when the move tool
/// lets go: a resting ball is left as it is by its own motion, and a
/// meeting with a rectangle leaves a ball at rest or in motion as it was.
pub proof fn law_rest_is_kept(
    ball: Ball,
    rect: Rect,
    size: Size,
    walls: bool,
    gravity_point: Option<Point>,
    gravity_tuple: (i32, i32),
)
    ensures
        ball.resting ==> ball.updated(size, walls, gravity_point, gravity_tuple) == ball,
        bounced_off(rect, ball).resting == ball.resting,
{
}

/// Where no walls stand, a ball ends its own motion on the surface,
/// wherever it began and however fast it is.
pub proof fn law_open_surface_keeps_balls(
    ball: Ball,
    size: Size,
    gravity_point: Option<Point>,
    gravity_tuple: (i32, i32),
)
    requires
        !ball.resting,
        size.width >= 0,
        size.height >= 0,
    ensures
        ball.updated(size, false, gravity_point, gravity_tuple).on_surface(size),
        !ball.updated(size, false, gravity_point, gravity_tuple).resting,
{
}

/// Where walls stand, a ball whose own motion takes its centre off the
/// surface is put to rest there, and one that stays on it keeps moving.
pub proof fn law_walled_surface_rests_strays(
    ball: Ball,
    size: Size,
    gravity_point: Option<Point>,
    gravity_tuple: (i32, i32),
)
    requires
        !ball.resting,
    ensures
        ({
            let after = ball.updated(size, true, gravity_point, gravity_tuple);
            &&& after.resting == !after.on_surface(size)
            &&& (after.x, after.y) == (
                ball.advanced(gravity_point, gravity_tuple).x,
                ball.advanced(gravity_point, gravity_tuple).y,
            )
        }),
{
}

/// An attractor leaves a body no speed across the line that joins the two,
/// up to what rounding costs: the velocity after attraction, taken as an
/// inner product with that line turned by a right angle, is less than
/// twice the sum of the line's coordinates.
pub proof fn law_attraction_drops_sideways_speed(x: int, y: int, vx: int, vy: int, gx: int, gy: int)
    requires
        x != gx || y != gy,
    ensures
        ({
            let after = attracted(x, y, vx, vy, gx, gy);
            let dx = x - gx;
            let dy = y - gy;
            magnitude(after.0 * dy - after.1 * dx) < 2 * (magnitude(dx) + magnitude(dy))
        }),
{
    let dx = x - gx;
    let dy = y - gy;
    let d2 = dx * dx + dy * dy;
    assert(d2 > 0) by (nonlinear_arith)
        requires
            d2 == dx * dx + dy * dy,
            dx != 0 || dy != 0,
    ;
    lemma_fine_length(d2);
    let len = fine_length(d2);
    let along = vx * dx + vy * dy;
    let pull = PULL * FINE;
    assert((along * dx) * dy == (along * dy) * dx) by (nonlinear_arith);
    lemma_parallel_quotients(along * dx, along * dy, d2, dx, dy);
    assert((dx * pull) * dy == (dy * pull) * dx) by (nonlinear_arith);
    lemma_parallel_quotients(dx * pull, dy * pull, len, dx, dy);
    let kx = quot(along * dx, d2);
    let ky = quot(along * dy, d2);
    let px = quot(dx * pull, len);
    let py = quot(dy * pull, len);
    let after = attracted(x, y, vx, vy, gx, gy);
    assert(after.0 * dy - after.1 * dx == (kx * dy - ky * dx) - (px * dy - py * dx)) by (nonlinear_arith)
        requires
            after.0 == kx - px,
            after.1 == ky - py,
    ;
}

/// Once the constant pull and the walls follow their switches, following
/// them again changes nothing.
pub proof fn law_switches_settle(world: World)
    ensures
        world.gravity_synced().gravity_synced() == world.gravity_synced(),
        world.walls_synced().walls_synced() == world.walls_synced(),
{
}

} // verus!
