use physics_sandbox::appdata::AppData;
use physics_sandbox::ball::Ball;
use physics_sandbox::collision::resolve_pair;
use physics_sandbox::fixed::isqrt;
use physics_sandbox::geometry::{Color, Point, Rect, Size, RED, WHITE};
use physics_sandbox::obstacle::{bounce_off, Obstacle};

fn white() -> Color {
    Color::from_rgba32_u32(WHITE)
}

fn ball(x: i32, y: i32, vx: i32, vy: i32, radius: i32) -> Ball {
    Ball::new(x, y, vx, vy, radius, white())
}

fn block() -> Rect {
    Rect::new(200_000, 200_000, 300_000, 300_000)
}

fn gap(rect: &Rect, b: &Ball) -> i64 {
    let near = rect.nearest(Point::new(b.x, b.y));
    let dx = (b.x - near.x) as i64;
    let dy = (b.y - near.y) as i64;
    isqrt((dx * dx + dy * dy) as u128) as i64
}

fn apart(a: &Ball, b: &Ball) -> i64 {
    Point::new(a.x, a.y).distance(Point::new(b.x, b.y))
}

fn along(b: &Ball, dx: i64, dy: i64) -> i64 {
    b.vx as i64 * dx + b.vy as i64 * dy
}

#[test]
fn bounced_balls_clear_the_rect_and_stay_bounced() {
    let rect = block();
    let mut seen = 0;
    for x in (180_000..=200_000).step_by(1_777) {
        for y in (180_000..=320_000).step_by(3_331) {
            for (vx, vy) in [(5_000, 0), (3_000, 4_000), (1, 1), (20_000, -7_000), (300, 15_000), (7, -9_000)] {
                let before = ball(x, y, vx, vy, 15_000);
                let near = rect.nearest(Point::new(x, y));
                let (dx, dy) = ((x - near.x) as i64, (y - near.y) as i64);
                let d2 = dx * dx + dy * dy;
                let hits = 0 < d2 && d2 < 15_000 * 15_000 && along(&before, dx, dy) < 0;
                let after = bounce_off(&rect, before);
                if hits {
                    seen += 1;
                    assert!(gap(&rect, &after) >= 15_000);
                    let speed = (after.vx.abs() + after.vy.abs()) as i64;
                    assert!(gap(&rect, &after) <= 15_000 + 2 + speed);
                } else {
                    assert_eq!(after, before);
                }
                assert_eq!(bounce_off(&rect, after), after);
            }
        }
    }
    assert!(seen > 100);
}

#[test]
fn pushed_out_ball_touches_the_rect() {
    let rect = block();
    for (x, y) in [(250_000, 290_000), (250_000, 210_000), (210_000, 250_000), (290_000, 250_000), (200_000, 200_000), (299_999, 299_999)] {
        let after = bounce_off(&rect, ball(x, y, 300, -400, 15_000));
        assert_eq!(gap(&rect, &after), 15_000);
        assert_eq!(bounce_off(&rect, after), after);
    }
}

#[test]
fn resolved_pairs_are_apart_and_stay_resolved() {
    let mut seen = 0;
    for x in (-30_000..=30_000).step_by(1_237) {
        for y in (-30_000..=30_000).step_by(2_111) {
            let a = ball(0, 0, 4_000, -3_000, 13_000);
            let b = ball(x, y, -2_500, 1_700, 17_000);
            let d2 = x as i64 * x as i64 + y as i64 * y as i64;
            let (a2, b2) = resolve_pair(a, b);
            if 0 < d2 && d2 < 30_000 * 30_000 {
                seen += 1;
                assert!(apart(&a2, &b2) >= 30_000);
                assert!(apart(&a2, &b2) <= 30_000 + 3);
            } else {
                assert_eq!((a2, b2), (a, b));
            }
            assert_eq!(resolve_pair(a2, b2), (a2, b2));
        }
    }
    assert!(seen > 100);
}

#[test]
fn resolved_pairs_swap_their_speeds_along_the_line() {
    for x in (-29_000..=29_000).step_by(1_237) {
        for y in (-3_000..=3_000).step_by(211) {
            let a = ball(0, 0, 4_000, -3_000, 15_000);
            let b = ball(x, y, -2_500, 1_700, 15_000);
            let (dx, dy) = (-x as i64, -y as i64);
            if dx == 0 && dy == 0 {
                continue;
            }
            let (a2, b2) = resolve_pair(a, b);
            if [a2.vx, a2.vy, b2.vx, b2.vy].iter().any(|v| *v == 0) {
                continue;
            }
            let slack = dx.abs() + dy.abs();
            assert_eq!(along(&a2, dx, dy) + along(&b2, dx, dy), along(&a, dx, dy) + along(&b, dx, dy));
            assert!((along(&a2, dx, dy) - along(&b, dx, dy)).abs() <= slack);
            assert!((along(&b2, dx, dy) - along(&a, dx, dy)).abs() <= slack);
            assert!((along(&a2, dy, -dx) - along(&a, dy, -dx)).abs() <= slack);
            assert!((along(&b2, dy, -dx) - along(&b, dy, -dx)).abs() <= slack);
        }
    }
}

#[test]
fn slanted_collision_swaps_exactly() {
    let a = ball(0, 0, 3_000, 0, 15_000);
    let b = ball(12_000, 16_000, 0, 0, 15_000);
    let (a2, b2) = resolve_pair(a, b);
    assert_eq!(apart(&a2, &b2), 30_000);
    assert_eq!(along(&b2, -12_000, -16_000), along(&a, -12_000, -16_000));
    assert_eq!(along(&a2, -12_000, -16_000), 0);
}

#[test]
fn meeting_a_rect_keeps_rest_as_it_is() {
    let mut asleep = ball(190_000, 250_000, 5_000, 1_000, 15_000);
    asleep.resting = true;
    assert!(bounce_off(&block(), asleep).resting);
    let mut inside = ball(250_000, 290_000, 0, 0, 15_000);
    inside.resting = true;
    assert!(bounce_off(&block(), inside).resting);
    assert!(!bounce_off(&block(), ball(250_000, 290_000, 0, 0, 15_000)).resting);
}

#[test]
fn resting_ball_has_no_turn() {
    let mut data = AppData::new(Size::new(1_100_000, 700_000), (0, 200));
    data.add_obstacle(Obstacle::new(Point::new(200_000, 200_000), Point::new(300_000, 300_000), Color::from_rgba32_u32(RED)));
    let mut inside = ball(250_000, 290_000, 1_000, 1_000, 15_000);
    inside.resting = true;
    let mut beside = ball(260_000, 290_000, 0, 0, 15_000);
    beside.resting = true;
    data.add_ball(inside);
    data.add_ball(beside);
    let before = data.clone();
    data.update();
    assert_eq!(data, before);
}

#[test]
fn moving_ball_wakes_the_resting_ball_it_runs_into() {
    let mut data = AppData::new(Size::new(1_100_000, 700_000), (0, 0));
    let mut asleep = ball(100_000, 100_000, 0, 0, 15_000);
    asleep.resting = true;
    data.add_ball(asleep);
    data.add_ball(ball(131_000, 100_000, -2_000, 0, 15_000));
    data.update();
    assert!(!data.balls[0].resting);
    assert_eq!((data.balls[0].x, data.balls[0].vx), (99_510, -1_980));
    assert_eq!((data.balls[1].x, data.balls[1].vx), (129_510, 0));
}

#[test]
fn step_keeps_the_bodies_of_a_crowd() {
    let mut data = AppData::new(Size::new(300_000, 300_000), (0, 200));
    data.set_border_wall();
    for k in 0..12 {
        data.add_ball(ball(20_000 + k * 21_000, 50_000 + (k % 3) * 20_000, 3_000 - k * 500, k * 300, 8_000 + k * 500));
    }
    let radii: Vec<i32> = data.balls.iter().map(|b| b.radius).collect();
    for _ in 0..200 {
        data.update();
        assert_eq!(data.balls.len(), 12);
        assert_eq!(data.obstacles.len(), 4);
        for (b, r) in data.balls.iter().zip(radii.iter()) {
            assert_eq!(b.radius, *r);
            assert_eq!(b.terminal_velocity, *r);
            assert_eq!(b.color, white());
        }
    }
}

#[test]
fn attracted_ball_moves_along_the_line_to_the_attractor() {
    for (x, y) in [(30_000, 40_000), (-7_001, 13), (1, 1), (250_000, -3), (0, 99_999)] {
        for (vx, vy) in [(1_000, 0), (-3_000, 4_000), (15_000, 15_000), (0, -1)] {
            let mut data = AppData::new(Size::new(1_100_000, 700_000), (0, 200));
            data.params.walls = false;
            data.gravity_point = Some(Point::new(0, 0));
            let mut b = ball(x, y, vx, vy, 15_000);
            b.update(&data);
            let across = b.vx as i64 * y as i64 - b.vy as i64 * x as i64;
            assert!(across.abs() < 2 * (x.abs() + y.abs()) as i64);
        }
    }
}

#[test]
fn switches_settle_after_one_sync() {
    let mut data = AppData::new(Size::new(1_100_000, 700_000), (0, 200));
    data.params.zero_gravity = true;
    data.sync_gravity();
    data.sync_walls();
    let once = data.clone();
    data.sync_gravity();
    data.sync_walls();
    assert_eq!(data, once);
    assert_eq!(data.gravity_tuple, (0, 0));
    assert_eq!(data.obstacles.len(), 4);
}

#[test]
fn slow_ball_at_a_corner_is_bounced_once() {
    let rect = block();
    let before = ball(194_929, 187_568, 27, -11, 15_000);
    let once = bounce_off(&rect, before);
    assert!(once != before);
    assert!(gap(&rect, &once) >= 15_000);
    assert_eq!(bounce_off(&rect, once), once);
}

#[test]
fn crawling_balls_are_bounced_once() {
    let rect = block();
    for x in (185_000..=200_000).step_by(613) {
        for y in (185_000..=200_000).step_by(701) {
            for (vx, vy) in [(1, 0), (0, 1), (1, 1), (27, -11), (-11, 27), (2, -1), (-1, 2), (99, 3)] {
                let once = bounce_off(&rect, ball(x, y, vx, vy, 15_000));
                assert_eq!(bounce_off(&rect, once), once);
            }
        }
    }
}

#[test]
fn touching_pair_is_left_alone() {
    let a = ball(100_000, 100_000, 5_000, 0, 15_000);
    let mut b = ball(130_000, 100_000, -3_000, 0, 15_000);
    b.resting = true;
    assert_eq!(resolve_pair(a, b), (a, b));
    let mut balls = vec![a, b];
    physics_sandbox::collision::resolve_ball_overlap(&mut balls, 0, 1);
    assert_eq!(balls, vec![a, b]);
}

#[test]
fn head_on_collision_along_one_axis_swaps_and_keeps_zero() {
    let a = ball(100_000, 100_000, 1_000, 0, 15_000);
    let b = ball(120_000, 100_000, -1_000, 0, 15_000);
    let (a2, b2) = resolve_pair(a, b);
    assert_eq!((a2.vx, a2.vy), (-1_000, 0));
    assert_eq!((b2.vx, b2.vy), (1_000, 0));
    assert_eq!(along(&a2, -20_000, 0), along(&b, -20_000, 0));
    assert_eq!(along(&b2, -20_000, 0), along(&a, -20_000, 0));
    assert_eq!(resolve_pair(a2, b2), (a2, b2));
}

#[test]
fn edge_of_a_walled_surface_counts_the_balls_it_stops() {
    let mut data = AppData::new(Size::new(1_100_000, 700_000), (0, 0));
    data.add_ball(ball(1_099_000, 350_000, 2_000, 0, 15_000));
    data.add_ball(ball(500_000, 350_000, 2_000, 0, 15_000));
    data.add_ball(ball(500_000, 1_000, 0, -2_000, 15_000));
    assert_eq!(data.update(), 2);
    assert!(data.balls[0].resting && !data.balls[1].resting && data.balls[2].resting);
    assert_eq!(data.update(), 0);
    data.params.walls = false;
    data.add_ball(ball(1_099_000, 50_000, 2_000, 0, 15_000));
    assert_eq!(data.update(), 0);
}
