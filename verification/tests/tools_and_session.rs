use physics_sandbox::appdata::{AppData, Params};
use physics_sandbox::ball::Ball;
use physics_sandbox::ball_preview::BallPreview;
use physics_sandbox::event::{Event, MouseButton, MouseButtons, MouseEvent};
use physics_sandbox::geometry::{
    Circle, Color, Line, Point, Rect, Size, AQUA, BLACK, GREEN, MAROON, OLIVE, PURPLE, RED, SILVER,
    TEAL, WHITE, YELLOW,
};
use physics_sandbox::obstacle::Obstacle;
use physics_sandbox::scene::DrawOp;
use physics_sandbox::session::{frame_millis, get_new_appdata, MenuItem, Reaction};
use physics_sandbox::tools::{
    aim, attraction_tool, delete_tool, launch, move_tool, palette_color, spawn_tool,
};

fn white() -> Color {
    Color::from_rgba32_u32(WHITE)
}

fn surface() -> Size {
    Size::new(1_100_000, 700_000)
}

fn ball(x: i32, y: i32, vx: i32, vy: i32) -> Ball {
    Ball::new(x, y, vx, vy, 15_000, white())
}

fn state(b: &Ball) -> (Point, (i32, i32), bool) {
    (Point::new(b.x, b.y), (b.vx, b.vy), b.resting)
}

fn world() -> AppData {
    AppData::new(surface(), (0, 200))
}

fn at(x: i32, y: i32) -> Point {
    Point::new(x, y)
}

fn press(button: MouseButton, pos: Point) -> Event {
    let buttons = MouseButtons { left: button == MouseButton::Left, right: button == MouseButton::Right };
    Event::MouseDown(MouseEvent { pos, buttons, button })
}

fn release(button: MouseButton, pos: Point) -> Event {
    Event::MouseUp(MouseEvent { pos, buttons: MouseButtons { left: false, right: false }, button })
}

fn drag(left: bool, right: bool, pos: Point) -> Event {
    Event::MouseMove(MouseEvent { pos, buttons: MouseButtons { left, right }, button: MouseButton::NoButton })
}

#[test]
fn buttons_report_what_is_held() {
    let b = MouseButtons { left: true, right: false };
    assert!(b.has_left());
    assert!(!b.has_right());
}

#[test]
fn palette_has_eight_colours() {
    let expected = [RED, GREEN, SILVER, YELLOW, PURPLE, AQUA, MAROON, TEAL];
    for k in 0..8 {
        assert_eq!(palette_color(k), Color::from_rgba32_u32(expected[k]));
    }
}

#[test]
fn colours_pack_red_first() {
    assert_eq!(Color::from_rgba32_u32(RED).as_rgba_u32(), 0xff00_00ff);
    assert_eq!(Color::from_rgba32_u32(GREEN).as_rgba_u32(), 0x0080_00ff);
    assert_eq!(Color::from_rgba32_u32(OLIVE).as_rgba_u32(), 0x8080_00ff);
    assert_eq!(Color::from_rgba32_u32(BLACK).as_rgba_u32(), 0x0000_00ff);
}

#[test]
fn short_drag_launches_as_it_is() {
    assert_eq!(launch(at(50_000, 50_000), at(40_000, 65_000)), (10_000, -15_000));
    assert_eq!(launch(at(50_000, 50_000), at(50_000, 50_000)), (0, 0));
}

#[test]
fn long_drag_is_scaled_by_its_longer_side() {
    assert_eq!(launch(at(50_000, 50_000), at(70_000, 50_000)), (-15_000, 0));
    assert_eq!(launch(at(50_000, 50_000), at(20_000, 110_000)), (7_500, -15_000));
    assert_eq!(launch(at(0, 0), at(-15_001, 1)), (15_000, 0));
}

#[test]
fn launch_across_the_whole_range() {
    assert_eq!(launch(at(i32::MAX, i32::MIN), at(i32::MIN, i32::MAX)), (15_000, -15_000));
}

#[test]
fn aim_line_runs_along_the_launch() {
    assert_eq!(
        aim(at(50_000, 50_000), at(70_000, 50_000)),
        Some(Line::new(at(50_000, 50_000), at(-10_000, 50_000)))
    );
    assert_eq!(
        aim(at(50_000, 50_000), at(20_000, 10_000)),
        Some(Line::new(at(50_000, 50_000), at(86_000, 98_000)))
    );
}

#[test]
fn aim_line_of_a_drag_straight_up_or_down() {
    assert_eq!(
        aim(at(50_000, 50_000), at(50_000, 70_000)),
        Some(Line::new(at(50_000, 50_000), at(50_000, 110_000)))
    );
    assert_eq!(
        aim(at(50_000, 50_000), at(50_000, 30_000)),
        Some(Line::new(at(50_000, 50_000), at(50_000, -10_000)))
    );
}

#[test]
fn no_aim_line_without_a_drag() {
    assert_eq!(aim(at(50_000, 50_000), at(50_000, 50_000)), None);
}

#[test]
fn spawn_gesture_shows_a_preview_and_launches() {
    let mut data = world();
    data.add_ball(ball(500_000, 500_000, 0, 0));
    spawn_tool(&press(MouseButton::Left, at(50_000, 50_000)), &mut data);
    assert_eq!(data.preview.mouse_down_pos, Some(at(50_000, 50_000)));
    assert_eq!(data.preview.color, Some(Color::from_rgba32_u32(GREEN)));
    assert_eq!(data.preview.arrow, None);
    spawn_tool(&drag(true, false, at(70_000, 50_000)), &mut data);
    assert_eq!(data.preview.arrow, Some(Line::new(at(50_000, 50_000), at(-10_000, 50_000))));
    spawn_tool(&release(MouseButton::Left, at(70_000, 50_000)), &mut data);
    assert_eq!(data.preview, BallPreview::new());
    assert_eq!(data.balls.len(), 2);
    assert_eq!(data.balls[1], Ball::new(50_000, 50_000, -15_000, 0, 15_000, Color::from_rgba32_u32(GREEN)));
}

#[test]
fn ninth_ball_is_red_again() {
    let mut data = world();
    for k in 0..8 {
        data.add_ball(ball(k * 40_000, 0, 0, 0));
    }
    spawn_tool(&press(MouseButton::Left, at(50_000, 50_000)), &mut data);
    assert_eq!(data.preview.color, Some(Color::from_rgba32_u32(RED)));
}

#[test]
fn spawn_tool_ignores_the_right_button() {
    let mut data = world();
    let before = data.clone();
    spawn_tool(&press(MouseButton::Right, at(50_000, 50_000)), &mut data);
    spawn_tool(&release(MouseButton::Right, at(50_000, 50_000)), &mut data);
    spawn_tool(&drag(false, true, at(50_000, 50_000)), &mut data);
    assert_eq!(data, before);
}

#[test]
fn release_or_drag_without_a_press_changes_nothing() {
    let mut data = world();
    let before = data.clone();
    spawn_tool(&release(MouseButton::Left, at(50_000, 50_000)), &mut data);
    spawn_tool(&drag(true, false, at(50_000, 50_000)), &mut data);
    assert_eq!(data, before);
}

#[test]
fn disarmed_tools_do_nothing() {
    let mut data = world();
    data.add_ball(ball(50_000, 50_000, 1_000, 0));
    data.params.spawn_tool = false;
    data.params.attraction_tool = false;
    data.params.move_tool = false;
    data.params.delete_tool = false;
    let before = data.clone();
    for event in [
        press(MouseButton::Left, at(50_000, 50_000)),
        press(MouseButton::Right, at(50_000, 50_000)),
        drag(true, true, at(50_000, 50_000)),
        release(MouseButton::Left, at(50_000, 50_000)),
        release(MouseButton::Right, at(50_000, 50_000)),
    ] {
        spawn_tool(&event, &mut data);
        attraction_tool(&event, &mut data);
        move_tool(&event, &mut data);
        delete_tool(&event, &mut data);
    }
    assert_eq!(data, before);
}

#[test]
fn attraction_follows_the_right_button() {
    let mut data = world();
    attraction_tool(&press(MouseButton::Left, at(1, 2)), &mut data);
    assert_eq!(data.gravity_point, None);
    attraction_tool(&press(MouseButton::Right, at(1, 2)), &mut data);
    assert_eq!(data.gravity_point, Some(at(1, 2)));
    attraction_tool(&drag(true, false, at(3, 4)), &mut data);
    assert_eq!(data.gravity_point, Some(at(1, 2)));
    attraction_tool(&drag(false, true, at(3, 4)), &mut data);
    assert_eq!(data.gravity_point, Some(at(3, 4)));
    attraction_tool(&release(MouseButton::Left, at(3, 4)), &mut data);
    assert_eq!(data.gravity_point, Some(at(3, 4)));
    attraction_tool(&release(MouseButton::Right, at(3, 4)), &mut data);
    assert_eq!(data.gravity_point, None);
}

#[test]
fn move_tool_carries_the_first_ball_under_the_pointer() {
    let mut data = world();
    data.params.move_tool = true;
    data.add_ball(ball(100_000, 100_000, 1_000, 2_000));
    data.add_ball(ball(110_000, 100_000, 3_000, 4_000));
    move_tool(&drag(true, false, at(108_000, 100_000)), &mut data);
    let moved = data.balls[0];
    assert_eq!((moved.x, moved.y, moved.vx, moved.vy), (108_000, 100_000, 0, 0));
    assert!(moved.resting);
    assert_eq!(data.balls[1], ball(110_000, 100_000, 3_000, 4_000));
}

#[test]
fn move_tool_rests_a_ball_whatever_it_did() {
    let mut data = world();
    data.params.move_tool = true;
    let mut fast = ball(100_000, 100_000, i32::MAX, i32::MIN);
    fast.resting = false;
    data.add_ball(fast);
    data.move_ball_to(at(100_000, 100_000), at(-5, -6));
    assert_eq!(state(&data.balls[0]), (at(-5, -6), (0, 0), true));
    let mut asleep = ball(300_000, 300_000, 0, 0);
    asleep.resting = true;
    data.add_ball(asleep);
    data.move_ball_to(at(300_000, 300_000), at(7, 8));
    assert_eq!(state(&data.balls[1]), (at(7, 8), (0, 0), true));
}

#[test]
fn move_tool_wakes_the_ball_on_release() {
    let mut data = world();
    data.params.move_tool = true;
    data.add_ball(ball(100_000, 100_000, 1_000, 2_000));
    move_tool(&drag(true, false, at(100_000, 100_000)), &mut data);
    assert!(data.balls[0].resting);
    move_tool(&release(MouseButton::Right, at(100_000, 100_000)), &mut data);
    assert!(data.balls[0].resting);
    move_tool(&release(MouseButton::Left, at(100_000, 100_000)), &mut data);
    assert!(!data.balls[0].resting);
    assert_eq!((data.balls[0].vx, data.balls[0].vy), (0, 0));
}

#[test]
fn move_and_delete_without_a_ball_under_the_pointer_change_nothing() {
    let mut data = world();
    data.params.move_tool = true;
    data.params.delete_tool = true;
    data.add_ball(ball(100_000, 100_000, 1_000, 2_000));
    let before = data.clone();
    move_tool(&drag(true, false, at(200_000, 100_000)), &mut data);
    move_tool(&release(MouseButton::Left, at(200_000, 100_000)), &mut data);
    delete_tool(&press(MouseButton::Right, at(200_000, 100_000)), &mut data);
    data.move_ball_to(at(0, 0), at(5, 5));
    data.delete_ball_at(at(0, 0));
    data.wake_ball_at(at(0, 0));
    assert_eq!(data, before);
    assert_eq!(data.find_ball_at(at(0, 0)), 1);
}

#[test]
fn delete_tool_removes_the_first_ball_under_the_pointer() {
    let mut data = world();
    data.params.delete_tool = true;
    data.add_ball(ball(300_000, 100_000, 0, 0));
    data.add_ball(ball(100_000, 100_000, 1_000, 2_000));
    data.add_ball(ball(110_000, 100_000, 3_000, 4_000));
    assert_eq!(data.find_ball_at(at(108_000, 100_000)), 1);
    delete_tool(&press(MouseButton::Left, at(108_000, 100_000)), &mut data);
    assert_eq!(data.balls.len(), 3);
    delete_tool(&press(MouseButton::Right, at(108_000, 100_000)), &mut data);
    assert_eq!(data.balls, vec![ball(300_000, 100_000, 0, 0), ball(110_000, 100_000, 3_000, 4_000)]);
}

#[test]
fn cancel_clears_the_preview() {
    let mut data = world();
    data.begin_spawn(at(1, 2), white());
    data.update_spawn_aim(at(5, 2));
    assert!(data.preview.arrow.is_some());
    data.cancel_spawn();
    assert_eq!(data.preview, BallPreview::new());
}

#[test]
fn commit_without_a_colour_changes_nothing() {
    let mut data = world();
    data.preview.mouse_down_pos = Some(at(1, 2));
    let before = data.clone();
    data.commit_spawn(at(5, 6));
    assert_eq!(data, before);
}

#[test]
fn menu_disarms_the_other_tool_of_the_button() {
    let mut p = Params::new();
    p.click(MenuItem::MoveTool);
    assert!(p.move_tool && !p.spawn_tool);
    p.click(MenuItem::SpawnTool);
    assert!(p.spawn_tool && !p.move_tool);
    p.click(MenuItem::SpawnTool);
    assert!(!p.spawn_tool && !p.move_tool);
    p.click(MenuItem::DeleteTool);
    assert!(p.delete_tool && !p.attraction_tool);
    p.click(MenuItem::AttractionTool);
    assert!(p.attraction_tool && !p.delete_tool);
    p.click(MenuItem::AttractionTool);
    assert!(!p.attraction_tool && !p.delete_tool);
}

#[test]
fn menu_flips_the_plain_switches() {
    let mut p = Params::new();
    p.click(MenuItem::ZeroGravity);
    p.click(MenuItem::Walls);
    p.click(MenuItem::Pause);
    assert!(p.zero_gravity && !p.walls && p.paused);
    assert!(p.spawn_tool && p.attraction_tool && !p.move_tool && !p.delete_tool);
    p.click(MenuItem::ZeroGravity);
    p.click(MenuItem::Walls);
    p.click(MenuItem::Pause);
    assert_eq!(p, Params::new());
}

#[test]
fn first_world_has_five_balls_and_three_obstacles() {
    let data = get_new_appdata(surface());
    let size = 15_000;
    assert_eq!(
        data.balls,
        vec![
            Ball::new(100_000, 100_000, 21_000, -10_000, size, white()),
            Ball::new(25_000, 15_000, -5_000, -3_000, size, Color::from_rgba32_u32(GREEN)),
            Ball::new(50_000, 50_000, 0, 15_000, size, Color::from_rgba32_u32(SILVER)),
            Ball::new(220_000, 110_000, 0, 5_000, size, Color::from_rgba32_u32(YELLOW)),
            Ball::new(400_000, 500_000, -10_000, 1_000, size, Color::from_rgba32_u32(OLIVE)),
        ]
    );
    let red = Color::from_rgba32_u32(RED);
    assert_eq!(data.obstacles.len(), 3);
    assert_eq!(data.obstacles[0].rectangle(), Some(Rect::new(200_000, 200_000, 300_000, 300_000)));
    assert_eq!(data.obstacles[1].rectangle(), Some(Rect::new(50_000, 600_000, 550_000, 610_000)));
    assert_eq!(data.obstacles[2].circle(), Some(Circle::new(at(54_500, 54_500), 6_363)));
    assert_eq!(data.obstacles[2].color, red);
    assert_eq!(data.size, surface());
    assert_eq!(data.gravity_tuple, (0, 200));
    assert_eq!(data.gravity_point, None);
    assert_eq!(data.border_wall, None);
    assert_eq!(data.params, Params::new());
    assert_eq!(data.preview, BallPreview::new());
}

#[test]
fn tick_puts_the_walls_up_and_steps() {
    let mut data = world();
    data.add_ball(ball(100_000, 100_000, 21_000, -10_000));
    data.tick(surface());
    assert!(data.border_wall.is_some());
    assert_eq!(data.obstacles.len(), 4);
    assert_eq!((data.balls[0].x, data.balls[0].y), (120_790, 90_300));
}

#[test]
fn tick_follows_the_size_of_the_surface() {
    let mut data = world();
    data.tick(Size::new(500_000, 400_000));
    assert_eq!(data.size, Size::new(500_000, 400_000));
    assert_eq!(data.border_wall.unwrap()[0].rectangle(), Some(Rect::new(0, 400_000, 500_000, 500_000)));
    assert_eq!(data.obstacles.len(), 4);
}

#[test]
fn tick_while_paused_moves_nothing_but_follows_the_switches() {
    let mut data = world();
    data.add_ball(ball(100_000, 100_000, 21_000, -10_000));
    data.params.paused = true;
    data.params.zero_gravity = true;
    data.params.walls = false;
    data.set_border_wall();
    data.tick(surface());
    assert_eq!(data.balls[0], ball(100_000, 100_000, 21_000, -10_000));
    assert_eq!(data.gravity_tuple, (0, 0));
    assert_eq!(data.border_wall, None);
    assert!(data.obstacles.is_empty());
}

#[test]
fn gravity_comes_back_with_the_switch() {
    let mut data = world();
    data.set_zero_gravity(true);
    assert_eq!(data.gravity_tuple, (0, 0));
    assert!(data.params.zero_gravity);
    data.set_zero_gravity(false);
    assert_eq!(data.gravity_tuple, (0, 200));
    let mut odd = AppData::new(surface(), (30, -40));
    odd.sync_gravity();
    assert_eq!(odd.gravity_tuple, (30, -40));
}

#[test]
fn walls_follow_their_switch() {
    let mut data = world();
    data.set_walls_enabled(true);
    assert_eq!(data.obstacles.len(), 4);
    data.set_walls_enabled(true);
    assert_eq!(data.obstacles.len(), 4);
    data.set_walls_enabled(false);
    assert!(data.obstacles.is_empty());
    assert_eq!(data.border_wall, None);
    assert!(!data.params.walls);
}

#[test]
fn pause_switch_is_set() {
    let mut data = world();
    data.set_paused(true);
    assert!(data.params.paused);
    data.set_paused(false);
    assert_eq!(data.params, Params::new());
}

#[test]
fn events_ask_for_paint_and_timer() {
    let mut data = world();
    let up = data.handle_event(&Event::WindowConnected, surface(), true);
    assert_eq!(up, Reaction { repaint: true, restart_timer: true, out_of_bounds: 0 });
    let tick = data.handle_event(&Event::Timer, surface(), true);
    assert_eq!(tick, Reaction { repaint: true, restart_timer: true, out_of_bounds: 0 });
    data.params.paused = true;
    let held = data.handle_event(&Event::Timer, surface(), true);
    assert_eq!(held, Reaction { repaint: false, restart_timer: true, out_of_bounds: 0 });
    let other = data.handle_event(&Event::Other, surface(), true);
    assert_eq!(other, Reaction { repaint: false, restart_timer: false, out_of_bounds: 0 });
    let click = data.handle_event(&press(MouseButton::Left, at(1, 1)), surface(), true);
    assert_eq!(click, Reaction { repaint: false, restart_timer: false, out_of_bounds: 0 });
}

#[test]
fn window_coming_up_changes_nothing() {
    let mut data = world();
    data.add_ball(ball(100_000, 100_000, 21_000, -10_000));
    let before = data.clone();
    data.handle_event(&Event::WindowConnected, Size::new(1, 1), true);
    data.handle_event(&Event::Other, Size::new(1, 1), false);
    assert_eq!(data, before);
}

#[test]
fn pointer_leaving_the_surface_ends_launch_and_attraction() {
    let mut data = world();
    data.handle_event(&press(MouseButton::Left, at(50_000, 50_000)), surface(), true);
    data.handle_event(&press(MouseButton::Right, at(60_000, 60_000)), surface(), true);
    assert!(data.preview.mouse_down_pos.is_some());
    assert_eq!(data.gravity_point, Some(at(60_000, 60_000)));
    data.handle_event(&drag(true, true, at(-1, 50_000)), surface(), false);
    assert_eq!(data.preview, BallPreview::new());
    assert_eq!(data.gravity_point, None);
    assert!(data.balls.is_empty());
}

#[test]
fn paused_world_ignores_the_tools() {
    let mut data = world();
    data.params.paused = true;
    let before = data.clone();
    data.handle_event(&press(MouseButton::Left, at(50_000, 50_000)), surface(), true);
    data.handle_event(&press(MouseButton::Right, at(50_000, 50_000)), surface(), true);
    data.handle_event(&drag(true, true, at(60_000, 50_000)), surface(), true);
    assert_eq!(data, before);
}

#[test]
fn one_event_reaches_every_armed_tool() {
    let mut data = world();
    data.params.delete_tool = true;
    data.add_ball(ball(50_000, 50_000, 0, 0));
    data.handle_event(&press(MouseButton::Right, at(50_000, 50_000)), surface(), true);
    assert_eq!(data.gravity_point, Some(at(50_000, 50_000)));
    assert!(data.balls.is_empty());
}

#[test]
fn frame_lists_background_obstacles_balls_and_preview() {
    let mut data = world();
    let red = Color::from_rgba32_u32(RED);
    let block = Obstacle::new(at(200_000, 200_000), at(300_000, 300_000), red);
    let disc = Obstacle::new(at(50_000, 50_000), at(59_000, 59_000), red);
    data.add_obstacle(block);
    data.set_border_wall();
    data.add_obstacle(disc);
    data.add_ball(ball(100_000, 100_000, 0, 0));
    data.begin_spawn(at(10_000, 10_000), Color::from_rgba32_u32(TEAL));
    data.update_spawn_aim(at(20_000, 10_000));
    let scene = data.paint(Size::new(900_000, 600_000));
    assert_eq!(
        scene,
        vec![
            DrawOp::FillRect(Rect::new(0, 0, 900_000, 600_000), Color::from_rgba32_u32(BLACK)),
            DrawOp::FillRect(Rect::new(200_000, 200_000, 300_000, 300_000), red),
            DrawOp::FillCircle(Circle::new(at(54_500, 54_500), 6_363), red),
            DrawOp::FillCircle(Circle::new(at(100_000, 100_000), 15_000), white()),
            DrawOp::FillCircle(Circle::new(at(10_000, 10_000), 15_000), Color::from_rgba32_u32(TEAL)),
            DrawOp::StrokeLine(Line::new(at(10_000, 10_000), at(-50_000, 10_000)), white(), 2_000),
        ]
    );
}

#[test]
fn frame_of_an_empty_world_is_the_background() {
    let data = world();
    assert_eq!(
        data.paint(surface()),
        vec![DrawOp::FillRect(Rect::new(0, 0, 1_100_000, 700_000), Color::from_rgba32_u32(BLACK))]
    );
}

#[test]
fn bodies_and_preview_paint_themselves() {
    let mut scene = Vec::new();
    ball(1, 2, 3, 4).paint(&mut scene);
    Obstacle::new(at(0, 0), at(100_000, 50_000), white()).paint(&mut scene);
    let mut preview = BallPreview::new();
    preview.paint(&mut scene, 15_000);
    preview.mouse_down_pos = Some(at(5, 6));
    preview.paint(&mut scene, 15_000);
    preview.color = Some(white());
    preview.paint(&mut scene, 15_000);
    assert_eq!(
        scene,
        vec![
            DrawOp::FillCircle(Circle::new(at(1, 2), 15_000), white()),
            DrawOp::FillRect(Rect::new(0, 0, 100_000, 50_000), white()),
            DrawOp::FillCircle(Circle::new(at(5, 6), 15_000), white()),
        ]
    );
}

#[test]
fn sixty_ticks_a_second_are_sixteen_milliseconds_apart() {
    assert_eq!(frame_millis(60), 16);
    assert_eq!(frame_millis(1), 1000);
    assert_eq!(frame_millis(1001), 0);
}

#[test]
fn tick_reports_the_balls_that_the_edge_has_stopped() {
    let mut data = AppData::new(surface(), (0, 0));
    data.add_ball(ball(1_099_000, 350_000, 2_000, 0));
    data.set_paused(true);
    let held = data.handle_event(&Event::Timer, surface(), true);
    assert_eq!(held.out_of_bounds, 0);
    data.set_paused(false);
    data.params.walls = false;
    data.remove_wall();
    data.params.walls = true;
    let tick = data.handle_event(&Event::Timer, surface(), true);
    assert_eq!(tick, Reaction { repaint: true, restart_timer: true, out_of_bounds: 1 });
    assert!(data.balls[0].resting);
    let next = data.handle_event(&Event::Timer, surface(), true);
    assert_eq!(next.out_of_bounds, 0);
}

#[test]
fn aim_line_is_sixty_units_long_however_short_the_drag() {
    assert_eq!(
        aim(at(50_000, 50_000), at(49_999, 49_999)),
        Some(Line::new(at(50_000, 50_000), at(92_426, 92_426)))
    );
    assert_eq!(
        aim(at(0, 0), at(-3, 4)),
        Some(Line::new(at(0, 0), at(36_000, -48_000)))
    );
}
