use pong::ball_system::detect_quad_collision;
use pong::ball_system::perform_bouncing;
use pong::ball_system::perform_depenetration;
use pong::ball_system::perform_sphere_depenetration;
use pong::ball_system::perform_velocity_motion;
use pong::ball_system::update_ball_position;
use pong::ball_system::BallSystem;
use pong::pong::BallComponent;
use pong::pong::BALL_MAX_VELOCITY;
use pong::vec2::Vec2;

fn ball_with_velocity(x: i64, y: i64) -> BallComponent {
    let mut ball = BallComponent::new();
    ball.set_velocity(Vec2::new(x, y));
    ball
}

fn speed_sq(v: &Vec2) -> i64 {
    v.x * v.x + v.y * v.y
}

const MAX_SQ: i64 = BALL_MAX_VELOCITY * BALL_MAX_VELOCITY;

#[test]
fn resting_ball_center_stays_put() {
    // Ball at (50, 50) with zero velocity over a one-second tick:
    // position unchanged, no bounce.
    let mut ball = ball_with_velocity(0, 0);
    let mut transform = Vec2::new(50_000, 50_000);
    update_ball_position(1_000, &mut ball, &mut transform);
    assert_eq!(transform.x, 50_000);
    assert_eq!(transform.y, 50_000);
    assert_eq!(ball.get_velocity().x, 0);
    assert_eq!(ball.get_velocity().y, 0);
}

#[test]
fn left_wall_bounce_flips_x_and_fixes_speed() {
    // Ball at (1, 50) moving left at 10 units per second: after one
    // second it penetrates the left wall at x = -9, bounces outward,
    // and its speed becomes exactly the maximum.
    let mut ball = ball_with_velocity(-10_000, 0);
    let mut transform = Vec2::new(1_000, 50_000);
    update_ball_position(1_000, &mut ball, &mut transform);
    assert_eq!(transform.x, -5_218);
    assert_eq!(transform.y, 50_000);
    assert_eq!(ball.get_velocity().x, 200_000);
    assert_eq!(ball.get_velocity().y, 0);
    assert_eq!(speed_sq(ball.get_velocity()), MAX_SQ);
}

#[test]
fn interior_translation_keeps_velocity() {
    // Strictly inside the shrunk arena the tick is pure translation.
    let mut ball = ball_with_velocity(5_000, -3_000);
    let mut transform = Vec2::new(30_000, 40_000);
    update_ball_position(1_000, &mut ball, &mut transform);
    assert_eq!(transform.x, 35_000);
    assert_eq!(transform.y, 37_000);
    assert_eq!(ball.get_velocity().x, 5_000);
    assert_eq!(ball.get_velocity().y, -3_000);
}

#[test]
fn diagonal_bounce_speed_lands_in_band() {
    // A diagonal hit near the lower-left corner: after the bounce the
    // squared speed sits within the rounding band around the maximum.
    let mut ball = ball_with_velocity(-10_000, -10_000);
    let mut transform = Vec2::new(1_000, 1_000);
    update_ball_position(1_000, &mut ball, &mut transform);
    assert_eq!(ball.get_velocity().x, 141_421);
    assert_eq!(ball.get_velocity().y, -141_421);
    let sq = speed_sq(ball.get_velocity());
    assert!(MAX_SQ - 4 * BALL_MAX_VELOCITY <= sq);
    assert!(sq <= MAX_SQ + 2 * BALL_MAX_VELOCITY);
}

#[test]
fn deep_penetration_converges_over_ticks() {
    // A motionless ball far beyond the left wall creeps back toward
    // the wall surface every tick and never overshoots it.
    let mut ball = ball_with_velocity(0, 0);
    let mut transform = Vec2::new(-50_000, 50_000);
    update_ball_position(1_000, &mut ball, &mut transform);
    assert_eq!(transform.x, -32_118);
    update_ball_position(1_000, &mut ball, &mut transform);
    assert_eq!(transform.x, -20_387);
    let mut previous = transform.x;
    for _ in 0..50 {
        // Progress is strict while at least a hundredth of a unit of
        // penetration remains; below that the fixed-point nudge
        // rounds to zero and the position merely holds.
        let deep = 2_000 - previous >= 10;
        update_ball_position(1_000, &mut ball, &mut transform);
        if deep {
            assert!(transform.x > previous);
        } else {
            assert!(transform.x >= previous);
        }
        assert!(transform.x < 2_000);
        assert_eq!(transform.y, 50_000);
        assert_eq!(ball.get_velocity().x, 0);
        assert_eq!(ball.get_velocity().y, 0);
        previous = transform.x;
    }
}

#[test]
fn detect_reports_each_edge() {
    let margins = Vec2::new(100_000, 100_000);
    let left = detect_quad_collision(margins, &Vec2::new(1_000, 50_000), 2_000);
    let (depth, normal) = left.expect("left edge should collide");
    assert_eq!(depth, 1_000);
    assert_eq!((normal.x, normal.y), (1, 0));
    let right = detect_quad_collision(margins, &Vec2::new(99_500, 50_000), 2_000);
    let (depth, normal) = right.expect("right edge should collide");
    assert_eq!(depth, 1_500);
    assert_eq!((normal.x, normal.y), (-1, 0));
    let bottom = detect_quad_collision(margins, &Vec2::new(50_000, 500), 2_000);
    let (depth, normal) = bottom.expect("bottom edge should collide");
    assert_eq!(depth, 1_500);
    assert_eq!((normal.x, normal.y), (0, 1));
    let top = detect_quad_collision(margins, &Vec2::new(50_000, 99_000), 2_000);
    let (depth, normal) = top.expect("top edge should collide");
    assert_eq!(depth, 1_000);
    assert_eq!((normal.x, normal.y), (0, -1));
    let inside = detect_quad_collision(margins, &Vec2::new(50_000, 50_000), 2_000);
    assert!(inside.is_none());
}

#[test]
fn depenetration_nudges_a_tenth() {
    let mut pos = Vec2::new(-9_000, 50_000);
    perform_depenetration(Some((11_000, Vec2::new(1, 0))), &mut pos, 100);
    assert_eq!(pos.x, -7_900);
    assert_eq!(pos.y, 50_000);
    let mut pos = Vec2::new(10_000, 10_000);
    perform_depenetration(None, &mut pos, 100);
    assert_eq!((pos.x, pos.y), (10_000, 10_000));
}

#[test]
fn sphere_depenetration_accumulates_normals() {
    let ball = BallComponent::new();
    let mut transform = Vec2::new(-9_000, 50_000);
    let normal = perform_sphere_depenetration(&ball, &mut transform);
    let normal = normal.expect("four passes should all collide");
    assert_eq!((normal.x, normal.y), (4, 0));
    assert_eq!(transform.x, -5_218);
    let mut transform = Vec2::new(50_000, 50_000);
    let none = perform_sphere_depenetration(&ball, &mut transform);
    assert!(none.is_none());
}

#[test]
fn velocity_motion_is_scaled_euler() {
    let ball = ball_with_velocity(-10_000, 2_500);
    let mut transform = Vec2::new(1_000, 50_000);
    perform_velocity_motion(1_000, &ball, &mut transform);
    assert_eq!(transform.x, -9_000);
    assert_eq!(transform.y, 52_500);
    // A tenth of a second moves a tenth as far, rounded toward zero.
    let mut transform = Vec2::new(0, 0);
    perform_velocity_motion(100, &ball, &mut transform);
    assert_eq!(transform.x, -1_000);
    assert_eq!(transform.y, 250);
}

#[test]
fn bounce_without_normal_changes_nothing() {
    let mut ball = ball_with_velocity(-10_000, 0);
    perform_bouncing(None, &mut ball);
    assert_eq!(ball.get_velocity().x, -10_000);
    assert_eq!(ball.get_velocity().y, 0);
    // A zero accumulated normal is degenerate and skipped.
    perform_bouncing(Some(Vec2::new(0, 0)), &mut ball);
    assert_eq!(ball.get_velocity().x, -10_000);
    // A zero velocity reflects to zero and is skipped as well.
    let mut still = ball_with_velocity(0, 0);
    perform_bouncing(Some(Vec2::new(4, 0)), &mut still);
    assert_eq!(still.get_velocity().x, 0);
    assert_eq!(still.get_velocity().y, 0);
}

#[test]
fn system_run_updates_every_pair() {
    let mut system = BallSystem;
    let mut balls = vec![ball_with_velocity(0, 0), ball_with_velocity(-10_000, 0)];
    let mut transforms = vec![Vec2::new(50_000, 50_000), Vec2::new(1_000, 50_000)];
    system.run(1_000, &mut balls, &mut transforms);
    assert_eq!((transforms[0].x, transforms[0].y), (50_000, 50_000));
    assert_eq!((transforms[1].x, transforms[1].y), (-5_218, 50_000));
    assert_eq!(balls[0].get_velocity().x, 0);
    assert_eq!(balls[1].get_velocity().x, 200_000);
}
