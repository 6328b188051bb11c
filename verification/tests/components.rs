use pong::pong::initial_ball_transform;
use pong::pong::initial_ball_velocity;
use pong::pong::initial_paddle_transform;
use pong::pong::BallComponent;
use pong::pong::Paddle;
use pong::pong::Side;
use pong::pong::BALL_MAX_VELOCITY;
use pong::pong::BALL_RADIUS;
use pong::pong::PADDLE_HEIGHT;
use pong::pong::PADDLE_WIDTH;
use pong::vec2::isqrt;
use pong::vec2::mul_div_trunc;
use pong::vec2::normalize_to;
use pong::vec2::Vec2;

#[test]
fn paddle_new_fixes_extents_and_side() {
    let left = Paddle::new(&Side::Left);
    assert!(matches!(left.side, Side::Left));
    assert_eq!(left.width, PADDLE_WIDTH);
    assert_eq!(left.height, PADDLE_HEIGHT);
    let right = Paddle::new(&Side::Right);
    assert!(matches!(right.side, Side::Right));
}

#[test]
fn ball_component_accessors() {
    let mut ball = BallComponent::new();
    assert_eq!(ball.get_radius(), BALL_RADIUS);
    assert_eq!(ball.get_velocity().x, 0);
    assert_eq!(ball.get_velocity().y, 0);
    ball.set_velocity(Vec2::new(7, -9));
    assert_eq!(ball.get_velocity().x, 7);
    assert_eq!(ball.get_velocity().y, -9);
    assert_eq!(ball.get_radius(), BALL_RADIUS);
}

#[test]
fn initial_scene_values() {
    let ball_at = initial_ball_transform();
    assert_eq!((ball_at.x, ball_at.y), (50_000, 50_000));
    let left = initial_paddle_transform(&Side::Left);
    assert_eq!((left.x, left.y), (4_000, 50_000));
    let right = initial_paddle_transform(&Side::Right);
    assert_eq!((right.x, right.y), (96_000, 50_000));
}

#[test]
fn initial_ball_velocity_is_scaled_diagonal() {
    // Direction (0.5, -1) scaled to the maximum speed.
    let v = initial_ball_velocity();
    assert_eq!((v.x, v.y), (89_442, -178_885));
    let sq = v.x * v.x + v.y * v.y;
    let max_sq = BALL_MAX_VELOCITY * BALL_MAX_VELOCITY;
    assert!(max_sq - 4 * BALL_MAX_VELOCITY <= sq);
    assert!(sq <= max_sq + 2 * BALL_MAX_VELOCITY);
}

#[test]
fn isqrt_rounds_down() {
    assert_eq!(isqrt(0), 0);
    assert_eq!(isqrt(1), 1);
    assert_eq!(isqrt(15), 3);
    assert_eq!(isqrt(16), 4);
    assert_eq!(isqrt(999_999), 999);
    assert_eq!(isqrt(u64::MAX), 4_294_967_295);
}

#[test]
fn normalize_to_keeps_axis_directions_exact() {
    let v = normalize_to(Vec2::new(10_000, 0), 200_000);
    assert_eq!((v.x, v.y), (200_000, 0));
    let v = normalize_to(Vec2::new(0, -7), 200_000);
    assert_eq!((v.x, v.y), (0, -200_000));
    let v = normalize_to(Vec2::new(-3, -4), 1_000);
    assert_eq!((v.x, v.y), (-600, -800));
}

#[test]
fn mul_div_trunc_rounds_toward_zero() {
    assert_eq!(mul_div_trunc(7, 100, 1_000), 0);
    assert_eq!(mul_div_trunc(-7, 100, 1_000), 0);
    assert_eq!(mul_div_trunc(19, 100, 1_000), 1);
    assert_eq!(mul_div_trunc(-19, 100, 1_000), -1);
    assert_eq!(mul_div_trunc(-10_000, 1_000, 1_000), -10_000);
}
