use pong::ball_system::update_ball_position;
use pong::pong::initial_ball_transform;
use pong::pong::initial_ball_velocity;
use pong::pong::BallComponent;
use pong::pong::BALL_MAX_VELOCITY;
use pong::vec2::Vec2;

const MAX_SQ: i64 = BALL_MAX_VELOCITY * BALL_MAX_VELOCITY;
const BAND_LO: i64 = MAX_SQ - 4 * BALL_MAX_VELOCITY;
const BAND_HI: i64 = MAX_SQ + 2 * BALL_MAX_VELOCITY;

#[test]
fn bounce_speed_band_holds_across_angles() {
    // Whatever the incoming velocity, a ball penetrating the left
    // wall bounces to a speed inside the rounding band around the
    // maximum.
    let mut vx: i64 = -200_000;
    while vx <= 200_000 {
        let mut vy: i64 = -200_000;
        while vy <= 200_000 {
            if vx != 0 || vy != 0 {
                let mut ball = BallComponent::new();
                ball.set_velocity(Vec2::new(vx, vy));
                let mut transform = Vec2::new(-5_000, 50_000);
                update_ball_position(16, &mut ball, &mut transform);
                let v = ball.get_velocity();
                let sq = v.x * v.x + v.y * v.y;
                assert!(BAND_LO <= sq && sq <= BAND_HI, "speed off at ({vx},{vy}): {sq}");
            }
            vy += 17_777;
        }
        vx += 23_171;
    }
}

#[test]
fn long_run_stays_inside_arena_at_full_speed() {
    // Twenty thousand frames at 60 ticks a second from the documented
    // starting state: the ball never leaves the arena and its speed
    // stays in the band around the maximum the whole time.
    let mut ball = BallComponent::new();
    ball.set_velocity(initial_ball_velocity());
    let mut transform = initial_ball_transform();
    let mut bounces: u32 = 0;
    let mut previous = *ball.get_velocity();
    for _ in 0..20_000 {
        update_ball_position(16, &mut ball, &mut transform);
        assert!(0 <= transform.x && transform.x <= 100_000);
        assert!(0 <= transform.y && transform.y <= 100_000);
        let v = ball.get_velocity();
        let sq = v.x * v.x + v.y * v.y;
        assert!(BAND_LO <= sq && sq <= BAND_HI);
        if v.x != previous.x || v.y != previous.y {
            bounces += 1;
        }
        previous = *v;
    }
    assert!(bounces > 100);
}
