//! Arena constants and the two entity components: the scene owns one
//! ball and two paddles moving inside a fixed rectangle.

use crate::vec2::norm_x;
use crate::vec2::norm_y;
use crate::vec2::Vec2;
use vstd::prelude::*;

verus! {

/// One world unit in fixed-point counts; all other constants and all
/// coordinates are multiples of a thousandth of a unit.
pub const FX_ONE: i64 = 1000;

pub const ARENA_WIDTH: i64 = 100_000;

pub const ARENA_HEIGHT: i64 = 100_000;

pub const PADDLE_WIDTH: i64 = 4_000;

pub const PADDLE_HEIGHT: i64 = 32_000;

/// Paddle travel speed, units per second.
pub const PADDLE_VELOCITY: i64 = 50_000;

/// The ball's fixed speed after every bounce, units per second.
pub const BALL_MAX_VELOCITY: i64 = 200_000;

pub const BALL_RADIUS: i64 = 2_000;

/// Which horizontal edge a paddle guards; fixed at creation.
#[derive(Clone, Copy, PartialEq, Eq, Structural)]
pub enum Side {
    Left,
    Right,
}

/// A paddle: fixed extents, fixed side; only its vertical centre moves.
pub struct Paddle {
    pub side: Side,
    pub width: i64,
    pub height: i64,
}

impl Paddle {
    pub fn new(side: &Side) -> (r: Paddle)
        ensures
            r.side == *side,
            r.width == PADDLE_WIDTH,
            r.height == PADDLE_HEIGHT,
    {
        Paddle {
            side: match side {
                Side::Left => Side::Left,
                Side::Right => Side::Right,
            },
            width: PADDLE_WIDTH,
            height: PADDLE_HEIGHT,
        }
    }
}

/// The ball: a velocity and a fixed collision radius; its position
/// lives in the transform that the physics pass mutates beside it.
pub struct BallComponent {
    pub velocity: Vec2,
    pub radius: i64,
}

impl BallComponent {
    pub fn new() -> (r: BallComponent)
        ensures
            r.velocity.x == 0,
            r.velocity.y == 0,
            r.radius == BALL_RADIUS,
    {
        BallComponent { velocity: Vec2 { x: 0, y: 0 }, radius: BALL_RADIUS }
    }

    pub fn get_velocity(&self) -> (r: &Vec2)
        ensures
            *r == self.velocity,
    {
        &self.velocity
    }

    pub fn set_velocity(&mut self, velocity: Vec2)
        ensures
            final(self).velocity == velocity,
            final(self).radius == old(self).radius,
    {
        self.velocity = velocity;
    }

    pub fn get_radius(&self) -> (r: i64)
        ensures
            r == self.radius,
    {
        self.radius
    }
}

/// Centre of the arena, where the ball starts.
pub fn initial_ball_transform() -> (r: Vec2)
    ensures
        r.x == ARENA_WIDTH / 2,
        r.y == ARENA_HEIGHT / 2,
{
    Vec2 { x: 50_000, y: 50_000 }
}

/// The ball's starting velocity: the diagonal direction (0.5, -1)
/// scaled to the fixed maximum speed.
pub fn initial_ball_velocity() -> (r: Vec2)
    ensures
        r.x == norm_x((Vec2 { x: 500, y: -1000i64 }), BALL_MAX_VELOCITY as int),
        r.y == norm_y((Vec2 { x: 500, y: -1000i64 }), BALL_MAX_VELOCITY as int),
{
    crate::vec2::normalize_to(Vec2 { x: 500, y: -1000 }, BALL_MAX_VELOCITY)
}

/// A paddle's starting transform: one paddle width in from its edge,
/// vertically centred.
pub fn initial_paddle_transform(side: &Side) -> (r: Vec2)
    ensures
        *side == Side::Left ==> r.x == PADDLE_WIDTH,
        *side == Side::Right ==> r.x == ARENA_WIDTH - PADDLE_WIDTH,
        r.y == ARENA_HEIGHT / 2,
{
    let x: i64 = match side {
        Side::Left => PADDLE_WIDTH,
        Side::Right => ARENA_WIDTH - PADDLE_WIDTH,
    };
    Vec2 { x, y: 50_000 }
}

} // verus!
