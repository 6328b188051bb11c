//! Per-tick paddle control: each side's input axis value moves its
//! paddle vertically, clamped to the arena travel range.

use crate::ball_system::DT_LIMIT;
use crate::ball_system::POS_LIMIT;
use crate::pong::Paddle;
use crate::pong::Side;
use crate::pong::ARENA_HEIGHT;
use crate::pong::FX_ONE;
use crate::pong::PADDLE_HEIGHT;
use crate::pong::PADDLE_VELOCITY;
use crate::vec2::abs_i;
use crate::vec2::div_trunc;
use crate::vec2::mul_div_trunc;
use crate::vec2::Vec2;
use vstd::prelude::*;

verus! {

/// Bound on an input axis magnitude: a thousand times the
/// conventional full deflection of one unit.
pub const AXIS_LIMIT: i64 = 1_000_000;

/// Lowest vertical centre a paddle can reach: half its height.
pub open spec fn paddle_y_min() -> int {
    (PADDLE_HEIGHT as int) / 2
}

/// Highest vertical centre a paddle can reach.
pub open spec fn paddle_y_max() -> int {
    ARENA_HEIGHT - (PADDLE_HEIGHT as int) / 2
}

/// The vertical centre after one paddle tick: displaced by the travel
/// speed times the axis value times the frame delta, then clamped to
/// the arena travel range.
pub open spec fn paddle_y_spec(y: int, axis: int, dt: int) -> int {
    let moved = y + div_trunc(PADDLE_VELOCITY * axis * dt, FX_ONE * FX_ONE);
    if moved < paddle_y_min() {
        paddle_y_min()
    } else if moved > paddle_y_max() {
        paddle_y_max()
    } else {
        moved
    }
}

/// The axis value that drives a paddle, by its side; `None` when no
/// axis is bound for that side.
pub open spec fn axis_for(side: Side, left_axis: Option<i64>, right_axis: Option<i64>) -> Option<
    i64,
> {
    match side {
        Side::Left => left_axis,
        Side::Right => right_axis,
    }
}

/// Paddle clamp: whatever the previous centre, the axis value and the
/// frame delta, the centre after a moved tick lies in the arena travel
/// range.
pub proof fn lemma_paddle_clamp(y: int, axis: int, dt: int)
    ensures
        paddle_y_min() <= paddle_y_spec(y, axis, dt) <= paddle_y_max(),
{
}

/// The per-tick paddle control pass.
pub struct PaddleSystem;

impl PaddleSystem {
    /// Moves every paddle by its side's axis value, pairing transforms
    /// and paddles by index as the host's entity iteration does. A
    /// side with no bound axis leaves its paddle untouched; every
    /// moved paddle ends inside the arena travel range.
    pub fn run(
        &mut self,
        delta_time: i64,
        transforms: &mut Vec<Vec2>,
        paddles: &Vec<Paddle>,
        left_axis: Option<i64>,
        right_axis: Option<i64>,
    )
        requires
            old(transforms)@.len() == paddles@.len(),
            0 <= delta_time <= DT_LIMIT,
            left_axis matches Some(a) ==> -AXIS_LIMIT <= a <= AXIS_LIMIT,
            right_axis matches Some(a) ==> -AXIS_LIMIT <= a <= AXIS_LIMIT,
            forall|j: int|
                0 <= j < old(transforms)@.len() ==> -POS_LIMIT <= (#[trigger] old(
                    transforms,
                )@[j]).y <= POS_LIMIT,
        ensures
            final(transforms)@.len() == old(transforms)@.len(),
            forall|j: int|
                0 <= j < paddles@.len() ==> match axis_for(
                    (#[trigger] paddles@[j]).side,
                    left_axis,
                    right_axis,
                ) {
                    Some(a) => final(transforms)@[j].y == paddle_y_spec(
                        old(transforms)@[j].y as int,
                        a as int,
                        delta_time as int,
                    ) && final(transforms)@[j].x == old(transforms)@[j].x,
                    None => final(transforms)@[j] == old(transforms)@[j],
                },
            forall|j: int|
                0 <= j < paddles@.len() && axis_for(
                    (#[trigger] paddles@[j]).side,
                    left_axis,
                    right_axis,
                ) is Some ==> paddle_y_min() <= final(transforms)@[j].y <= paddle_y_max(),
    {
        let n = paddles.len();
        let mut idx: usize = 0;
        while idx < n
            invariant
                idx <= n,
                n == paddles@.len(),
                transforms@.len() == n,
                old(transforms)@.len() == n,
                0 <= delta_time <= DT_LIMIT,
                left_axis matches Some(a) ==> -AXIS_LIMIT <= a <= AXIS_LIMIT,
                right_axis matches Some(a) ==> -AXIS_LIMIT <= a <= AXIS_LIMIT,
                forall|j: int|
                    0 <= j < n ==> -POS_LIMIT <= (#[trigger] old(transforms)@[j]).y <= POS_LIMIT,
                forall|j: int|
                    idx <= j < n ==> #[trigger] transforms@[j] == old(transforms)@[j],
                forall|j: int|
                    0 <= j < idx ==> match axis_for(
                        (#[trigger] paddles@[j]).side,
                        left_axis,
                        right_axis,
                    ) {
                        Some(a) => transforms@[j].y == paddle_y_spec(
                            old(transforms)@[j].y as int,
                            a as int,
                            delta_time as int,
                        ) && transforms@[j].x == old(transforms)@[j].x,
                        None => transforms@[j] == old(transforms)@[j],
                    },
                forall|j: int|
                    0 <= j < idx && axis_for(
                        (#[trigger] paddles@[j]).side,
                        left_axis,
                        right_axis,
                    ) is Some ==> paddle_y_min() <= transforms@[j].y <= paddle_y_max(),
            decreases n - idx,
        {
            let ghost trans_pre = transforms@;
            // Read input force
            let input_magnitude: Option<i64> = match paddles[idx].side {
                Side::Left => left_axis,
                Side::Right => right_axis,
            };
            if let Some(a) = input_magnitude {
                assert(-0x4000_0000_0000_0000 <= PADDLE_VELOCITY * a <= 0x4000_0000_0000_0000
                    && abs_i(PADDLE_VELOCITY * a) <= PADDLE_VELOCITY * AXIS_LIMIT)
                    by (nonlinear_arith)
                    requires
                        -AXIS_LIMIT <= a <= AXIS_LIMIT,
                        AXIS_LIMIT == 1_000_000i64,
                        PADDLE_VELOCITY == 50_000i64,
                ;
                let pa: i64 = PADDLE_VELOCITY * a;
                assert(-0x4000_0000_0000_0000 <= pa * delta_time <= 0x4000_0000_0000_0000
                    && abs_i(pa * delta_time) <= 0x4000_0000_0000_0000) by (nonlinear_arith)
                    requires
                        abs_i(pa as int) <= 50_000_000_000i64,
                        0 <= delta_time <= DT_LIMIT,
                        DT_LIMIT == 1_000_000i64,
                ;
                let movement: i64 = mul_div_trunc(pa, delta_time, FX_ONE * FX_ONE);
                let y0: i64 = transforms[idx].y;
                let moved: i64 = y0 + movement;
                let lo: i64 = 16_000;
                let hi: i64 = 84_000;
                assert(lo as int == paddle_y_min() && hi as int == paddle_y_max());
                let clamped: i64 = if moved < lo {
                    lo
                } else if moved > hi {
                    hi
                } else {
                    moved
                };
                let tr = &mut transforms[idx];
                tr.y = clamped;
            }
            proof {
                assert forall|j: int| idx + 1 <= j < n implies #[trigger] transforms@[j] == old(
                    transforms,
                )@[j] by {
                    assert(trans_pre[j] == old(transforms)@[j]);
                    assert(transforms@[j] == trans_pre[j]);
                }
                assert forall|j: int| 0 <= j < idx implies #[trigger] transforms@[j]
                    == trans_pre[j] by {
                }
            }
            idx = idx + 1;
        }
    }
}

} // verus!
