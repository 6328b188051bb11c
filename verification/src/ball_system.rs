//! Per-tick ball physics: Euler integration, a fixed number of
//! depenetration passes against the four arena edges, and the bounce
//! response that rescales the velocity to the fixed maximum speed.

use crate::pong::BallComponent;
use crate::pong::ARENA_HEIGHT;
use crate::pong::ARENA_WIDTH;
use crate::pong::BALL_MAX_VELOCITY;
use crate::pong::FX_ONE;
use crate::vec2::abs_i;
use crate::vec2::div_trunc;
use crate::vec2::max_i;
use crate::vec2::min_i;
use crate::vec2::mul_div_trunc;
use crate::vec2::norm_x;
use crate::vec2::norm_y;
use crate::vec2::normalize_to;
use crate::vec2::Vec2;
use crate::vec2::NORM_INPUT_LIMIT;
use vstd::arithmetic::div_mod::lemma_div_is_ordered;
use vstd::arithmetic::div_mod::lemma_remainder;
use vstd::arithmetic::div_mod::lemma_div_multiples_vanish;
use vstd::arithmetic::div_mod::lemma_div_pos_is_pos;
use vstd::prelude::*;

verus! {

/// Fraction of the penetration depth corrected per pass, as a
/// fixed-point multiplier: one tenth.
pub const DEPENETRATION_FACTOR: i64 = 100;

/// Number of depenetration passes per tick.
pub const DEPENETRATION_CYCLES: i64 = 4;

/// Bound on the coordinates the physics accepts, far outside any
/// reachable state but small enough that every product stays exact.
pub const POS_LIMIT: i64 = 1_000_000_000_000;

/// Bound on the velocity components the physics accepts.
pub const VEL_LIMIT: i64 = 0x80_0000;

/// Bound on the frame delta time: a thousand seconds.
pub const DT_LIMIT: i64 = 1_000_000;

/// Bound on the ball radius: a thousand units.
pub const RADIUS_LIMIT: i64 = 1_000_000;

/// The first arena edge the ball's circle penetrates, tested in the
/// fixed order left, right, bottom, top: absolute penetration depth
/// and outward edge normal, or `None` when the circle is inside.
pub open spec fn detect_spec(w: int, h: int, px: int, py: int, r: int) -> Option<(int, (int, int))> {
    if px - r < 0 {
        Some((r - px, (1int, 0int)))
    } else if (w - r) - px < 0 {
        Some((px - (w - r), (-1int, 0int)))
    } else if py - r < 0 {
        Some((r - py, (0int, 1int)))
    } else if (h - r) - py < 0 {
        Some((py - (h - r), (0int, -1int)))
    } else {
        None
    }
}

/// How far one pass nudges the ball out: a tenth of the penetration
/// depth, rounded down.
pub open spec fn depen_nudge(d: int) -> int {
    d * DEPENETRATION_FACTOR / (FX_ONE as int)
}

/// State after `n` depenetration passes from position `(px, py)`:
/// the corrected position, the accumulated collision normal, and how
/// many passes found a penetrating edge.
pub open spec fn depen_iter(w: int, h: int, r: int, px: int, py: int, n: nat) -> (
    (int, int),
    (int, int),
    int,
)
    decreases n,
{
    if n == 0 {
        ((px, py), (0int, 0int), 0int)
    } else {
        let prev = depen_iter(w, h, r, px, py, (n - 1) as nat);
        let pp = prev.0;
        let ns = prev.1;
        let cnt = prev.2;
        match detect_spec(w, h, pp.0, pp.1, r) {
            Some(hit) => (
                (pp.0 + hit.1.0 * depen_nudge(hit.0), pp.1 + hit.1.1 * depen_nudge(hit.0)),
                (ns.0 + hit.1.0, ns.1 + hit.1.1),
                cnt + 1,
            ),
            None => (pp, ns, cnt),
        }
    }
}

/// A nudge never overshoots: it moves the ball toward the edge by a
/// nonnegative amount of at most the penetration depth.
pub proof fn lemma_nudge_range(d: int)
    requires
        0 <= d,
    ensures
        0 <= depen_nudge(d) <= d,
{
    lemma_div_pos_is_pos(d * DEPENETRATION_FACTOR, FX_ONE as int);
    lemma_div_is_ordered(d * DEPENETRATION_FACTOR, d * FX_ONE, FX_ONE as int);
    lemma_div_multiples_vanish(d, FX_ONE as int);
    assert(d * DEPENETRATION_FACTOR <= d * FX_ONE) by (nonlinear_arith)
        requires
            0 <= d,
    ;
    assert(FX_ONE as int * d == d * FX_ONE) by (nonlinear_arith);
}

/// Multiplying by a normal component, which is always -1, 0 or 1,
/// only keeps, drops or flips the sign of the other factor.
pub proof fn lemma_unit_mul(s: int, d: int)
    by (nonlinear_arith)
    requires
        -1 <= s <= 1,
    ensures
        s == 1 ==> s * d == d,
        s == 0 ==> s * d == 0,
        s == -1 ==> s * d == -d,
{
}

/// Tests the circle at `sphere_pos` against the four edges of the
/// rectangle `[0, margins.x] x [0, margins.y]` and reports the first
/// penetrating edge, with its depth and outward normal.
pub fn detect_quad_collision(margins: Vec2, sphere_pos: &Vec2, sphere_radius: i64) -> (res: Option<
    (i64, Vec2),
>)
    requires
        -POS_LIMIT - POS_LIMIT <= sphere_pos.x <= POS_LIMIT + POS_LIMIT,
        -POS_LIMIT - POS_LIMIT <= sphere_pos.y <= POS_LIMIT + POS_LIMIT,
        0 <= sphere_radius <= RADIUS_LIMIT,
        0 <= margins.x <= POS_LIMIT,
        0 <= margins.y <= POS_LIMIT,
    ensures
        ({
            let spec = detect_spec(
                margins.x as int,
                margins.y as int,
                sphere_pos.x as int,
                sphere_pos.y as int,
                sphere_radius as int,
            );
            match res {
                Some(hit) => spec matches Some(s) && s.0 == hit.0 && s.1.0 == hit.1.x && s.1.1
                    == hit.1.y,
                None => spec is None,
            }
        }),
{
    // Check Left
    let penetration: i64 = sphere_pos.x - sphere_radius;
    if penetration < 0 {
        return Some((-penetration, Vec2 { x: 1, y: 0 }));
    }
    // Check Right
    let penetration: i64 = (margins.x - sphere_radius) - sphere_pos.x;
    if penetration < 0 {
        return Some((-penetration, Vec2 { x: -1, y: 0 }));
    }
    // Check Bottom
    let penetration: i64 = sphere_pos.y - sphere_radius;
    if penetration < 0 {
        return Some((-penetration, Vec2 { x: 0, y: 1 }));
    }
    // Check Top
    let penetration: i64 = (margins.y - sphere_radius) - sphere_pos.y;
    if penetration < 0 {
        return Some((-penetration, Vec2 { x: 0, y: -1 }));
    }
    None
}

/// Applies one depenetration correction: moves the position along the
/// reported normal by a tenth of the reported depth.
pub fn perform_depenetration(res: Option<(i64, Vec2)>, pos: &mut Vec2, factor: i64)
    requires
        factor == DEPENETRATION_FACTOR,
        res matches Some(hit) ==> 0 <= hit.0 <= 4 * POS_LIMIT && -1 <= hit.1.x <= 1 && -1 <= hit.1.y
            <= 1,
        -4 * POS_LIMIT <= old(pos).x <= 4 * POS_LIMIT,
        -4 * POS_LIMIT <= old(pos).y <= 4 * POS_LIMIT,
    ensures
        match res {
            Some(hit) => ({
                &&& final(pos).x == old(pos).x + hit.1.x * depen_nudge(hit.0 as int)
                &&& final(pos).y == old(pos).y + hit.1.y * depen_nudge(hit.0 as int)
            }),
            None => *final(pos) == *old(pos),
        },
{
    if let Some(hit) = res {
        proof {
            lemma_nudge_range(hit.0 as int);
        }
        let nudge: i64 = mul_div_trunc(hit.0, factor, FX_ONE);
        assert(nudge == depen_nudge(hit.0 as int));
        assert(-nudge <= hit.1.x * nudge <= nudge && -nudge <= hit.1.y * nudge <= nudge)
            by (nonlinear_arith)
            requires
                -1 <= hit.1.x <= 1,
                -1 <= hit.1.y <= 1,
                0 <= nudge,
        ;
        pos.x = pos.x + hit.1.x * nudge;
        pos.y = pos.y + hit.1.y * nudge;
    }
}

/// Runs the fixed number of depenetration passes: each pass corrects
/// at most the first penetrating edge and adds its normal to a running
/// sum. Returns that accumulated normal when any pass collided; the
/// bounce divides by its squared length, so it is not pre-normalised.
pub fn perform_sphere_depenetration(ball: &BallComponent, transf: &mut Vec2) -> (res: Option<Vec2>)
    requires
        -2 * POS_LIMIT <= old(transf).x <= 2 * POS_LIMIT,
        -2 * POS_LIMIT <= old(transf).y <= 2 * POS_LIMIT,
        0 <= ball.radius <= RADIUS_LIMIT,
    ensures
        ({
            let st = depen_iter(
                ARENA_WIDTH as int,
                ARENA_HEIGHT as int,
                ball.radius as int,
                old(transf).x as int,
                old(transf).y as int,
                DEPENETRATION_CYCLES as nat,
            );
            &&& final(transf).x == st.0.0
            &&& final(transf).y == st.0.1
            &&& (st.2 == 0 ==> res is None)
            &&& (st.2 != 0 ==> (res matches Some(n) && n.x == st.1.0 && n.y == st.1.1))
            &&& (res matches Some(n) ==> -4 <= n.x <= 4 && -4 <= n.y <= 4)
        }),
        min_i(old(transf).x as int, ARENA_WIDTH - ball.radius) <= final(transf).x,
        final(transf).x <= max_i(old(transf).x as int, ball.radius as int),
        min_i(old(transf).y as int, ARENA_HEIGHT - ball.radius) <= final(transf).y,
        final(transf).y <= max_i(old(transf).y as int, ball.radius as int),
{
    let ghost w = ARENA_WIDTH as int;
    let ghost h = ARENA_HEIGHT as int;
    let ghost r = ball.radius as int;
    let ghost px0 = old(transf).x as int;
    let ghost py0 = old(transf).y as int;

    let mut collision_count: i64 = 0;
    let mut collision_normal = Vec2 { x: 0, y: 0 };
    let mut i: i64 = 0;

    while i < DEPENETRATION_CYCLES
        invariant
            0 <= i <= DEPENETRATION_CYCLES,
            0 <= ball.radius <= RADIUS_LIMIT,
            -2 * POS_LIMIT <= px0 <= 2 * POS_LIMIT,
            -2 * POS_LIMIT <= py0 <= 2 * POS_LIMIT,
            w == ARENA_WIDTH as int,
            h == ARENA_HEIGHT as int,
            r == ball.radius as int,
            px0 == old(transf).x as int,
            py0 == old(transf).y as int,
            ({
                let st = depen_iter(w, h, r, px0, py0, i as nat);
                &&& transf.x == st.0.0
                &&& transf.y == st.0.1
                &&& collision_normal.x == st.1.0
                &&& collision_normal.y == st.1.1
                &&& collision_count == st.2
            }),
            -i <= collision_normal.x <= i,
            -i <= collision_normal.y <= i,
            0 <= collision_count <= i,
            min_i(px0, w - r) <= transf.x <= max_i(px0, r),
            min_i(py0, h - r) <= transf.y <= max_i(py0, r),
        decreases DEPENETRATION_CYCLES - i,
    {
        let cur: Vec2 = *transf;
        let res = detect_quad_collision(
            Vec2 { x: ARENA_WIDTH, y: ARENA_HEIGHT },
            &cur,
            ball.get_radius(),
        );
        if let Some(hit) = res {
            collision_count = collision_count + 1;
            collision_normal.x = collision_normal.x + hit.1.x;
            collision_normal.y = collision_normal.y + hit.1.y;
        }
        perform_depenetration(res, transf, DEPENETRATION_FACTOR);
        proof {
            match res {
                Some(eh) => {
                    lemma_nudge_range(eh.0 as int);
                    lemma_unit_mul(eh.1.x as int, depen_nudge(eh.0 as int));
                    lemma_unit_mul(eh.1.y as int, depen_nudge(eh.0 as int));
                    let sh = detect_spec(w, h, cur.x as int, cur.y as int, r)->Some_0;
                    lemma_unit_mul(sh.1.0, depen_nudge(sh.0));
                    lemma_unit_mul(sh.1.1, depen_nudge(sh.0));
                    if eh.1.x == 1 {
                        assert(cur.x <= transf.x <= r);
                    } else if eh.1.x == -1 {
                        assert(w - r <= transf.x <= cur.x);
                    } else {
                        assert(transf.x == cur.x);
                    }
                    if eh.1.y == 1 {
                        assert(cur.y <= transf.y <= r);
                    } else if eh.1.y == -1 {
                        assert(h - r <= transf.y <= cur.y);
                    } else {
                        assert(transf.y == cur.y);
                    }
                },
                None => {
                    assert(*transf == cur);
                },
            }
        }
        i = i + 1;
    }

    if collision_count != 0 {
        Some(collision_normal)
    } else {
        None
    }
}

/// Explicit Euler step: advances the position by velocity times the
/// frame delta, one step, in fixed point.
pub fn perform_velocity_motion(delta_time: i64, ball: &BallComponent, transf: &mut Vec2)
    requires
        0 <= delta_time <= DT_LIMIT,
        -VEL_LIMIT <= ball.velocity.x <= VEL_LIMIT,
        -VEL_LIMIT <= ball.velocity.y <= VEL_LIMIT,
        -POS_LIMIT <= old(transf).x <= POS_LIMIT,
        -POS_LIMIT <= old(transf).y <= POS_LIMIT,
    ensures
        final(transf).x == old(transf).x + div_trunc(ball.velocity.x * delta_time, FX_ONE as int),
        final(transf).y == old(transf).y + div_trunc(ball.velocity.y * delta_time, FX_ONE as int),
        -2 * POS_LIMIT <= final(transf).x <= 2 * POS_LIMIT,
        -2 * POS_LIMIT <= final(transf).y <= 2 * POS_LIMIT,
{
    assert(-0x4000_0000_0000_0000 <= ball.velocity.x * delta_time <= 0x4000_0000_0000_0000
        && -0x4000_0000_0000_0000 <= ball.velocity.y * delta_time <= 0x4000_0000_0000_0000)
        by (nonlinear_arith)
        requires
            -VEL_LIMIT <= ball.velocity.x <= VEL_LIMIT,
            -VEL_LIMIT <= ball.velocity.y <= VEL_LIMIT,
            0 <= delta_time <= DT_LIMIT,
            VEL_LIMIT == 0x80_0000i64,
            DT_LIMIT == 1_000_000i64,
    ;
    let mx: i64 = mul_div_trunc(ball.velocity.x, delta_time, FX_ONE);
    let my: i64 = mul_div_trunc(ball.velocity.y, delta_time, FX_ONE);
    assert(abs_i(ball.velocity.x * delta_time) <= VEL_LIMIT * DT_LIMIT && abs_i(
        ball.velocity.y * delta_time,
    ) <= VEL_LIMIT * DT_LIMIT) by (nonlinear_arith)
        requires
            -VEL_LIMIT <= ball.velocity.x <= VEL_LIMIT,
            -VEL_LIMIT <= ball.velocity.y <= VEL_LIMIT,
            0 <= delta_time <= DT_LIMIT,
    ;
    transf.x = transf.x + mx;
    transf.y = transf.y + my;
}

/// The negated reflection of `v` about `n`: reflecting by
/// `2 (n . v) n / |n|^2 - v` and flipping the sign leaves `v` minus
/// the projection term. Dividing by the squared length of `n` stands
/// in for reflecting about the normalised normal, which points the
/// same way.
pub open spec fn bounce_reflected(n: Vec2, v: Vec2) -> (int, int) {
    let t = n.dot(v);
    let nn = n.norm_sq();
    (v.x - div_trunc(2 * t * n.x, nn), v.y - div_trunc(2 * t * n.y, nn))
}

/// Whether the bounce response changes the velocity: the accumulated
/// normal and the reflected velocity must both be nonzero, else the
/// response is skipped rather than dividing or normalising zero.
pub open spec fn bounce_occurs(n: Vec2, v: Vec2) -> bool {
    !n.is_zero() && bounce_reflected(n, v) != (0int, 0int)
}

/// The velocity after the bounce response against the accumulated
/// normal `n`: the negated reflection of `v`, rescaled to the fixed
/// maximum speed. A degenerate zero normal or zero reflected vector
/// leaves the velocity unchanged.
pub open spec fn bounce_spec(n: Vec2, v: Vec2) -> (int, int) {
    if n.is_zero() {
        (v.x as int, v.y as int)
    } else {
        let w = bounce_reflected(n, v);
        if w == (0int, 0int) {
            (v.x as int, v.y as int)
        } else {
            let wv = Vec2 { x: w.0 as i64, y: w.1 as i64 };
            (norm_x(wv, BALL_MAX_VELOCITY as int), norm_y(wv, BALL_MAX_VELOCITY as int))
        }
    }
}

/// Applies the bounce response when a collision normal was
/// accumulated this tick; afterwards the speed is the fixed maximum
/// up to fixed-point rounding.
pub fn perform_bouncing(collision_normal: Option<Vec2>, ball: &mut BallComponent)
    requires
        collision_normal matches Some(n) ==> -4 <= n.x <= 4 && -4 <= n.y <= 4,
        -VEL_LIMIT <= old(ball).velocity.x <= VEL_LIMIT,
        -VEL_LIMIT <= old(ball).velocity.y <= VEL_LIMIT,
    ensures
        final(ball).radius == old(ball).radius,
        match collision_normal {
            Some(n) => ({
                let bv = bounce_spec(n, old(ball).velocity);
                &&& final(ball).velocity.x == bv.0
                &&& final(ball).velocity.y == bv.1
            }),
            None => final(ball).velocity == old(ball).velocity,
        },
        -VEL_LIMIT <= final(ball).velocity.x <= VEL_LIMIT,
        -VEL_LIMIT <= final(ball).velocity.y <= VEL_LIMIT,
{
    if let Some(n) = collision_normal {
        let vx: i64 = ball.velocity.x;
        let vy: i64 = ball.velocity.y;
        assert(0 <= n.x * n.x <= 16 && 0 <= n.y * n.y <= 16 && -4 * VEL_LIMIT <= n.x * vx <= 4
            * VEL_LIMIT && -4 * VEL_LIMIT <= n.y * vy <= 4 * VEL_LIMIT && ((n.x * n.x + n.y * n.y
            == 0) <==> (n.x == 0 && n.y == 0))) by (nonlinear_arith)
            requires
                -4 <= n.x <= 4,
                -4 <= n.y <= 4,
                -VEL_LIMIT <= vx <= VEL_LIMIT,
                -VEL_LIMIT <= vy <= VEL_LIMIT,
        ;
        let nn: i64 = n.x * n.x + n.y * n.y;
        if nn != 0 {
            let t: i64 = n.x * vx + n.y * vy;
            assert(-0x4000_0000_0000_0000 <= (2 * t) * n.x <= 0x4000_0000_0000_0000
                && -0x4000_0000_0000_0000 <= (2 * t) * n.y <= 0x4000_0000_0000_0000
                && abs_i((2 * t) * n.x) <= 64 * VEL_LIMIT && abs_i((2 * t) * n.y) <= 64
                * VEL_LIMIT) by (nonlinear_arith)
                requires
                    -8 * VEL_LIMIT <= t <= 8 * VEL_LIMIT,
                    -4 <= n.x <= 4,
                    -4 <= n.y <= 4,
            ;
            let proj_x: i64 = mul_div_trunc(2 * t, n.x, nn);
            let proj_y: i64 = mul_div_trunc(2 * t, n.y, nn);
            assert(abs_i(proj_x as int) <= 64 * VEL_LIMIT && abs_i(proj_y as int) <= 64 * VEL_LIMIT)
                by (nonlinear_arith)
                requires
                    abs_i(proj_x as int) * nn <= abs_i((2 * t) * n.x),
                    abs_i(proj_y as int) * nn <= abs_i((2 * t) * n.y),
                    abs_i((2 * t) * n.x) <= 64 * VEL_LIMIT,
                    abs_i((2 * t) * n.y) <= 64 * VEL_LIMIT,
                    1 <= nn,
                    0 <= VEL_LIMIT,
            ;
            let wx: i64 = vx - proj_x;
            let wy: i64 = vy - proj_y;
            if wx != 0 || wy != 0 {
                let w = Vec2 { x: wx, y: wy };
                assert(-NORM_INPUT_LIMIT <= wx <= NORM_INPUT_LIMIT && -NORM_INPUT_LIMIT <= wy
                    <= NORM_INPUT_LIMIT);
                let nv = normalize_to(w, BALL_MAX_VELOCITY);
                proof {
                    crate::vec2::lemma_norm_speed(w, BALL_MAX_VELOCITY as int);
                }
                ball.set_velocity(nv);
            }
        }
    }
}

/// Position after the Euler step, before any depenetration.
pub open spec fn tick_moved(dt: int, v: Vec2, px: int, py: int) -> (int, int) {
    (px + div_trunc(v.x * dt, FX_ONE as int), py + div_trunc(v.y * dt, FX_ONE as int))
}

/// Depenetration outcome of the tick: corrected position, accumulated
/// normal and collision count, starting from the integrated position.
pub open spec fn tick_depen_state(dt: int, v: Vec2, r: int, px: int, py: int) -> (
    (int, int),
    (int, int),
    int,
) {
    let m = tick_moved(dt, v, px, py);
    depen_iter(ARENA_WIDTH as int, ARENA_HEIGHT as int, r, m.0, m.1, DEPENETRATION_CYCLES as nat)
}

/// Outcome of one full physics tick for a ball at `(px, py)`: the
/// position after integration and the depenetration passes, and the
/// velocity after the bounce response if any pass collided.
pub open spec fn ball_tick_spec(dt: int, v: Vec2, r: int, px: int, py: int) -> (
    (int, int),
    (int, int),
) {
    let st = tick_depen_state(dt, v, r, px, py);
    if st.2 != 0 {
        (st.0, bounce_spec((Vec2 { x: st.1.0 as i64, y: st.1.1 as i64 }), v))
    } else {
        (st.0, (v.x as int, v.y as int))
    }
}

/// One full tick: integrate the motion, resolve wall penetration over
/// the fixed number of passes, then bounce if any pass collided.
pub fn update_ball_position(delta_time: i64, ball: &mut BallComponent, transf: &mut Vec2)
    requires
        0 <= delta_time <= DT_LIMIT,
        -VEL_LIMIT <= old(ball).velocity.x <= VEL_LIMIT,
        -VEL_LIMIT <= old(ball).velocity.y <= VEL_LIMIT,
        -POS_LIMIT <= old(transf).x <= POS_LIMIT,
        -POS_LIMIT <= old(transf).y <= POS_LIMIT,
        0 <= old(ball).radius <= RADIUS_LIMIT,
    ensures
        ({
            let res = ball_tick_spec(
                delta_time as int,
                old(ball).velocity,
                old(ball).radius as int,
                old(transf).x as int,
                old(transf).y as int,
            );
            &&& final(transf).x == res.0.0
            &&& final(transf).y == res.0.1
            &&& final(ball).velocity.x == res.1.0
            &&& final(ball).velocity.y == res.1.1
        }),
        final(ball).radius == old(ball).radius,
        -VEL_LIMIT <= final(ball).velocity.x <= VEL_LIMIT,
        -VEL_LIMIT <= final(ball).velocity.y <= VEL_LIMIT,
        -2 * POS_LIMIT <= final(transf).x <= 2 * POS_LIMIT,
        -2 * POS_LIMIT <= final(transf).y <= 2 * POS_LIMIT,
{
    perform_velocity_motion(delta_time, ball, transf);
    let collision_normal = perform_sphere_depenetration(ball, transf);
    perform_bouncing(collision_normal, ball);
}

/// Across `n` depenetration passes the collision count and each
/// accumulated normal component stay within `n`.
pub proof fn lemma_depen_iter_bounds(w: int, h: int, r: int, px: int, py: int, n: nat)
    ensures
        ({
            let st = depen_iter(w, h, r, px, py, n);
            &&& -(n as int) <= st.1.0 <= n as int
            &&& -(n as int) <= st.1.1 <= n as int
            &&& 0 <= st.2 <= n as int
        }),
    decreases n,
{
    if n > 0 {
        lemma_depen_iter_bounds(w, h, r, px, py, (n - 1) as nat);
    }
}

/// Speed invariant after a bounce: against any accumulated normal,
/// whatever the speed before, the squared speed afterwards lies in
/// the fixed-point rounding band around the maximum speed squared,
/// a band of a few thousandths of a unit.
pub proof fn lemma_bounce_speed(n: Vec2, v: Vec2)
    requires
        -4 <= n.x <= 4,
        -4 <= n.y <= 4,
        -VEL_LIMIT <= v.x <= VEL_LIMIT,
        -VEL_LIMIT <= v.y <= VEL_LIMIT,
        bounce_occurs(n, v),
    ensures
        ({
            let bv = bounce_spec(n, v);
            let m = BALL_MAX_VELOCITY as int;
            &&& m * m - 4 * m <= bv.0 * bv.0 + bv.1 * bv.1
            &&& bv.0 * bv.0 + bv.1 * bv.1 <= m * m + 2 * m
        }),
{
    let t = n.dot(v);
    let nn = n.norm_sq();
    assert(1 <= nn <= 32 && -8 * VEL_LIMIT <= t <= 8 * VEL_LIMIT && abs_i(2 * t * n.x) <= 64
        * VEL_LIMIT && abs_i(2 * t * n.y) <= 64 * VEL_LIMIT) by (nonlinear_arith)
        requires
            -4 <= n.x <= 4,
            -4 <= n.y <= 4,
            !(n.x == 0 && n.y == 0),
            -VEL_LIMIT <= v.x <= VEL_LIMIT,
            -VEL_LIMIT <= v.y <= VEL_LIMIT,
            t == n.x * v.x + n.y * v.y,
            nn == n.x * n.x + n.y * n.y,
            0 < VEL_LIMIT,
    ;
    crate::vec2::lemma_div_trunc_bound(2 * t * n.x, nn);
    crate::vec2::lemma_div_trunc_bound(2 * t * n.y, nn);
    assert(abs_i(div_trunc(2 * t * n.x, nn)) <= 64 * VEL_LIMIT && abs_i(div_trunc(2 * t * n.y, nn))
        <= 64 * VEL_LIMIT) by (nonlinear_arith)
        requires
            abs_i(div_trunc(2 * t * n.x, nn)) * nn <= abs_i(2 * t * n.x),
            abs_i(div_trunc(2 * t * n.y, nn)) * nn <= abs_i(2 * t * n.y),
            abs_i(2 * t * n.x) <= 64 * VEL_LIMIT,
            abs_i(2 * t * n.y) <= 64 * VEL_LIMIT,
            0 <= abs_i(div_trunc(2 * t * n.x, nn)),
            0 <= abs_i(div_trunc(2 * t * n.y, nn)),
            1 <= nn,
            0 < VEL_LIMIT,
    ;
    let w = bounce_reflected(n, v);
    assert(-NORM_INPUT_LIMIT <= w.0 <= NORM_INPUT_LIMIT && -NORM_INPUT_LIMIT <= w.1
        <= NORM_INPUT_LIMIT);
    let wv = Vec2 { x: w.0 as i64, y: w.1 as i64 };
    assert(wv.x == w.0 && wv.y == w.1);
    assert(!wv.is_zero());
    crate::vec2::lemma_norm_speed(wv, BALL_MAX_VELOCITY as int);
}

/// Speed invariant for a whole tick: on any tick in which the bounce
/// response runs, the squared speed afterwards lies in the rounding
/// band around the maximum speed squared, whatever the speed before.
pub proof fn lemma_tick_speed_invariant(dt: int, v: Vec2, r: int, px: int, py: int)
    requires
        -VEL_LIMIT <= v.x <= VEL_LIMIT,
        -VEL_LIMIT <= v.y <= VEL_LIMIT,
        ({
            let st = tick_depen_state(dt, v, r, px, py);
            st.2 != 0 && bounce_occurs((Vec2 { x: st.1.0 as i64, y: st.1.1 as i64 }), v)
        }),
    ensures
        ({
            let vel = ball_tick_spec(dt, v, r, px, py).1;
            let m = BALL_MAX_VELOCITY as int;
            &&& m * m - 4 * m <= vel.0 * vel.0 + vel.1 * vel.1
            &&& vel.0 * vel.0 + vel.1 * vel.1 <= m * m + 2 * m
        }),
{
    let m = tick_moved(dt, v, px, py);
    lemma_depen_iter_bounds(
        ARENA_WIDTH as int,
        ARENA_HEIGHT as int,
        r,
        m.0,
        m.1,
        DEPENETRATION_CYCLES as nat,
    );
    let st = tick_depen_state(dt, v, r, px, py);
    let nv = Vec2 { x: st.1.0 as i64, y: st.1.1 as i64 };
    assert(-4 <= nv.x <= 4 && -4 <= nv.y <= 4);
    lemma_bounce_speed(nv, v);
}

/// If no edge penetrates at a position, any number of passes leaves
/// the position untouched and collides with nothing.
pub proof fn lemma_depen_iter_no_hit(w: int, h: int, r: int, px: int, py: int, n: nat)
    requires
        detect_spec(w, h, px, py, r) is None,
    ensures
        depen_iter(w, h, r, px, py, n) == ((px, py), (0int, 0int), 0int),
    decreases n,
{
    if n > 0 {
        lemma_depen_iter_no_hit(w, h, r, px, py, (n - 1) as nat);
    }
}

/// No-bounce translation: when the integrated position lands strictly
/// inside the arena shrunk by the radius, the tick is pure motion:
/// the position advances by exactly velocity times dt, scaled, and
/// the velocity is unchanged.
pub proof fn lemma_no_bounce_translation(dt: int, v: Vec2, r: int, px: int, py: int)
    requires
        ({
            let m = tick_moved(dt, v, px, py);
            &&& r < m.0 < ARENA_WIDTH - r
            &&& r < m.1 < ARENA_HEIGHT - r
        }),
    ensures
        ball_tick_spec(dt, v, r, px, py) == (tick_moved(dt, v, px, py), (v.x as int, v.y as int)),
{
    let m = tick_moved(dt, v, px, py);
    assert(detect_spec(ARENA_WIDTH as int, ARENA_HEIGHT as int, m.0, m.1, r) is None);
    lemma_depen_iter_no_hit(
        ARENA_WIDTH as int,
        ARENA_HEIGHT as int,
        r,
        m.0,
        m.1,
        DEPENETRATION_CYCLES as nat,
    );
}

/// A nudge of a positive penetration never reaches the full depth,
/// and a penetration of at least ten counts moves the ball strictly.
pub proof fn lemma_nudge_progress(d: int)
    requires
        1 <= d,
    ensures
        depen_nudge(d) < d,
        d >= 10 ==> depen_nudge(d) >= 1,
{
    lemma_remainder(d * 100, 1000);
}

/// Boundary containment convergence: a motionless ball penetrating
/// the left wall by at least a hundredth of a unit is pushed strictly
/// back toward the wall surface by the tick, without overshooting it,
/// and keeps its zero velocity, so repeated ticks keep converging.
pub proof fn lemma_depenetration_progress(dt: int, v: Vec2, r: int, px: int, py: int)
    requires
        v.x == 0,
        v.y == 0,
        0 <= r,
        2 * r <= ARENA_WIDTH,
        px <= r - 10,
        r <= py <= ARENA_HEIGHT - r,
    ensures
        ({
            let res = ball_tick_spec(dt, v, r, px, py);
            &&& px < res.0.0 < r
            &&& res.0.1 == py
            &&& res.1 == (0int, 0int)
        }),
{
    let w = ARENA_WIDTH as int;
    let h = ARENA_HEIGHT as int;
    assert(v.x * dt == 0 && v.y * dt == 0) by (nonlinear_arith)
        requires
            v.x == 0,
            v.y == 0,
    ;
    assert(div_trunc(0, FX_ONE as int) == 0) by {
        vstd::arithmetic::div_mod::lemma_div_of0(FX_ONE as int);
    }
    let m = tick_moved(dt, v, px, py);
    assert(m.0 == px && m.1 == py);
    // Every pass hits the left edge: the x coordinate stays below the
    // radius, creeps strictly upward on the first pass, and y never
    // moves.
    let st0 = depen_iter(w, h, r, px, py, 0);
    let st1 = depen_iter(w, h, r, px, py, 1);
    let st2 = depen_iter(w, h, r, px, py, 2);
    let st3 = depen_iter(w, h, r, px, py, 3);
    let st4 = depen_iter(w, h, r, px, py, 4);
    assert(st0 == ((px, py), (0int, 0int), 0int));
    let d0 = r - px;
    lemma_nudge_range(d0);
    lemma_nudge_progress(d0);
    lemma_unit_mul(1, depen_nudge(d0));
    lemma_unit_mul(0, depen_nudge(d0));
    let x1 = px + depen_nudge(d0);
    assert(st1 == ((x1, py), (1int, 0int), 1int));
    assert(px + 1 <= x1 < r);
    let d1 = r - x1;
    lemma_nudge_range(d1);
    lemma_nudge_progress(d1);
    lemma_unit_mul(1, depen_nudge(d1));
    lemma_unit_mul(0, depen_nudge(d1));
    let x2 = x1 + depen_nudge(d1);
    assert(st2 == ((x2, py), (2int, 0int), 2int));
    assert(x1 <= x2 < r);
    let d2 = r - x2;
    lemma_nudge_range(d2);
    lemma_nudge_progress(d2);
    lemma_unit_mul(1, depen_nudge(d2));
    lemma_unit_mul(0, depen_nudge(d2));
    let x3 = x2 + depen_nudge(d2);
    assert(st3 == ((x3, py), (3int, 0int), 3int));
    assert(x2 <= x3 < r);
    let d3 = r - x3;
    lemma_nudge_range(d3);
    lemma_nudge_progress(d3);
    lemma_unit_mul(1, depen_nudge(d3));
    lemma_unit_mul(0, depen_nudge(d3));
    let x4 = x3 + depen_nudge(d3);
    assert(st4 == ((x4, py), (4int, 0int), 4int));
    assert(x3 <= x4 < r);
    let st = tick_depen_state(dt, v, r, px, py);
    assert(st == st4);
    // The bounce is skipped: with zero velocity the reflected vector
    // is zero as well.
    let nv = Vec2 { x: 4, y: 0 };
    assert(nv.dot(v) == 0 && nv.norm_sq() == 16) by (nonlinear_arith)
        requires
            v.x == 0,
            v.y == 0,
            nv.x == 4,
            nv.y == 0,
    ;
    assert(2 * nv.dot(v) * nv.x == 0 && 2 * nv.dot(v) * nv.y == 0) by (nonlinear_arith)
        requires
            nv.dot(v) == 0,
    ;
    assert(div_trunc(0, 16) == 0) by {
        vstd::arithmetic::div_mod::lemma_div_of0(16);
    }
    assert(bounce_reflected(nv, v) == (0int, 0int));
    assert(bounce_spec(nv, v) == (0int, 0int));
}

/// Bounds under which one ball tick is free of overflow; generous
/// compared to every reachable state of the arena.
pub open spec fn ball_in_bounds(b: BallComponent, t: Vec2) -> bool {
    &&& -VEL_LIMIT <= b.velocity.x <= VEL_LIMIT
    &&& -VEL_LIMIT <= b.velocity.y <= VEL_LIMIT
    &&& -POS_LIMIT <= t.x <= POS_LIMIT
    &&& -POS_LIMIT <= t.y <= POS_LIMIT
    &&& 0 <= b.radius <= RADIUS_LIMIT
}

/// The pair `(b1, t1)` is the outcome of one physics tick on `(b0, t0)`.
pub open spec fn ball_ticked(dt: int, b0: BallComponent, t0: Vec2, b1: BallComponent, t1: Vec2) -> bool {
    let res = ball_tick_spec(dt, b0.velocity, b0.radius as int, t0.x as int, t0.y as int);
    &&& t1.x == res.0.0
    &&& t1.y == res.0.1
    &&& b1.velocity.x == res.1.0
    &&& b1.velocity.y == res.1.1
    &&& b1.radius == b0.radius
}

/// The per-tick ball physics pass.
pub struct BallSystem;

impl BallSystem {
    /// Advances every (ball, transform) pair by one tick, pairing the
    /// two columns by index as the host's entity iteration does.
    pub fn run(
        &mut self,
        delta_time: i64,
        balls: &mut Vec<BallComponent>,
        transforms: &mut Vec<Vec2>,
    )
        requires
            old(balls)@.len() == old(transforms)@.len(),
            0 <= delta_time <= DT_LIMIT,
            forall|j: int|
                0 <= j < old(balls)@.len() ==> ball_in_bounds(
                    #[trigger] old(balls)@[j],
                    old(transforms)@[j],
                ),
        ensures
            final(balls)@.len() == old(balls)@.len(),
            final(transforms)@.len() == old(transforms)@.len(),
            forall|j: int|
                0 <= j < old(balls)@.len() ==> ball_ticked(
                    delta_time as int,
                    #[trigger] old(balls)@[j],
                    old(transforms)@[j],
                    final(balls)@[j],
                    final(transforms)@[j],
                ),
    {
        let n = balls.len();
        let mut idx: usize = 0;
        while idx < n
            invariant
                idx <= n,
                n == old(balls)@.len(),
                balls@.len() == n,
                transforms@.len() == n,
                0 <= delta_time <= DT_LIMIT,
                forall|j: int|
                    0 <= j < n ==> ball_in_bounds(#[trigger] old(balls)@[j], old(transforms)@[j]),
                forall|j: int| idx <= j < n ==> #[trigger] balls@[j] == old(balls)@[j],
                forall|j: int| idx <= j < n ==> #[trigger] transforms@[j] == old(transforms)@[j],
                forall|j: int|
                    0 <= j < idx ==> ball_ticked(
                        delta_time as int,
                        #[trigger] old(balls)@[j],
                        old(transforms)@[j],
                        balls@[j],
                        transforms@[j],
                    ),
            decreases n - idx,
        {
            let ghost balls_pre = balls@;
            let ghost trans_pre = transforms@;
            update_ball_position(delta_time, &mut balls[idx], &mut transforms[idx]);
            proof {
                assert forall|j: int| idx + 1 <= j < n implies #[trigger] balls@[j] == old(
                    balls,
                )@[j] by {
                    assert(balls_pre[j] == old(balls)@[j]);
                    assert(balls@[j] == balls_pre[j]);
                }
                assert forall|j: int| idx + 1 <= j < n implies #[trigger] transforms@[j] == old(
                    transforms,
                )@[j] by {
                    assert(trans_pre[j] == old(transforms)@[j]);
                    assert(transforms@[j] == trans_pre[j]);
                }
                assert forall|j: int| 0 <= j < idx implies ball_ticked(
                    delta_time as int,
                    #[trigger] old(balls)@[j],
                    old(transforms)@[j],
                    balls@[j],
                    transforms@[j],
                ) by {
                    assert(balls@[j] == balls_pre[j]);
                    assert(transforms@[j] == trans_pre[j]);
                    assert(ball_ticked(
                        delta_time as int,
                        old(balls)@[j],
                        old(transforms)@[j],
                        balls_pre[j],
                        trans_pre[j],
                    ));
                }
            }
            idx = idx + 1;
        }
    }
}

} // verus!
