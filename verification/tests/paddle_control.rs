use pong::paddle::PaddleSystem;
use pong::pong::Paddle;
use pong::pong::Side;
use pong::vec2::Vec2;

fn scene() -> (Vec<Vec2>, Vec<Paddle>) {
    let transforms = vec![Vec2::new(4_000, 50_000), Vec2::new(96_000, 50_000)];
    let paddles = vec![Paddle::new(&Side::Left), Paddle::new(&Side::Right)];
    (transforms, paddles)
}

#[test]
fn full_deflection_clamps_at_top() {
    // Full axis deflection for a whole second asks for 50 units of
    // travel; the centre clamps at the top of the travel range.
    let (mut transforms, paddles) = scene();
    let mut system = PaddleSystem;
    system.run(1_000, &mut transforms, &paddles, Some(1_000), None);
    assert_eq!(transforms[0].y, 84_000);
    assert_eq!(transforms[0].x, 4_000);
}

#[test]
fn full_negative_deflection_clamps_at_bottom() {
    let (mut transforms, paddles) = scene();
    let mut system = PaddleSystem;
    system.run(1_000, &mut transforms, &paddles, None, Some(-1_000));
    assert_eq!(transforms[1].y, 16_000);
    assert_eq!(transforms[1].x, 96_000);
}

#[test]
fn partial_deflection_moves_proportionally() {
    // Half deflection for a tenth of a second: 50 * 0.5 * 0.1 = 2.5
    // units of travel.
    let (mut transforms, paddles) = scene();
    let mut system = PaddleSystem;
    system.run(100, &mut transforms, &paddles, Some(500), Some(-500));
    assert_eq!(transforms[0].y, 52_500);
    assert_eq!(transforms[1].y, 47_500);
}

#[test]
fn missing_axis_leaves_paddle_untouched() {
    let (mut transforms, paddles) = scene();
    let mut system = PaddleSystem;
    system.run(1_000, &mut transforms, &paddles, None, None);
    assert_eq!((transforms[0].x, transforms[0].y), (4_000, 50_000));
    assert_eq!((transforms[1].x, transforms[1].y), (96_000, 50_000));
}

#[test]
fn one_bound_axis_moves_only_its_side() {
    let (mut transforms, paddles) = scene();
    let mut system = PaddleSystem;
    system.run(100, &mut transforms, &paddles, Some(1_000), None);
    assert_eq!(transforms[0].y, 55_000);
    assert_eq!((transforms[1].x, transforms[1].y), (96_000, 50_000));
}

#[test]
fn clamp_holds_for_extreme_inputs() {
    // Even absurd axis magnitudes and frame deltas cannot push the
    // centre outside the travel range.
    let (mut transforms, paddles) = scene();
    let mut system = PaddleSystem;
    system.run(1_000_000, &mut transforms, &paddles, Some(1_000_000), Some(-1_000_000));
    assert_eq!(transforms[0].y, 84_000);
    assert_eq!(transforms[1].y, 16_000);
}
