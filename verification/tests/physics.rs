use gravity_wizard::input::KeyTracker;
use gravity_wizard::layout::Exit;
use gravity_wizard::layout::Platform;
use gravity_wizard::layout::is_in_exit;
use gravity_wizard::physics::Body;
use gravity_wizard::physics::EntitySize;
use gravity_wizard::physics::Gravity;
use gravity_wizard::physics::GravityDirection;
use gravity_wizard::physics::Position;
use gravity_wizard::physics::Velocity;
use gravity_wizard::physics::apply_movement;
use gravity_wizard::physics::disp;
use gravity_wizard::physics::flip_gravity;
use gravity_wizard::physics::gravitational_pull;
use gravity_wizard::physics::object_collision;
use gravity_wizard::physics::object_pair_blocks;
use gravity_wizard::physics::platform_collision;
use gravity_wizard::physics::resolve_platform_collision;
use gravity_wizard::wizard::in_air;
use gravity_wizard::wizard::out_of_screen;

fn body(x: i64, y: i64, vx: i64, vy: i64, w: i64, h: i64) -> Body {
    Body {
        position: Position { x, y },
        velocity: Velocity { x: vx, y: vy },
        size: EntitySize { width: w, height: h },
    }
}

#[test]
fn gravity_pull_down_from_rest() {
    let mut bodies = vec![body(0, 0, 0, 0, 20_000, 20_000)];
    gravitational_pull(&mut bodies, &Gravity(GravityDirection::Down));
    assert_eq!(bodies[0].velocity.y, -14_700);
    assert_eq!(bodies[0].velocity.x, 0);
}

#[test]
fn gravity_pull_up_from_rest() {
    let mut bodies = vec![body(0, 0, 0, 0, 20_000, 20_000)];
    gravitational_pull(&mut bodies, &Gravity(GravityDirection::Up));
    assert_eq!(bodies[0].velocity.y, 14_700);
}

#[test]
fn gravity_clamps_to_vertical_cap() {
    let mut bodies = vec![body(0, 0, 0, -979_000, 20_000, 20_000), body(0, 0, 0, 979_000, 1, 1)];
    gravitational_pull(&mut bodies, &Gravity(GravityDirection::Down));
    assert_eq!(bodies[0].velocity.y, -980_000);
    // Every vertical speed stays within the cap.
    for b in &bodies {
        assert!(b.velocity.y.abs() <= 980_000);
    }
    let mut rising = vec![body(0, 0, 0, 979_000, 20_000, 20_000)];
    gravitational_pull(&mut rising, &Gravity(GravityDirection::Up));
    assert_eq!(rising[0].velocity.y, 980_000);
}

#[test]
fn flip_gravity_twice_is_identity() {
    let mut g = Gravity(GravityDirection::Down);
    flip_gravity(&mut g, true);
    assert_eq!(g.0, GravityDirection::Up);
    flip_gravity(&mut g, true);
    assert_eq!(g.0, GravityDirection::Down);
}

#[test]
fn flip_gravity_ignores_non_event() {
    let mut g = Gravity(GravityDirection::Up);
    flip_gravity(&mut g, false);
    assert_eq!(g.0, GravityDirection::Up);
}

#[test]
fn key_tracker_fires_once_per_press() {
    let mut t = KeyTracker::new();
    assert!(t.update(true));
    // Held across frames: no further events.
    assert!(!t.update(true));
    assert!(!t.update(true));
    assert!(!t.update(false));
    // A new press fires again.
    assert!(t.update(true));
}

#[test]
fn disp_is_velocity_times_dt_truncated() {
    assert_eq!(disp(100_000, 16), 1_600);
    assert_eq!(disp(-100_000, 16), -1_600);
    // Rounded toward zero on both sides.
    assert_eq!(disp(1, 999), 0);
    assert_eq!(disp(-1, 999), 0);
    assert_eq!(disp(1_500, 1), 1);
    assert_eq!(disp(-1_500, 1), -1);
}

#[test]
fn apply_movement_advances_positions() {
    let mut bodies = vec![body(640_000, 360_000, 250_000, -980_000, 20_000, 20_000)];
    apply_movement(&mut bodies, 16);
    assert_eq!(bodies[0].position.x, 640_000 + 4_000);
    assert_eq!(bodies[0].position.y, 360_000 - 15_680);
    assert_eq!(bodies[0].velocity, Velocity { x: 250_000, y: -980_000 });
}

#[test]
fn resting_body_has_fall_stopped() {
    // Bottom edge exactly on the platform's top, falling.
    let p = Platform { lowx: 0, highx: 300_000, lowy: 0, highy: 100_000 };
    let mut b = body(150_000, 110_000, 50_000, -100_000, 20_000, 20_000);
    resolve_platform_collision(&mut b, &p, 16);
    assert_eq!(b.velocity.y, 0);
    // The horizontal component is untouched.
    assert_eq!(b.velocity.x, 50_000);
    // A second pass is idempotent.
    resolve_platform_collision(&mut b, &p, 16);
    assert_eq!(b.velocity.y, 0);
    assert_eq!(b.velocity.x, 50_000);
}

#[test]
fn rising_body_blocked_from_below() {
    let p = Platform { lowx: 0, highx: 300_000, lowy: 200_000, highy: 260_000 };
    let mut b = body(150_000, 190_000, 0, 100_000, 20_000, 20_000);
    resolve_platform_collision(&mut b, &p, 16);
    assert_eq!(b.velocity.y, 0);
}

#[test]
fn side_approach_blocked() {
    let p = Platform { lowx: 200_000, highx: 300_000, lowy: 0, highy: 100_000 };
    // Level with the platform, moving right into its left edge.
    let mut b = body(190_000, 50_000, 100_000, 0, 20_000, 20_000);
    resolve_platform_collision(&mut b, &p, 16);
    assert_eq!(b.velocity.x, 0);
    assert_eq!(b.velocity.y, 0);
}

#[test]
fn corner_approach_zeroes_both_components() {
    // Above and left of the platform, moving down-right so both projected
    // edges cross.
    let p = Platform { lowx: 200_000, highx: 300_000, lowy: 0, highy: 100_000 };
    let mut b = body(189_000, 111_000, 100_000, -100_000, 20_000, 20_000);
    assert_eq!(b.position.y - b.size.height / 2, 101_000);
    assert_eq!(b.position.x + b.size.width / 2, 199_000);
    resolve_platform_collision(&mut b, &p, 16);
    assert_eq!(b.velocity.x, 0);
    assert_eq!(b.velocity.y, 0);
}

#[test]
fn distant_body_is_untouched() {
    let p = Platform { lowx: 0, highx: 10_000, lowy: 0, highy: 10_000 };
    let mut b = body(500_000, 500_000, 100_000, -100_000, 20_000, 20_000);
    resolve_platform_collision(&mut b, &p, 16);
    assert_eq!(b.velocity, Velocity { x: 100_000, y: -100_000 });
}

#[test]
fn platform_collision_applies_to_all_bodies() {
    let platforms = vec![Platform { lowx: 0, highx: 300_000, lowy: 0, highy: 100_000 }];
    let mut bodies = vec![
        body(150_000, 110_000, 0, -100_000, 20_000, 20_000),
        body(500_000, 500_000, 0, -100_000, 20_000, 20_000),
    ];
    platform_collision(&mut bodies, &platforms, 16);
    assert_eq!(bodies[0].velocity.y, 0);
    assert_eq!(bodies[1].velocity.y, -100_000);
}

#[test]
fn object_pair_counts_both_displacements() {
    // A body falls toward another that falls just as fast: no collision.
    let upper = body(0, 110_000, 0, -100_000, 20_000, 20_000);
    let lower = body(0, 89_000, 0, -100_000, 20_000, 20_000);
    let (zx, zy) = object_pair_blocks(&upper, &lower, 16);
    assert!(!zx);
    assert!(!zy);
    // The lower one stands still: the faller is blocked.
    let still = body(0, 89_000, 0, 0, 20_000, 20_000);
    let (zx2, zy2) = object_pair_blocks(&upper, &still, 16);
    assert!(!zx2);
    assert!(zy2);
}

#[test]
fn object_collision_blocks_faller_on_resting_object() {
    let mut bodies = vec![
        body(0, 110_000, 0, -100_000, 20_000, 20_000),
        body(0, 89_000, 0, 0, 20_000, 20_000),
    ];
    object_collision(&mut bodies, 16);
    assert_eq!(bodies[0].velocity.y, 0);
    assert_eq!(bodies[1].velocity.y, 0);
}

#[test]
fn object_collision_skips_self() {
    let mut bodies = vec![body(0, 0, 100_000, -100_000, 20_000, 20_000)];
    object_collision(&mut bodies, 16);
    assert_eq!(bodies[0].velocity, Velocity { x: 100_000, y: -100_000 });
}

#[test]
fn in_air_means_nonzero_vertical_speed() {
    assert!(in_air(&Velocity { x: 5, y: -1 }));
    assert!(in_air(&Velocity { x: 0, y: 1 }));
    assert!(!in_air(&Velocity { x: 250_000, y: 0 }));
}

#[test]
fn out_of_screen_when_an_edge_crosses() {
    // Centered at (1275, 100) with width 20: right edge 1285 > 1280.
    let b = body(1_275_000, 100_000, 0, 0, 20_000, 20_000);
    assert!(out_of_screen(&b, 1_280_000, 720_000));
    let inside = body(640_000, 360_000, 0, 0, 20_000, 20_000);
    assert!(!out_of_screen(&inside, 1_280_000, 720_000));
    let under = body(640_000, 5_000, 0, 0, 20_000, 20_000);
    assert!(out_of_screen(&under, 1_280_000, 720_000));
}

#[test]
fn exit_reached_within_margin_only() {
    let exit = Exit { x: 640_000, y: 360_000 };
    assert!(is_in_exit(&exit, &Position { x: 640_000, y: 360_000 }));
    // Delta 10 is not within margin 5.
    assert!(!is_in_exit(&exit, &Position { x: 650_000, y: 360_000 }));
    // The margin is strict.
    assert!(!is_in_exit(&exit, &Position { x: 645_000, y: 360_000 }));
    assert!(is_in_exit(&exit, &Position { x: 644_999, y: 360_001 }));
}
