//! Kinematics: the gravity field, velocity clamps, the collision
//! resolver and the integrator.
//!
//! Positions and sizes are milli-units, velocities milli-units per
//! second, frame deltas milliseconds.

use vstd::prelude::*;

use crate::layout::Platform;

verus! {

/// Gravitational acceleration added to a body's vertical speed each frame,
/// in milli-units per second.
pub const GRAVITY: i64 = 14_700;

/// Horizontal acceleration added per frame of held input, in milli-units
/// per second.
pub const HORIZONTAL_ACCELERATION: i64 = 4_000;

/// Cap on the magnitude of a body's horizontal velocity.
pub const MAX_HORIZONTAL_VELOCITY: i64 = 250_000;

/// Cap on the magnitude of a body's vertical velocity.
pub const MAX_VERTICAL_VELOCITY: i64 = 980_000;

/// Milli-units per world unit; also milliseconds per second, so that
/// `velocity * dt / SCALE` is a displacement in milli-units.
pub const SCALE: i64 = 1_000;

/// Bound on coordinate magnitudes the physics functions accept; generous
/// enough for any playable level while keeping every intermediate sum
/// far from `i64` overflow.
pub const POSITION_LIMIT: i64 = 0x1000_0000_0000;

/// Bound on body extents.
pub const SIZE_LIMIT: i64 = 0x1_0000_0000;

/// Bound on a frame delta in milliseconds.
pub const DT_LIMIT: u32 = 1_000_000;

/// Which way gravity pulls.
#[derive(Clone, Copy, Debug, PartialEq, Eq, Structural)]
pub enum GravityDirection {
    Down,
    Up,
}

/// The process-wide gravity field, passed explicitly into every physics
/// step that reads it.
#[derive(Clone, Copy, Debug, PartialEq, Eq, Structural)]
pub struct Gravity(pub GravityDirection);

/// A body's velocity, milli-units per second per axis.
#[derive(Clone, Copy, Debug, PartialEq, Eq, Structural)]
pub struct Velocity {
    pub x: i64,
    pub y: i64,
}

/// A body's axis-aligned extent, in milli-units.
#[derive(Clone, Copy, Debug, PartialEq, Eq, Structural)]
pub struct EntitySize {
    pub width: i64,
    pub height: i64,
}

/// A point in the world, in milli-units.
#[derive(Clone, Copy, Debug, PartialEq, Eq, Structural)]
pub struct Position {
    pub x: i64,
    pub y: i64,
}

/// A simulated object: position, velocity and axis-aligned size.
#[derive(Clone, Copy, Debug, PartialEq, Eq, Structural)]
pub struct Body {
    pub position: Position,
    pub velocity: Velocity,
    pub size: EntitySize,
}

/// The direction opposite to `d`.
pub open spec fn toggled(d: GravityDirection) -> GravityDirection {
    match d {
        GravityDirection::Down => GravityDirection::Up,
        GravityDirection::Up => GravityDirection::Down,
    }
}

/// Flipping the gravity direction twice returns it to its original value.
pub proof fn lemma_toggle_involution(d: GravityDirection)
    ensures
        toggled(toggled(d)) == d,
{
}

/// Flips the gravity field on an edge-triggered flip event. The caller
/// derives `just_pressed` from an edge detector (see `input::KeyTracker`)
/// so that a key held across frames fires at most once, and applies any
/// policy on when a flip is allowed (such as only while grounded) before
/// calling.
pub fn flip_gravity(gravity: &mut Gravity, just_pressed: bool)
    ensures
        final(gravity).0 == if just_pressed {
            toggled(old(gravity).0)
        } else {
            old(gravity).0
        },
{
    if just_pressed {
        match gravity.0 {
            GravityDirection::Down => {
                gravity.0 = GravityDirection::Up;
            }
            GravityDirection::Up => {
                gravity.0 = GravityDirection::Down;
            }
        }
    }
}

/// Velocity magnitudes per axis stay within the configured caps; this is
/// re-established by every function that writes a velocity.
pub open spec fn valid_velocity(v: Velocity) -> bool {
    &&& -MAX_HORIZONTAL_VELOCITY <= v.x <= MAX_HORIZONTAL_VELOCITY
    &&& -MAX_VERTICAL_VELOCITY <= v.y <= MAX_VERTICAL_VELOCITY
}

/// Extents are non-negative and bounded.
pub open spec fn valid_size(s: EntitySize) -> bool {
    &&& 0 <= s.width <= SIZE_LIMIT
    &&& 0 <= s.height <= SIZE_LIMIT
}

/// Coordinates stay within the configured bound.
pub open spec fn valid_position(p: Position) -> bool {
    &&& -POSITION_LIMIT <= p.x <= POSITION_LIMIT
    &&& -POSITION_LIMIT <= p.y <= POSITION_LIMIT
}

/// Well-formedness of a body: bounded coordinates, clamped velocity,
/// non-negative bounded extent.
pub open spec fn valid_body(b: Body) -> bool {
    &&& valid_position(b.position)
    &&& valid_velocity(b.velocity)
    &&& valid_size(b.size)
}

/// A body's vertical velocity after one frame of gravity: the pull is
/// added toward the gravity direction, then the magnitude is clamped to
/// `MAX_VERTICAL_VELOCITY` on the side the pull drives it toward.
pub open spec fn pulled_vy(vy: int, d: GravityDirection) -> int {
    match d {
        GravityDirection::Down => {
            if vy - GRAVITY < -MAX_VERTICAL_VELOCITY {
                -MAX_VERTICAL_VELOCITY as int
            } else {
                vy - GRAVITY
            }
        }
        GravityDirection::Up => {
            if vy + GRAVITY > MAX_VERTICAL_VELOCITY {
                MAX_VERTICAL_VELOCITY as int
            } else {
                vy + GRAVITY
            }
        }
    }
}

/// Applies one frame of gravity to the vertical velocity of every body.
/// Positions, sizes and horizontal velocities are untouched, and every
/// resulting vertical speed is within the vertical cap.
pub fn gravitational_pull(bodies: &mut Vec<Body>, gravity: &Gravity)
    requires
        forall|i: int|
            0 <= i < old(bodies)@.len() ==> valid_velocity(#[trigger] old(bodies)@[i].velocity),
    ensures
        final(bodies)@.len() == old(bodies)@.len(),
        forall|i: int| 0 <= i < old(bodies)@.len() ==> {
            let b = #[trigger] final(bodies)@[i];
            &&& b.position == old(bodies)@[i].position
            &&& b.size == old(bodies)@[i].size
            &&& b.velocity.x == old(bodies)@[i].velocity.x
            &&& b.velocity.y == pulled_vy(old(bodies)@[i].velocity.y as int, gravity.0)
        },
        forall|i: int| 0 <= i < final(bodies)@.len() ==> valid_velocity(
            #[trigger] final(bodies)@[i].velocity,
        ),
{
    let n = bodies.len();
    for i in 0..n
        invariant
            n == bodies@.len() == old(bodies)@.len(),
            forall|k: int|
                0 <= k < n ==> valid_velocity(#[trigger] old(bodies)@[k].velocity),
            forall|k: int| i <= k < n ==> #[trigger] bodies@[k] == old(bodies)@[k],
            forall|k: int| 0 <= k < i ==> {
                let b = #[trigger] bodies@[k];
                &&& b.position == old(bodies)@[k].position
                &&& b.size == old(bodies)@[k].size
                &&& b.velocity.x == old(bodies)@[k].velocity.x
                &&& b.velocity.y == pulled_vy(old(bodies)@[k].velocity.y as int, gravity.0)
                &&& valid_velocity(b.velocity)
            },
    {
        let vy = bodies[i].velocity.y;
        let new_vy: i64 = match gravity.0 {
            GravityDirection::Down => {
                let pulled = vy - GRAVITY;
                if pulled < -MAX_VERTICAL_VELOCITY {
                    -MAX_VERTICAL_VELOCITY
                } else {
                    pulled
                }
            }
            GravityDirection::Up => {
                let pulled = vy + GRAVITY;
                if pulled > MAX_VERTICAL_VELOCITY {
                    MAX_VERTICAL_VELOCITY
                } else {
                    pulled
                }
            }
        };
        let body = &mut bodies[i];
        body.velocity.y = new_vy;
    }
}

/// Truncating division, the semantics of `/` on `i64`: the quotient is
/// rounded toward zero.
pub open spec fn div_trunc(a: int, d: int) -> int {
    if a >= 0 {
        a / d
    } else {
        -((-a) / d)
    }
}

/// One frame's displacement for a velocity `v` (milli-units per second)
/// over `dt` milliseconds, in milli-units.
pub open spec fn spec_disp(v: int, dt: int) -> int {
    div_trunc(v * dt, SCALE as int)
}

/// Computes one frame's displacement `spec_disp(v, dt)`.
pub fn disp(v: i64, dt: u32) -> (r: i64)
    requires
        -1_000_000 <= v <= 1_000_000,
        dt <= DT_LIMIT,
    ensures
        r == spec_disp(v as int, dt as int),
        -1_000_000_000 <= r <= 1_000_000_000,
{
    proof {
        assert(-1_000_000_000_000 <= v as int * (dt as int) <= 1_000_000_000_000)
            by (nonlinear_arith)
            requires
                -1_000_000 <= v <= 1_000_000,
                0 <= dt <= 1_000_000,
        ;
    }
    v * (dt as i64) / SCALE
}

/// The body's left edge.
pub open spec fn body_low_x(b: Body) -> int {
    b.position.x - b.size.width / 2
}

/// The body's right edge.
pub open spec fn body_high_x(b: Body) -> int {
    b.position.x + b.size.width / 2
}

/// The body's bottom edge.
pub open spec fn body_low_y(b: Body) -> int {
    b.position.y - b.size.height / 2
}

/// The body's top edge.
pub open spec fn body_high_y(b: Body) -> int {
    b.position.y + b.size.height / 2
}

/// The body sits entirely on or above the platform's top edge.
pub open spec fn above(b: Body, p: Platform) -> bool {
    body_low_y(b) >= p.highy
}

/// The body sits entirely on or below the platform's bottom edge.
pub open spec fn below(b: Body, p: Platform) -> bool {
    body_high_y(b) <= p.lowy
}

/// The body sits entirely on or left of the platform's left edge.
pub open spec fn left_of(b: Body, p: Platform) -> bool {
    body_high_x(b) <= p.lowx
}

/// The body sits entirely on or right of the platform's right edge.
pub open spec fn right_of(b: Body, p: Platform) -> bool {
    body_low_x(b) >= p.highx
}

/// The body's projected bottom edge would end up under the platform's top.
pub open spec fn crosses_top(b: Body, p: Platform, dt: int) -> bool {
    body_low_y(b) + spec_disp(b.velocity.y as int, dt) < p.highy
}

/// The body's projected top edge would end up over the platform's bottom.
pub open spec fn crosses_bottom(b: Body, p: Platform, dt: int) -> bool {
    body_high_y(b) + spec_disp(b.velocity.y as int, dt) > p.lowy
}

/// The body's projected right edge would end up past the platform's left.
pub open spec fn crosses_left_edge(b: Body, p: Platform, dt: int) -> bool {
    body_high_x(b) + spec_disp(b.velocity.x as int, dt) > p.lowx
}

/// The body's projected left edge would end up past the platform's right.
pub open spec fn crosses_right_edge(b: Body, p: Platform, dt: int) -> bool {
    body_low_x(b) + spec_disp(b.velocity.x as int, dt) < p.highx
}

/// The body approaches the platform diagonally across one of its corners
/// and both projected edges would penetrate: both velocity components are
/// zeroed so the body cannot slip through the corner.
pub open spec fn corner_hit(b: Body, p: Platform, dt: int) -> bool {
    ||| above(b, p) && left_of(b, p) && crosses_top(b, p, dt) && crosses_left_edge(b, p, dt)
    ||| above(b, p) && right_of(b, p) && crosses_top(b, p, dt) && crosses_right_edge(b, p, dt)
    ||| below(b, p) && left_of(b, p) && crosses_bottom(b, p, dt) && crosses_left_edge(b, p, dt)
    ||| below(b, p) && right_of(b, p) && crosses_bottom(b, p, dt) && crosses_right_edge(b, p, dt)
}

/// The platform blocks the body's vertical motion this frame.
pub open spec fn blocks_vertical(b: Body, p: Platform, dt: int) -> bool {
    ||| above(b, p) && !left_of(b, p) && !right_of(b, p) && crosses_top(b, p, dt)
    ||| below(b, p) && !left_of(b, p) && !right_of(b, p) && crosses_bottom(b, p, dt)
}

/// The platform blocks the body's horizontal motion this frame.
pub open spec fn blocks_horizontal(b: Body, p: Platform, dt: int) -> bool {
    ||| left_of(b, p) && !above(b, p) && !below(b, p) && crosses_left_edge(b, p, dt)
    ||| right_of(b, p) && !above(b, p) && !below(b, p) && crosses_right_edge(b, p, dt)
}

/// The body's velocity after resolving against one platform: each
/// component is zeroed exactly when its motion is blocked, judged on this
/// frame's velocity for both axes. The body is never moved back.
pub open spec fn resolve_velocity(b: Body, p: Platform, dt: int) -> Velocity {
    Velocity {
        x: if blocks_horizontal(b, p, dt) || corner_hit(b, p, dt) {
            0
        } else {
            b.velocity.x
        },
        y: if blocks_vertical(b, p, dt) || corner_hit(b, p, dt) {
            0
        } else {
            b.velocity.y
        },
    }
}

/// The body's velocity after resolving against each platform in order,
/// each step judged on the velocity left by the previous one.
pub open spec fn resolve_against(b: Body, platforms: Seq<Platform>, dt: int) -> Velocity
    decreases platforms.len(),
{
    if platforms.len() == 0 {
        b.velocity
    } else {
        let v1 = resolve_velocity(b, platforms[0], dt);
        resolve_against(
            Body { velocity: v1, ..b },
            platforms.skip(1),
            dt,
        )
    }
}

/// Resolves one body against one platform: zeroes the velocity components
/// whose projected motion would penetrate the platform. Position and size
/// are untouched; this is velocity-clamping collision, not positional
/// correction. A component is only ever kept or zeroed.
pub fn resolve_platform_collision(body: &mut Body, platform: &Platform, dt: u32)
    requires
        valid_body(*old(body)),
        crate::layout::valid_platform(*platform),
        dt <= DT_LIMIT,
    ensures
        final(body).position == old(body).position,
        final(body).size == old(body).size,
        final(body).velocity == resolve_velocity(*old(body), *platform, dt as int),
        final(body).velocity.x == old(body).velocity.x || final(body).velocity.x == 0,
        final(body).velocity.y == old(body).velocity.y || final(body).velocity.y == 0,
        valid_velocity(final(body).velocity),
{
    let lowx = body.position.x - body.size.width / 2;
    let highx = body.position.x + body.size.width / 2;
    let lowy = body.position.y - body.size.height / 2;
    let highy = body.position.y + body.size.height / 2;

    let is_above = lowy >= platform.highy;
    let is_below = highy <= platform.lowy;
    let is_left = highx <= platform.lowx;
    let is_right = lowx >= platform.highx;

    // Both axes are judged on this frame's velocity.
    let dx = disp(body.velocity.x, dt);
    let dy = disp(body.velocity.y, dt);

    let hits_top = lowy + dy < platform.highy;
    let hits_bottom = highy + dy > platform.lowy;
    let hits_left = highx + dx > platform.lowx;
    let hits_right = lowx + dx < platform.highx;

    let corner = (is_above && is_left && hits_top && hits_left) || (is_above && is_right
        && hits_top && hits_right) || (is_below && is_left && hits_bottom && hits_left) || (
    is_below && is_right && hits_bottom && hits_right);

    if (is_above && !is_left && !is_right && hits_top) || (is_below && !is_left && !is_right
        && hits_bottom) || corner {
        body.velocity.y = 0;
    }
    if (is_left && !is_above && !is_below && hits_left) || (is_right && !is_above && !is_below
        && hits_right) || corner {
        body.velocity.x = 0;
    }
}

/// Resolves every body against every platform, in order: for each body,
/// the platforms are applied left to right, each judging the velocity the
/// previous one left. Positions and sizes are untouched and velocities
/// stay within their caps.
pub fn platform_collision(bodies: &mut Vec<Body>, platforms: &Vec<Platform>, dt: u32)
    requires
        dt <= DT_LIMIT,
        forall|i: int| 0 <= i < old(bodies)@.len() ==> valid_body(#[trigger] old(bodies)@[i]),
        forall|j: int|
            0 <= j < platforms@.len() ==> crate::layout::valid_platform(#[trigger] platforms@[j]),
    ensures
        final(bodies)@.len() == old(bodies)@.len(),
        forall|i: int| 0 <= i < old(bodies)@.len() ==> {
            let b = #[trigger] final(bodies)@[i];
            &&& b.position == old(bodies)@[i].position
            &&& b.size == old(bodies)@[i].size
            &&& b.velocity == resolve_against(old(bodies)@[i], platforms@, dt as int)
            &&& valid_velocity(b.velocity)
        },
{
    let n = bodies.len();
    let m = platforms.len();
    for i in 0..n
        invariant
            n == bodies@.len() == old(bodies)@.len(),
            m == platforms@.len(),
            dt <= DT_LIMIT,
            forall|k: int| 0 <= k < n ==> valid_body(#[trigger] old(bodies)@[k]),
            forall|j: int|
                0 <= j < m ==> crate::layout::valid_platform(#[trigger] platforms@[j]),
            forall|k: int| i <= k < n ==> #[trigger] bodies@[k] == old(bodies)@[k],
            forall|k: int| 0 <= k < i ==> {
                let b = #[trigger] bodies@[k];
                &&& b.position == old(bodies)@[k].position
                &&& b.size == old(bodies)@[k].size
                &&& b.velocity == resolve_against(old(bodies)@[k], platforms@, dt as int)
                &&& valid_velocity(b.velocity)
            },
    {
        let ghost b0 = bodies@[i as int];
        let mut b = bodies[i];
        proof {
            assert(platforms@.skip(0) =~= platforms@);
        }
        for j in 0..m
            invariant
                0 <= i < n == bodies@.len(),
                m == platforms@.len(),
                dt <= DT_LIMIT,
                b0 == bodies@[i as int],
                valid_body(b0),
                forall|jj: int|
                    0 <= jj < m ==> crate::layout::valid_platform(#[trigger] platforms@[jj]),
                b.position == b0.position,
                b.size == b0.size,
                valid_body(b),
                resolve_against(b, platforms@.skip(j as int), dt as int) == resolve_against(
                    b0,
                    platforms@,
                    dt as int,
                ),
        {
            let ghost b_prev = b;
            resolve_platform_collision(&mut b, &platforms[j], dt);
            proof {
                let rest = platforms@.skip(j as int);
                assert(rest[0] == platforms@[j as int]);
                assert(rest.skip(1) =~= platforms@.skip(j as int + 1));
                assert(Body { velocity: resolve_velocity(b_prev, platforms@[j as int], dt as int), ..b_prev } == b);
            }
        }
        proof {
            assert(platforms@.skip(m as int) =~= Seq::<Platform>::empty());
        }
        let slot = &mut bodies[i];
        *slot = b;
    }
}

/// The body sits entirely on or above the other body.
pub open spec fn obj_above(b: Body, o: Body) -> bool {
    body_low_y(b) >= body_high_y(o)
}

/// The body sits entirely on or below the other body.
pub open spec fn obj_below(b: Body, o: Body) -> bool {
    body_high_y(b) <= body_low_y(o)
}

/// The body sits entirely on or left of the other body.
pub open spec fn obj_left_of(b: Body, o: Body) -> bool {
    body_high_x(b) <= body_low_x(o)
}

/// The body sits entirely on or right of the other body.
pub open spec fn obj_right_of(b: Body, o: Body) -> bool {
    body_low_x(b) >= body_high_x(o)
}

/// Both bodies move: the body's projected bottom edge would end up under
/// the other's projected top edge.
pub open spec fn obj_crosses_top(b: Body, o: Body, dt: int) -> bool {
    body_low_y(b) + spec_disp(b.velocity.y as int, dt) < body_high_y(o) + spec_disp(
        o.velocity.y as int,
        dt,
    )
}

/// The body's projected top edge would end up over the other's projected
/// bottom edge.
pub open spec fn obj_crosses_bottom(b: Body, o: Body, dt: int) -> bool {
    body_high_y(b) + spec_disp(b.velocity.y as int, dt) > body_low_y(o) + spec_disp(
        o.velocity.y as int,
        dt,
    )
}

/// The body's projected right edge would end up past the other's projected
/// left edge.
pub open spec fn obj_crosses_left_edge(b: Body, o: Body, dt: int) -> bool {
    body_high_x(b) + spec_disp(b.velocity.x as int, dt) > body_low_x(o) + spec_disp(
        o.velocity.x as int,
        dt,
    )
}

/// The body's projected left edge would end up past the other's projected
/// right edge.
pub open spec fn obj_crosses_right_edge(b: Body, o: Body, dt: int) -> bool {
    body_low_x(b) + spec_disp(b.velocity.x as int, dt) < body_high_x(o) + spec_disp(
        o.velocity.x as int,
        dt,
    )
}

/// The body approaches the other body diagonally across a corner and both
/// projected edges would penetrate.
pub open spec fn obj_corner_hit(b: Body, o: Body, dt: int) -> bool {
    ||| obj_above(b, o) && obj_left_of(b, o) && obj_crosses_top(b, o, dt) && obj_crosses_left_edge(
        b,
        o,
        dt,
    )
    ||| obj_above(b, o) && obj_right_of(b, o) && obj_crosses_top(b, o, dt)
        && obj_crosses_right_edge(b, o, dt)
    ||| obj_below(b, o) && obj_left_of(b, o) && obj_crosses_bottom(b, o, dt)
        && obj_crosses_left_edge(b, o, dt)
    ||| obj_below(b, o) && obj_right_of(b, o) && obj_crosses_bottom(b, o, dt)
        && obj_crosses_right_edge(b, o, dt)
}

/// The other body blocks the body's vertical motion this frame.
pub open spec fn obj_blocks_vertical(b: Body, o: Body, dt: int) -> bool {
    ||| obj_above(b, o) && !obj_left_of(b, o) && !obj_right_of(b, o) && obj_crosses_top(b, o, dt)
    ||| obj_below(b, o) && !obj_left_of(b, o) && !obj_right_of(b, o) && obj_crosses_bottom(
        b,
        o,
        dt,
    )
}

/// The other body blocks the body's horizontal motion this frame.
pub open spec fn obj_blocks_horizontal(b: Body, o: Body, dt: int) -> bool {
    ||| obj_left_of(b, o) && !obj_above(b, o) && !obj_below(b, o) && obj_crosses_left_edge(
        b,
        o,
        dt,
    )
    ||| obj_right_of(b, o) && !obj_above(b, o) && !obj_below(b, o) && obj_crosses_right_edge(
        b,
        o,
        dt,
    )
}

/// The pair zeroes the body's horizontal velocity.
pub open spec fn obj_zeroes_x(b: Body, o: Body, dt: int) -> bool {
    obj_blocks_horizontal(b, o, dt) || obj_corner_hit(b, o, dt)
}

/// The pair zeroes the body's vertical velocity.
pub open spec fn obj_zeroes_y(b: Body, o: Body, dt: int) -> bool {
    obj_blocks_vertical(b, o, dt) || obj_corner_hit(b, o, dt)
}

/// Judges one moving body against another moving body: returns whether the
/// pair blocks the body's horizontal and vertical motion this frame, both
/// projected edges including each body's own displacement.
pub fn object_pair_blocks(b: &Body, o: &Body, dt: u32) -> (r: (bool, bool))
    requires
        valid_body(*b),
        valid_body(*o),
        dt <= DT_LIMIT,
    ensures
        r.0 == obj_zeroes_x(*b, *o, dt as int),
        r.1 == obj_zeroes_y(*b, *o, dt as int),
{
    let lowx = b.position.x - b.size.width / 2;
    let highx = b.position.x + b.size.width / 2;
    let lowy = b.position.y - b.size.height / 2;
    let highy = b.position.y + b.size.height / 2;

    let o_lowx = o.position.x - o.size.width / 2;
    let o_highx = o.position.x + o.size.width / 2;
    let o_lowy = o.position.y - o.size.height / 2;
    let o_highy = o.position.y + o.size.height / 2;

    let is_above = lowy >= o_highy;
    let is_below = highy <= o_lowy;
    let is_left = highx <= o_lowx;
    let is_right = lowx >= o_highx;

    let dx = disp(b.velocity.x, dt);
    let dy = disp(b.velocity.y, dt);
    let o_dx = disp(o.velocity.x, dt);
    let o_dy = disp(o.velocity.y, dt);

    let hits_top = lowy + dy < o_highy + o_dy;
    let hits_bottom = highy + dy > o_lowy + o_dy;
    let hits_left = highx + dx > o_lowx + o_dx;
    let hits_right = lowx + dx < o_highx + o_dx;

    let corner = (is_above && is_left && hits_top && hits_left) || (is_above && is_right
        && hits_top && hits_right) || (is_below && is_left && hits_bottom && hits_left) || (
    is_below && is_right && hits_bottom && hits_right);

    let zero_x = (is_left && !is_above && !is_below && hits_left) || (is_right && !is_above
        && !is_below && hits_right) || corner;
    let zero_y = (is_above && !is_left && !is_right && hits_top) || (is_below && !is_left
        && !is_right && hits_bottom) || corner;

    (zero_x, zero_y)
}

/// Resolves every body against every other body. Each pair is judged on
/// the velocities the bodies entered the frame with, both displacements
/// counted; a body's component is zeroed exactly when some other body
/// blocks it. A body is never compared with itself.
pub fn object_collision(bodies: &mut Vec<Body>, dt: u32)
    requires
        dt <= DT_LIMIT,
        forall|i: int| 0 <= i < old(bodies)@.len() ==> valid_body(#[trigger] old(bodies)@[i]),
    ensures
        final(bodies)@.len() == old(bodies)@.len(),
        forall|i: int| 0 <= i < old(bodies)@.len() ==> {
            let b = #[trigger] final(bodies)@[i];
            &&& b.position == old(bodies)@[i].position
            &&& b.size == old(bodies)@[i].size
            &&& b.velocity.x == if exists|j: int|
                0 <= j < old(bodies)@.len() && j != i && obj_zeroes_x(
                    old(bodies)@[i],
                    #[trigger] old(bodies)@[j],
                    dt as int,
                ) {
                0
            } else {
                old(bodies)@[i].velocity.x
            }
            &&& b.velocity.y == if exists|j: int|
                0 <= j < old(bodies)@.len() && j != i && obj_zeroes_y(
                    old(bodies)@[i],
                    #[trigger] old(bodies)@[j],
                    dt as int,
                ) {
                0
            } else {
                old(bodies)@[i].velocity.y
            }
            &&& valid_velocity(b.velocity)
        },
{
    let n = bodies.len();
    let mut blocked: Vec<(bool, bool)> = Vec::new();
    for i in 0..n
        invariant
            n == bodies@.len() == old(bodies)@.len(),
            bodies@ == old(bodies)@,
            dt <= DT_LIMIT,
            forall|k: int| 0 <= k < n ==> valid_body(#[trigger] bodies@[k]),
            blocked@.len() == i,
            forall|k: int| 0 <= k < i ==> (#[trigger] blocked@[k]).0 == exists|j: int|
                0 <= j < n && j != k && obj_zeroes_x(bodies@[k], #[trigger] bodies@[j], dt as int),
            forall|k: int| 0 <= k < i ==> (#[trigger] blocked@[k]).1 == exists|j: int|
                0 <= j < n && j != k && obj_zeroes_y(bodies@[k], #[trigger] bodies@[j], dt as int),
    {
        let mut zero_x = false;
        let mut zero_y = false;
        for j in 0..n
            invariant
                0 <= i < n == bodies@.len(),
                dt <= DT_LIMIT,
                forall|k: int| 0 <= k < n ==> valid_body(#[trigger] bodies@[k]),
                zero_x == exists|k: int|
                    0 <= k < j && k != i && obj_zeroes_x(
                        bodies@[i as int],
                        #[trigger] bodies@[k],
                        dt as int,
                    ),
                zero_y == exists|k: int|
                    0 <= k < j && k != i && obj_zeroes_y(
                        bodies@[i as int],
                        #[trigger] bodies@[k],
                        dt as int,
                    ),
        {
            if j != i {
                let (zx, zy) = object_pair_blocks(&bodies[i], &bodies[j], dt);
                zero_x = zero_x || zx;
                zero_y = zero_y || zy;
            }
        }
        blocked.push((zero_x, zero_y));
    }
    for i in 0..n
        invariant
            n == old(bodies)@.len() == bodies@.len(),
            blocked@.len() == n,
            forall|k: int| 0 <= k < n ==> (#[trigger] blocked@[k]).0 == exists|j: int|
                0 <= j < n && j != k && obj_zeroes_x(
                    old(bodies)@[k],
                    #[trigger] old(bodies)@[j],
                    dt as int,
                ),
            forall|k: int| 0 <= k < n ==> (#[trigger] blocked@[k]).1 == exists|j: int|
                0 <= j < n && j != k && obj_zeroes_y(
                    old(bodies)@[k],
                    #[trigger] old(bodies)@[j],
                    dt as int,
                ),
            forall|k: int| 0 <= k < n ==> valid_body(#[trigger] old(bodies)@[k]),
            forall|k: int| i <= k < n ==> #[trigger] bodies@[k] == old(bodies)@[k],
            forall|k: int| 0 <= k < i ==> {
                let b = #[trigger] bodies@[k];
                &&& b.position == old(bodies)@[k].position
                &&& b.size == old(bodies)@[k].size
                &&& b.velocity.x == if blocked@[k].0 {
                    0
                } else {
                    old(bodies)@[k].velocity.x
                }
                &&& b.velocity.y == if blocked@[k].1 {
                    0
                } else {
                    old(bodies)@[k].velocity.y
                }
                &&& valid_velocity(b.velocity)
            },
    {
        let (zx, zy) = blocked[i];
        let body = &mut bodies[i];
        if zx {
            body.velocity.x = 0;
        }
        if zy {
            body.velocity.y = 0;
        }
    }
}

/// A body resting exactly on a platform's top edge, horizontally engaged
/// with it, moving down and projected to cross, has its vertical velocity
/// forced to zero; a second resolver pass on the result leaves it at zero.
pub proof fn lemma_rest_on_top(b: Body, p: Platform, dt: int)
    requires
        body_low_y(b) == p.highy,
        !left_of(b, p),
        !right_of(b, p),
        b.velocity.y < 0,
        crosses_top(b, p, dt),
    ensures
        resolve_velocity(b, p, dt).y == 0,
        resolve_velocity(
            Body { velocity: resolve_velocity(b, p, dt), ..b },
            p,
            dt,
        ).y == 0,
{
}

/// A body approaching a platform corner diagonally, with both projected
/// edges crossing, has both velocity components zeroed in the same pass.
pub proof fn lemma_corner_diagonal(b: Body, p: Platform, dt: int)
    requires
        above(b, p),
        left_of(b, p),
        crosses_top(b, p, dt),
        crosses_left_edge(b, p, dt),
    ensures
        resolve_velocity(b, p, dt).x == 0,
        resolve_velocity(b, p, dt).y == 0,
{
}

/// Advances every body's position by one frame of its velocity:
/// `position += velocity * dt`, per axis. Velocities and sizes are
/// untouched. Pure integration, no failure modes.
pub fn apply_movement(bodies: &mut Vec<Body>, dt: u32)
    requires
        dt <= DT_LIMIT,
        forall|i: int| 0 <= i < old(bodies)@.len() ==> valid_body(#[trigger] old(bodies)@[i]),
    ensures
        final(bodies)@.len() == old(bodies)@.len(),
        forall|i: int| 0 <= i < old(bodies)@.len() ==> {
            let b = #[trigger] final(bodies)@[i];
            &&& b.position.x == old(bodies)@[i].position.x + spec_disp(
                old(bodies)@[i].velocity.x as int,
                dt as int,
            )
            &&& b.position.y == old(bodies)@[i].position.y + spec_disp(
                old(bodies)@[i].velocity.y as int,
                dt as int,
            )
            &&& b.velocity == old(bodies)@[i].velocity
            &&& b.size == old(bodies)@[i].size
        },
{
    let n = bodies.len();
    for i in 0..n
        invariant
            n == bodies@.len() == old(bodies)@.len(),
            dt <= DT_LIMIT,
            forall|k: int| 0 <= k < n ==> valid_body(#[trigger] old(bodies)@[k]),
            forall|k: int| i <= k < n ==> #[trigger] bodies@[k] == old(bodies)@[k],
            forall|k: int| 0 <= k < i ==> {
                let b = #[trigger] bodies@[k];
                &&& b.position.x == old(bodies)@[k].position.x + spec_disp(
                    old(bodies)@[k].velocity.x as int,
                    dt as int,
                )
                &&& b.position.y == old(bodies)@[k].position.y + spec_disp(
                    old(bodies)@[k].velocity.y as int,
                    dt as int,
                )
                &&& b.velocity == old(bodies)@[k].velocity
                &&& b.size == old(bodies)@[k].size
            },
    {
        let dx = disp(bodies[i].velocity.x, dt);
        let dy = disp(bodies[i].velocity.y, dt);
        let body = &mut bodies[i];
        body.position.x = body.position.x + dx;
        body.position.y = body.position.y + dy;
    }
}

} // verus!
