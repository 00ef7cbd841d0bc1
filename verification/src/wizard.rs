//! The player body: horizontal input handling, the airborne test, the
//! out-of-bounds predicate, and spawn/despawn with reset state.

use vstd::prelude::*;

use crate::physics::Body;
use crate::physics::EntitySize;
use crate::physics::Gravity;
use crate::physics::GravityDirection;
use crate::physics::HORIZONTAL_ACCELERATION;
use crate::physics::MAX_HORIZONTAL_VELOCITY;
use crate::physics::POSITION_LIMIT;
use crate::physics::Position;
use crate::physics::Velocity;
use crate::physics::valid_body;

verus! {

/// Side length of the player's square body, in milli-units.
pub const WIZARD_SIZE: i64 = 20_000;

/// The player: a single distinguished body.
#[derive(Clone, Copy, Debug, PartialEq, Eq, Structural)]
pub struct Wizard {
    pub body: Body,
}

/// A body's horizontal velocity after one frame of input, before
/// clamping. Held input accelerates toward the held side, twice as hard
/// when braking out of opposite motion; with no (or contradictory) input
/// the speed decays toward zero by one acceleration step.
pub open spec fn accelerated_vx(vx: int, left: bool, right: bool) -> int {
    if left && !right {
        if vx > 0 {
            vx - 2 * HORIZONTAL_ACCELERATION
        } else {
            vx - HORIZONTAL_ACCELERATION
        }
    } else if right && !left {
        if vx < 0 {
            vx + 2 * HORIZONTAL_ACCELERATION
        } else {
            vx + HORIZONTAL_ACCELERATION
        }
    } else {
        if vx > 0 {
            vx - HORIZONTAL_ACCELERATION
        } else if vx < 0 {
            vx + HORIZONTAL_ACCELERATION
        } else {
            vx
        }
    }
}

/// `vx` clamped to the horizontal cap.
pub open spec fn clamped_vx(vx: int) -> int {
    if vx > MAX_HORIZONTAL_VELOCITY {
        MAX_HORIZONTAL_VELOCITY as int
    } else if vx < -MAX_HORIZONTAL_VELOCITY {
        -MAX_HORIZONTAL_VELOCITY as int
    } else {
        vx
    }
}

/// Applies one frame of horizontal input to the player's velocity:
/// accelerate toward the held direction (or decay toward rest), then
/// clamp the magnitude to `MAX_HORIZONTAL_VELOCITY`.
pub fn wizard_input(velocity: &mut Velocity, left: bool, right: bool)
    requires
        -MAX_HORIZONTAL_VELOCITY <= old(velocity).x <= MAX_HORIZONTAL_VELOCITY,
    ensures
        final(velocity).x == clamped_vx(accelerated_vx(old(velocity).x as int, left, right)),
        final(velocity).y == old(velocity).y,
        -MAX_HORIZONTAL_VELOCITY <= final(velocity).x <= MAX_HORIZONTAL_VELOCITY,
{
    let vx = velocity.x;
    let mut accelerated: i64 = if left && !right {
        if vx > 0 {
            vx - 2 * HORIZONTAL_ACCELERATION
        } else {
            vx - HORIZONTAL_ACCELERATION
        }
    } else if right && !left {
        if vx < 0 {
            vx + 2 * HORIZONTAL_ACCELERATION
        } else {
            vx + HORIZONTAL_ACCELERATION
        }
    } else {
        if vx > 0 {
            vx - HORIZONTAL_ACCELERATION
        } else if vx < 0 {
            vx + HORIZONTAL_ACCELERATION
        } else {
            vx
        }
    };
    if accelerated > MAX_HORIZONTAL_VELOCITY {
        accelerated = MAX_HORIZONTAL_VELOCITY;
    } else if accelerated < -MAX_HORIZONTAL_VELOCITY {
        accelerated = -MAX_HORIZONTAL_VELOCITY;
    }
    velocity.x = accelerated;
}

/// A body is airborne exactly when its vertical velocity is non-zero.
pub fn in_air(velocity: &Velocity) -> (r: bool)
    ensures
        r == (velocity.y != 0),
{
    velocity.y != 0
}

/// A body has left the viewport: some edge of its box has crossed the
/// corresponding viewport edge (left under zero, right past the width,
/// bottom under zero, top past the height).
pub open spec fn spec_out_of_screen(b: Body, width: int, height: int) -> bool {
    ||| crate::physics::body_low_x(b) < 0
    ||| crate::physics::body_high_x(b) > width
    ||| crate::physics::body_low_y(b) < 0
    ||| crate::physics::body_high_y(b) > height
}

/// Decides whether the body has left a viewport of the given size; a true
/// result triggers despawn and respawn with reset state.
pub fn out_of_screen(body: &Body, width: i64, height: i64) -> (r: bool)
    requires
        valid_body(*body),
        0 <= width <= POSITION_LIMIT,
        0 <= height <= POSITION_LIMIT,
    ensures
        r == spec_out_of_screen(*body, width as int, height as int),
{
    let lowx = body.position.x - body.size.width / 2;
    let highx = body.position.x + body.size.width / 2;
    let lowy = body.position.y - body.size.height / 2;
    let highy = body.position.y + body.size.height / 2;
    lowx < 0 || highx > width || lowy < 0 || highy > height
}

/// Spawns the player near the lower left of a viewport of the given size,
/// at rest, and resets gravity to pull down.
pub fn spawn_wizard(window_width: i64, window_height: i64, gravity: &mut Gravity) -> (w: Wizard)
    requires
        0 <= window_width <= POSITION_LIMIT,
        0 <= window_height <= POSITION_LIMIT,
    ensures
        final(gravity).0 == GravityDirection::Down,
        w.body.position.x == window_width as int / 6,
        w.body.position.y == window_height as int / 5,
        w.body.velocity == (Velocity { x: 0, y: 0 }),
        w.body.size == (EntitySize { width: WIZARD_SIZE, height: WIZARD_SIZE }),
        valid_body(w.body),
{
    gravity.0 = GravityDirection::Down;
    Wizard {
        body: Body {
            position: Position { x: window_width / 6, y: window_height / 5 },
            velocity: Velocity { x: 0, y: 0 },
            size: EntitySize { width: WIZARD_SIZE, height: WIZARD_SIZE },
        },
    }
}

/// Removes the player body; the caller respawns it with `spawn_wizard`,
/// which also resets gravity.
pub fn despawn_wizard(wizard: &mut Option<Wizard>)
    ensures
        *final(wizard) is None,
{
    *wizard = None;
}

} // verus!
