//! A mass node of the cloth: current, previous and anchor position, the
//! two constraint slots, and the pin flag.
//!
//! Integration is semi-implicit Verlet with a uniform velocity damping of
//! `1 - 0.05`, carried here as the per-mille factor `KEEP_PER_MILLE`.

use vstd::prelude::*;
use crate::math::{Vector2, MAX_COORD, clamp_spec, tdiv, in_box, clamp_coord, tdiv128};

verus! {

/// Downward gravity, in ticks per second squared (981 length units).
pub const GRAVITY_Y: i64 = 981_000;

/// Velocity kept per frame, in per-mille (damping factor `1 - 0.05`).
pub const KEEP_PER_MILLE: i64 = 950;

/// Largest accepted frame time-delta, in ticks of a second (10 seconds).
pub const MAX_DT: i64 = 10_000;

/// Bound on each axis of an applied force, in ticks per second squared.
pub const FORCE_MAX: i64 = 20_000_000_000;

/// One Verlet step of a single coordinate:
/// `pos + (pos - prev)·0.95 + accel·0.95·dt²`, with every division
/// truncating toward zero and the result saturated into the world box.
pub open spec fn verlet_coord(pos: int, prev: int, accel: int, dt: int) -> int {
    clamp_spec(
        pos + tdiv((pos - prev) * 950, 1000) + tdiv(accel * 950 * dt * dt, 1_000_000_000),
    )
}

/// Executable Verlet step of a single coordinate.
pub fn verlet_step(pos: i64, prev: i64, accel: i64, dt: i64) -> (r: i64)
    requires
        -MAX_COORD <= pos <= MAX_COORD,
        -MAX_COORD <= prev <= MAX_COORD,
        -FORCE_MAX <= accel <= FORCE_MAX,
        0 <= dt <= MAX_DT,
    ensures
        r == verlet_coord(pos as int, prev as int, accel as int, dt as int),
{
    let vel: i128 = ((pos as i128) - (prev as i128)) * 950;
    let vel_term: i128 = tdiv128(vel, 1000);
    let acc1: i128 = (accel as i128) * 950;
    proof {
        assert(-19_000_000_000_000_000_000_000
            <= (acc1 as int) * (dt as int) * (dt as int)
            <= 19_000_000_000_000_000_000_000
            && -1_900_000_000_000_000_000
            <= (acc1 as int) * (dt as int)
            <= 1_900_000_000_000_000_000) by (nonlinear_arith)
            requires
                -19_000_000_000_000 <= acc1 <= 19_000_000_000_000,
                0 <= dt <= 10_000,
        ;
    }
    let acc2: i128 = acc1 * (dt as i128);
    let acc3: i128 = acc2 * (dt as i128);
    let acc_term: i128 = tdiv128(acc3, 1_000_000_000);
    clamp_coord((pos as i128) + vel_term + acc_term)
}

/// A mass node of the cloth grid.
#[derive(Clone, Copy, PartialEq, Eq, Debug)]
pub struct Point {
    /// Where the node is now.
    pub position: Vector2,
    /// Where the node was one frame ago; the difference carries velocity.
    pub prev_position: Vector2,
    /// The anchor fixed at creation; pinned nodes snap back to it.
    pub initial_position: Vector2,
    /// Index of the registered horizontal constraint, if any.
    pub stick_h: Option<usize>,
    /// Index of the registered vertical constraint, if any.
    pub stick_v: Option<usize>,
    /// A pinned node never integrates; it returns to its anchor.
    pub pinned: bool,
}

/// Phase-1 integration of one point: a pinned point snaps to its anchor,
/// any other moves by one Verlet step under the applied force.
pub open spec fn integrate_spec(p: Point, fx: int, fy: int, dt: int) -> Point {
    if p.pinned {
        Point { position: p.initial_position, ..p }
    } else {
        Point {
            position: Vector2 {
                x: verlet_coord(p.position.x as int, p.prev_position.x as int, fx, dt) as i64,
                y: verlet_coord(p.position.y as int, p.prev_position.y as int, fy, dt) as i64,
            },
            prev_position: p.position,
            ..p
        }
    }
}

impl Point {
    /// A fresh unpinned node at `position`, with no registered sticks.
    pub fn new(position: Vector2) -> (r: Self)
        ensures
            r == (Point {
                position,
                prev_position: position,
                initial_position: position,
                stick_h: None,
                stick_v: None,
                pinned: false,
            }),
    {
        Point {
            position,
            prev_position: position,
            initial_position: position,
            stick_h: None,
            stick_v: None,
            pinned: false,
        }
    }

    /// Freeze the node at its anchor.
    pub fn pin(&mut self)
        ensures
            *final(self) == (Point { pinned: true, ..*old(self) }),
    {
        self.pinned = true;
    }

    /// Register stick `index` in slot 0 (horizontal) or slot 1 (vertical),
    /// overwriting whatever the slot held.
    pub fn add_stick(&mut self, index: usize, slot: usize)
        requires
            slot < 2,
        ensures
            slot == 0 ==> *final(self) == (Point { stick_h: Some(index), ..*old(self) }),
            slot == 1 ==> *final(self) == (Point { stick_v: Some(index), ..*old(self) }),
    {
        if slot == 0 {
            self.stick_h = Some(index);
        } else {
            self.stick_v = Some(index);
        }
    }

    /// Integrate one frame under force `(fx, fy)`.
    pub fn update(&mut self, dt: i64, fx: i64, fy: i64)
        requires
            in_box(old(self).position),
            in_box(old(self).prev_position),
            -FORCE_MAX <= fx <= FORCE_MAX,
            -FORCE_MAX <= fy <= FORCE_MAX,
            0 <= dt <= MAX_DT,
        ensures
            *final(self) == integrate_spec(*old(self), fx as int, fy as int, dt as int),
    {
        if self.pinned {
            self.position = self.initial_position;
            return;
        }
        let nx = verlet_step(self.position.x, self.prev_position.x, fx, dt);
        let ny = verlet_step(self.position.y, self.prev_position.y, fy, dt);
        self.prev_position = self.position;
        self.position = Vector2 { x: nx, y: ny };
    }
}

impl Default for Point {
    /// A fresh node at the origin.
    fn default() -> (r: Self)
        ensures
            r == (Point {
                position: Vector2 { x: 0, y: 0 },
                prev_position: Vector2 { x: 0, y: 0 },
                initial_position: Vector2 { x: 0, y: 0 },
                stick_h: None,
                stick_v: None,
                pinned: false,
            }),
    {
        Point::new(Vector2 { x: 0, y: 0 })
    }
}

} // verus!
