//! The camera pose: position, pitch and yaw, and the aspect ratio of the
//! render target.
//!
//! All quantities are fixed-point integers in micro-units (one millionth
//! of a world unit or radian), so that integration is exact and
//! deterministic. The GPU-side float record is built outside the library
//! from these values.

use vstd::prelude::*;

verus! {

/// One micro-unit scale: fixed-point values count millionths.
pub const FP_ONE: i64 = 1_000_000;

/// Rotation gained per unit of raw pointer motion, in micro-radians
/// (a sensitivity of one thousandth of a radian).
pub const MOUSE_SENSITIVITY: i64 = 1_000;

/// Largest magnitude of a single pointer-motion delta the integrator
/// accepts; far beyond any physical device report.
pub const MOUSE_DELTA_LIMIT: i64 = 0x1_0000_0000;

/// Largest rotation magnitude the integrator accepts, in micro-radians.
pub const ROTATION_LIMIT: i64 = 0x1000_0000_0000_0000;

/// Largest position magnitude the integrator accepts, in micro-units.
pub const POSITION_LIMIT: i64 = 0x80_0000_0000_0000;

/// Largest velocity magnitude the integrator accepts, in micro-units
/// per second.
pub const VELOCITY_LIMIT: i64 = 8_000_000;

/// Largest elapsed time one tick may integrate, in microseconds
/// (one hour).
pub const ELAPSED_LIMIT: u64 = 3_600_000_000;

/// A three-component fixed-point vector, in micro-units.
#[derive(Clone, Copy, PartialEq, Eq, Structural, Debug)]
pub struct Vec3 {
    pub x: i64,
    pub y: i64,
    pub z: i64,
}

impl Vec3 {
    /// A vector from its three components.
    pub fn new(x: i64, y: i64, z: i64) -> (v: Vec3)
        ensures
            v == (Vec3 { x, y, z }),
    {
        Vec3 { x, y, z }
    }
}

/// A two-component fixed-point vector, in micro-units.
#[derive(Clone, Copy, PartialEq, Eq, Structural, Debug)]
pub struct Vec2 {
    pub x: i64,
    pub y: i64,
}

impl Vec2 {
    /// A vector from its two components.
    pub fn new(x: i64, y: i64) -> (v: Vec2)
        ensures
            v == (Vec2 { x, y }),
    {
        Vec2 { x, y }
    }
}

/// The camera pose. `rotation.x` is pitch and `rotation.y` is yaw, both
/// in micro-radians; pitch is never clamped, so the view may flip past
/// vertical, exactly as the pose is accumulated. The aspect ratio is
/// kept as the height and width it is derived from.
#[derive(Clone, Copy, PartialEq, Eq, Structural, Debug)]
pub struct Camera {
    pub position: Vec3,
    pub rotation: Vec2,
    pub aspect_h: u32,
    pub aspect_w: u32,
}

/// A velocity scaled by elapsed microseconds: `v * dt / 1_000_000`,
/// truncated toward zero.
pub open spec fn spec_scaled(v: int, dt: int) -> int {
    if v >= 0 {
        v * dt / 1_000_000
    } else {
        -((-v) * dt / 1_000_000)
    }
}

impl Camera {
    /// A camera from a pose and the render-target size its aspect ratio
    /// comes from.
    pub fn new(position: Vec3, rotation: Vec2, aspect_h: u32, aspect_w: u32) -> (c: Camera)
        ensures
            c == (Camera { position, rotation, aspect_h, aspect_w }),
    {
        Camera { position, rotation, aspect_h, aspect_w }
    }

    /// Turns the camera by one raw pointer-motion delta: pitch follows
    /// the vertical motion and yaw follows the horizontal motion
    /// mirrored, each scaled by the fixed sensitivity, independent of
    /// elapsed time.
    pub fn rotate_by(&mut self, dx: i64, dy: i64)
        requires
            -MOUSE_DELTA_LIMIT <= dx <= MOUSE_DELTA_LIMIT,
            -MOUSE_DELTA_LIMIT <= dy <= MOUSE_DELTA_LIMIT,
            -ROTATION_LIMIT <= old(self).rotation.x <= ROTATION_LIMIT,
            -ROTATION_LIMIT <= old(self).rotation.y <= ROTATION_LIMIT,
        ensures
            final(self).rotation.x == old(self).rotation.x + dy * MOUSE_SENSITIVITY,
            final(self).rotation.y == old(self).rotation.y - dx * MOUSE_SENSITIVITY,
            final(self).position == old(self).position,
            final(self).aspect_h == old(self).aspect_h,
            final(self).aspect_w == old(self).aspect_w,
    {
        self.rotation.x = self.rotation.x + dy * MOUSE_SENSITIVITY;
        self.rotation.y = self.rotation.y - dx * MOUSE_SENSITIVITY;
    }

    /// Moves the camera by a velocity over an elapsed time: each
    /// component advances by `v * dt / 1_000_000`, truncated toward
    /// zero. Rotation and aspect ratio are untouched.
    pub fn advance(&mut self, vx: i64, vy: i64, vz: i64, elapsed_micros: u64)
        requires
            -VELOCITY_LIMIT <= vx <= VELOCITY_LIMIT,
            -VELOCITY_LIMIT <= vy <= VELOCITY_LIMIT,
            -VELOCITY_LIMIT <= vz <= VELOCITY_LIMIT,
            elapsed_micros <= ELAPSED_LIMIT,
            -POSITION_LIMIT <= old(self).position.x <= POSITION_LIMIT,
            -POSITION_LIMIT <= old(self).position.y <= POSITION_LIMIT,
            -POSITION_LIMIT <= old(self).position.z <= POSITION_LIMIT,
        ensures
            final(self).position.x == old(self).position.x + spec_scaled(
                vx as int,
                elapsed_micros as int,
            ),
            final(self).position.y == old(self).position.y + spec_scaled(
                vy as int,
                elapsed_micros as int,
            ),
            final(self).position.z == old(self).position.z + spec_scaled(
                vz as int,
                elapsed_micros as int,
            ),
            final(self).rotation == old(self).rotation,
            final(self).aspect_h == old(self).aspect_h,
            final(self).aspect_w == old(self).aspect_w,
    {
        self.position.x = self.position.x + scaled(vx, elapsed_micros);
        self.position.y = self.position.y + scaled(vy, elapsed_micros);
        self.position.z = self.position.z + scaled(vz, elapsed_micros);
    }
}

/// One velocity component scaled by elapsed microseconds, truncated
/// toward zero.
fn scaled(v: i64, dt: u64) -> (r: i64)
    requires
        -VELOCITY_LIMIT <= v <= VELOCITY_LIMIT,
        dt <= ELAPSED_LIMIT,
    ensures
        r == spec_scaled(v as int, dt as int),
        -VELOCITY_LIMIT * ELAPSED_LIMIT <= r <= VELOCITY_LIMIT * ELAPSED_LIMIT,
{
    let m: u64 = if v >= 0 {
        v as u64
    } else {
        (-v) as u64
    };
    proof {
        assert(m * dt <= VELOCITY_LIMIT * ELAPSED_LIMIT) by (nonlinear_arith)
            requires
                m <= VELOCITY_LIMIT,
                dt <= ELAPSED_LIMIT,
        ;
        assert(m * dt / 1_000_000 <= m * dt);
    }
    let d: u64 = (m * dt) / 1_000_000;
    if v >= 0 {
        d as i64
    } else {
        -(d as i64)
    }
}

} // verus!
