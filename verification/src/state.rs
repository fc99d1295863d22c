//! The frame orchestrator: owns the voxel world, the camera pose and the
//! key state, consumes input events, runs one update per tick, and
//! decides how each frame's acquire outcome is handled — reconfigure on
//! a lost surface, exit on out-of-memory, skip on any other transient
//! failure.
//!
//! GPU submission and windowing stay outside the library: the event loop
//! hands events and per-frame outcomes in, and takes the serialized
//! world, the camera pose and a frame directive back.

use vstd::prelude::*;
use vstd::arithmetic::div_mod::lemma_div_multiples_vanish;
use crate::camera::Camera;
use crate::camera::Vec2;
use crate::camera::Vec3;
use crate::camera::spec_scaled;
use crate::camera::ELAPSED_LIMIT;
use crate::camera::FP_ONE;
use crate::camera::MOUSE_DELTA_LIMIT;
use crate::camera::MOUSE_SENSITIVITY;
use crate::camera::POSITION_LIMIT;
use crate::camera::ROTATION_LIMIT;
use crate::input::KeyState;
use crate::input::spec_down_held;
use crate::input::spec_down_pressed;
use crate::input::spec_up_held;
use crate::input::KEY_A;
use crate::input::KEY_D;
use crate::input::KEY_E;
use crate::input::KEY_ESCAPE;
use crate::input::KEY_LSHIFT;
use crate::input::KEY_S;
use crate::input::KEY_SPACE;
use crate::input::KEY_W;
use crate::rng::gen_range_i32;
use crate::rng::new_thread_rng;
use crate::voxel::pack_rgba;
use crate::voxel::Voxel;
use crate::world::spec_serialize;
use crate::world::spec_world_set;
use crate::world::Cell;
use crate::world::World;

verus! {

/// Largest accumulated animation time the updater accepts, in
/// microseconds; far beyond any realistic run.
pub const CUBE_CLOCK_LIMIT: u64 = 0x4_0000_0000_0000;

/// Coordinates drawn for the random world edit lie in this half-open
/// range on each axis.
pub const RANDOM_COORD_MIN: i32 = -64;

pub const RANDOM_COORD_MAX: i32 = 64;

/// An input event, as the windowing layer reports it: raw relative
/// pointer motion, or a key transition with the key's identifier.
#[derive(Clone, Copy, PartialEq, Eq, Structural, Debug)]
pub enum InputEvent {
    MouseMotion { dx: i64, dy: i64 },
    KeyPressed { key: u32 },
    KeyReleased { key: u32 },
}

/// The outcome of asking the surface for the next presentable target.
#[derive(Clone, Copy, PartialEq, Eq, Structural, Debug)]
pub enum AcquireOutcome {
    /// A target was acquired and the frame was presented.
    Acquired,
    /// The surface was lost and must be reconfigured.
    Lost,
    /// The device is out of memory; only this ends the run by design.
    OutOfMemory,
    /// Any other transient error; the frame is skipped.
    Other,
}

/// What the run loop must do after a frame's acquire outcome.
#[derive(Clone, Copy, PartialEq, Eq, Structural, Debug)]
pub enum FrameDirective {
    /// The frame went through; carry on.
    Proceed,
    /// Reconfigure the surface with the last known size, then carry on.
    Reconfigure,
    /// Skip this frame and carry on.
    Skip,
    /// Terminate the run loop.
    Exit,
}

/// The directive each acquire outcome maps to.
pub open spec fn spec_directive(o: AcquireOutcome) -> FrameDirective {
    match o {
        AcquireOutcome::Acquired => FrameDirective::Proceed,
        AcquireOutcome::Lost => FrameDirective::Reconfigure,
        AcquireOutcome::OutOfMemory => FrameDirective::Exit,
        AcquireOutcome::Other => FrameDirective::Skip,
    }
}

/// The sideways velocity component, in micro-units per second: the
/// strafe keys push along the yaw's cosine and the walk keys along its
/// sine, at unit speed.
pub open spec fn spec_vel_x(held: Seq<u32>, cos_yaw: int, sin_yaw: int) -> int {
    (if held.contains(KEY_D) {
        cos_yaw
    } else {
        0
    }) - (if held.contains(KEY_A) {
        cos_yaw
    } else {
        0
    }) - (if held.contains(KEY_W) {
        sin_yaw
    } else {
        0
    }) + (if held.contains(KEY_S) {
        sin_yaw
    } else {
        0
    })
}

/// The vertical velocity component: rise and sink at unit speed.
pub open spec fn spec_vel_y(held: Seq<u32>) -> int {
    (if held.contains(KEY_SPACE) {
        FP_ONE as int
    } else {
        0
    }) - (if held.contains(KEY_LSHIFT) {
        FP_ONE as int
    } else {
        0
    })
}

/// The forward velocity component, the horizontal-plane complement of
/// `spec_vel_x`.
pub open spec fn spec_vel_z(held: Seq<u32>, cos_yaw: int, sin_yaw: int) -> int {
    (if held.contains(KEY_D) {
        sin_yaw
    } else {
        0
    }) - (if held.contains(KEY_A) {
        sin_yaw
    } else {
        0
    }) + (if held.contains(KEY_W) {
        cos_yaw
    } else {
        0
    }) - (if held.contains(KEY_S) {
        cos_yaw
    } else {
        0
    })
}

/// The world edits one tick performs: the optional random magenta voxel,
/// then the moving cube's trail cleared and its new cells written, in
/// the exact order the updater issues them.
pub open spec fn spec_update_cells(
    s: Seq<Cell>,
    side: u32,
    edit_held: bool,
    rx: int,
    ry: int,
    rz: int,
    cube_x: int,
) -> Seq<Cell> {
    let magenta = pack_rgba(255, 0, 255, 255);
    let green = pack_rgba(156, 200, 120, 255);
    let s0 = if edit_held {
        spec_world_set(s, side, rx, ry, rz, magenta)
    } else {
        s
    };
    let t1 = spec_world_set(s0, side, cube_x - 1, 10, 5, 0);
    let t2 = spec_world_set(t1, side, cube_x - 1, 11, 5, 0);
    let t3 = spec_world_set(t2, side, cube_x - 1, 10, 6, 0);
    let t4 = spec_world_set(t3, side, cube_x - 1, 11, 6, 0);
    let u1 = spec_world_set(t4, side, cube_x, 10, 5, green);
    let u2 = spec_world_set(u1, side, cube_x + 1, 10, 5, green);
    let u3 = spec_world_set(u2, side, cube_x, 11, 5, green);
    let u4 = spec_world_set(u3, side, cube_x + 1, 11, 5, green);
    let u5 = spec_world_set(u4, side, cube_x, 10, 6, green);
    let u6 = spec_world_set(u5, side, cube_x + 1, 10, 6, green);
    let u7 = spec_world_set(u6, side, cube_x, 11, 6, green);
    spec_world_set(u7, side, cube_x + 1, 11, 6, green)
}

/// The orchestrator's state: the world, the camera, the key sets, the
/// surface configuration, the animation clock and the pointer-capture
/// flag.
pub struct State {
    world: World,
    camera: Camera,
    keys: KeyState,
    config_w: u32,
    config_h: u32,
    cube_clock: u64,
    cursor_locked: bool,
}

impl State {
    /// The stored world cells.
    pub closed spec fn cells(self) -> Seq<Cell> {
        self.world.cells()
    }

    /// The world's side length.
    pub closed spec fn side_len(self) -> u32 {
        self.world.side_len()
    }

    /// The camera pose.
    pub closed spec fn camera(self) -> Camera {
        self.camera
    }

    /// The keys currently held.
    pub closed spec fn held(self) -> Seq<u32> {
        self.keys.held()
    }

    /// The keys pressed this tick.
    pub closed spec fn pressed(self) -> Seq<u32> {
        self.keys.pressed()
    }

    /// The configured surface width.
    pub closed spec fn config_width(self) -> u32 {
        self.config_w
    }

    /// The configured surface height.
    pub closed spec fn config_height(self) -> u32 {
        self.config_h
    }

    /// The accumulated animation time, in microseconds.
    pub closed spec fn cube_clock(self) -> u64 {
        self.cube_clock
    }

    /// Whether the pointer is captured.
    pub closed spec fn cursor_locked(self) -> bool {
        self.cursor_locked
    }

    /// The orchestrator invariant: world and key state are well formed,
    /// and the camera's aspect ratio mirrors the surface configuration.
    pub open spec fn wf(self) -> bool {
        &&& crate::world::wf_cells(self.cells(), self.side_len())
        &&& crate::input::no_dups(self.held())
        &&& crate::input::no_dups(self.pressed())
        &&& self.camera().aspect_h == self.config_height()
        &&& self.camera().aspect_w == self.config_width()
    }

    /// Every observable of the state agrees between `a` and `b`.
    pub open spec fn unchanged(a: State, b: State) -> bool {
        &&& a.cells() == b.cells()
        &&& a.side_len() == b.side_len()
        &&& a.camera() == b.camera()
        &&& a.held() == b.held()
        &&& a.pressed() == b.pressed()
        &&& a.config_width() == b.config_width()
        &&& a.config_height() == b.config_height()
        &&& a.cube_clock() == b.cube_clock()
        &&& a.cursor_locked() == b.cursor_locked()
    }

    /// A fresh orchestrator: an empty world of side `2^depth`, a camera
    /// at the origin looking down zero yaw and pitch with the target's
    /// aspect ratio, nothing held or pressed, the animation clock at
    /// zero, and the pointer captured.
    pub fn new(depth: u32, width: u32, height: u32) -> (s: State)
        requires
            depth <= 30,
        ensures
            s.wf(),
            s.cells() == Seq::<Cell>::empty(),
            s.side_len() == (1u32 << depth),
            s.camera() == Camera::spec_initial(height, width),
            s.held() == Seq::<u32>::empty(),
            s.pressed() == Seq::<u32>::empty(),
            s.config_width() == width,
            s.config_height() == height,
            s.cube_clock() == 0,
            s.cursor_locked(),
    {
        State {
            world: World::new(depth),
            camera: Camera::new(Vec3::new(0, 0, 0), Vec2::new(0, 0), height, width),
            keys: KeyState::new(),
            config_w: width,
            config_h: height,
            cube_clock: 0,
            cursor_locked: true,
        }
    }

    /// The configured width, for the run loop's surface handling.
    pub fn width(&self) -> (w: u32)
        ensures
            w == self.config_width(),
    {
        self.config_w
    }

    /// The configured height, for the run loop's surface handling.
    pub fn height(&self) -> (h: u32)
        ensures
            h == self.config_height(),
    {
        self.config_h
    }

    /// The camera pose, for building the GPU uniform record.
    pub fn camera_pose(&self) -> (c: Camera)
        ensures
            c == self.camera(),
    {
        self.camera
    }

    /// Whether the pointer is captured, for the run loop.
    pub fn is_cursor_locked(&self) -> (r: bool)
        ensures
            r == self.cursor_locked(),
    {
        self.cursor_locked
    }

    /// The accumulated animation time, for the run loop's tick guard.
    pub fn animation_clock(&self) -> (t: u64)
        ensures
            t == self.cube_clock(),
    {
        self.cube_clock
    }

    /// Writes one voxel into the world; a coordinate outside the cube is
    /// ignored.
    pub fn set_voxel(&mut self, x: i32, y: i32, z: i32, v: Voxel)
        requires
            old(self).wf(),
        ensures
            final(self).wf(),
            final(self).cells() == spec_world_set(
                old(self).cells(),
                old(self).side_len(),
                x as int,
                y as int,
                z as int,
                v.bits(),
            ),
            final(self).side_len() == old(self).side_len(),
            final(self).camera() == old(self).camera(),
            final(self).held() == old(self).held(),
            final(self).pressed() == old(self).pressed(),
            final(self).config_width() == old(self).config_width(),
            final(self).config_height() == old(self).config_height(),
            final(self).cube_clock() == old(self).cube_clock(),
            final(self).cursor_locked() == old(self).cursor_locked(),
    {
        self.world.set(x, y, z, v);
    }

    /// Writes a decoded voxel-model asset into the world, one entry at
    /// a time with the asset's Y and Z axes swapped; everything else is
    /// untouched.
    pub fn populate_model(
        &mut self,
        voxels: &Vec<crate::world::ModelVoxel>,
        palette: &Vec<crate::world::PaletteColor>,
    )
        requires
            old(self).wf(),
            palette@.len() == 256,
        ensures
            final(self).wf(),
            final(self).cells() == crate::world::spec_populate(
                old(self).cells(),
                old(self).side_len(),
                voxels@,
                palette@,
            ),
            final(self).side_len() == old(self).side_len(),
            final(self).camera() == old(self).camera(),
            final(self).held() == old(self).held(),
            final(self).pressed() == old(self).pressed(),
            final(self).config_width() == old(self).config_width(),
            final(self).config_height() == old(self).config_height(),
            final(self).cube_clock() == old(self).cube_clock(),
            final(self).cursor_locked() == old(self).cursor_locked(),
    {
        self.world.populate(voxels, palette);
    }

    /// The complete serialized byte form of the world, ready for upload
    /// to the storage buffer.
    pub fn world_bytes(&self) -> (b: Vec<u8>)
        ensures
            b@ == spec_serialize(self.cells()),
    {
        self.world.serialize()
    }

    /// A reported size change: positive dimensions reconfigure the
    /// surface and refresh the camera's aspect ratio; a zero dimension
    /// is a no-op, leaving configuration and aspect ratio untouched.
    pub fn resize(&mut self, width: u32, height: u32)
        requires
            old(self).wf(),
        ensures
            final(self).wf(),
            width > 0 && height > 0 ==> {
                &&& final(self).config_width() == width
                &&& final(self).config_height() == height
                &&& final(self).camera() == (Camera {
                    aspect_h: height,
                    aspect_w: width,
                    ..old(self).camera()
                })
                &&& final(self).cells() == old(self).cells()
                &&& final(self).side_len() == old(self).side_len()
                &&& final(self).held() == old(self).held()
                &&& final(self).pressed() == old(self).pressed()
                &&& final(self).cube_clock() == old(self).cube_clock()
                &&& final(self).cursor_locked() == old(self).cursor_locked()
            },
            !(width > 0 && height > 0) ==> State::unchanged(*final(self), *old(self)),
    {
        if width > 0 && height > 0 {
            self.config_w = width;
            self.config_h = height;
            self.camera.aspect_h = height;
            self.camera.aspect_w = width;
        }
    }

    /// Consumes one input event: pointer motion turns the camera at the
    /// fixed sensitivity; a key-down joins the held set and, if it is no
    /// repeat, the pressed set; a key-up leaves the held set.
    pub fn input(&mut self, e: InputEvent)
        requires
            old(self).wf(),
            e matches InputEvent::MouseMotion { dx, dy } ==> {
                &&& -MOUSE_DELTA_LIMIT <= dx <= MOUSE_DELTA_LIMIT
                &&& -MOUSE_DELTA_LIMIT <= dy <= MOUSE_DELTA_LIMIT
                &&& -ROTATION_LIMIT <= old(self).camera().rotation.x <= ROTATION_LIMIT
                &&& -ROTATION_LIMIT <= old(self).camera().rotation.y <= ROTATION_LIMIT
            },
        ensures
            final(self).wf(),
            final(self).cells() == old(self).cells(),
            final(self).side_len() == old(self).side_len(),
            final(self).config_width() == old(self).config_width(),
            final(self).config_height() == old(self).config_height(),
            final(self).cube_clock() == old(self).cube_clock(),
            final(self).cursor_locked() == old(self).cursor_locked(),
            e matches InputEvent::MouseMotion { dx, dy } ==> {
                &&& final(self).camera() == (Camera {
                    rotation: Vec2 {
                        x: (old(self).camera().rotation.x + dy * MOUSE_SENSITIVITY) as i64,
                        y: (old(self).camera().rotation.y - dx * MOUSE_SENSITIVITY) as i64,
                    },
                    ..old(self).camera()
                })
                &&& final(self).held() == old(self).held()
                &&& final(self).pressed() == old(self).pressed()
            },
            e matches InputEvent::KeyPressed { key } ==> {
                &&& final(self).held() == spec_down_held(old(self).held(), key)
                &&& final(self).pressed() == spec_down_pressed(
                    old(self).held(),
                    old(self).pressed(),
                    key,
                )
                &&& final(self).camera() == old(self).camera()
            },
            e matches InputEvent::KeyReleased { key } ==> {
                &&& final(self).held() == spec_up_held(old(self).held(), key)
                &&& final(self).pressed() == old(self).pressed()
                &&& final(self).camera() == old(self).camera()
            },
    {
        match e {
            InputEvent::MouseMotion { dx, dy } => {
                self.camera.rotate_by(dx, dy);
            },
            InputEvent::KeyPressed { key } => {
                self.keys.key_down(key);
            },
            InputEvent::KeyReleased { key } => {
                self.keys.key_up(key);
            },
        }
    }

    /// One tick with the random draw supplied as arguments: applies the
    /// random world edit if its key is held, integrates held keys into
    /// camera motion over the yaw basis, toggles pointer capture on the
    /// edge-triggered escape press, consumes the pressed set, advances
    /// the animation clock and moves the animated cube. Returns whether
    /// pointer capture was toggled.
    pub fn update_with(
        &mut self,
        elapsed_micros: u64,
        cos_yaw: i64,
        sin_yaw: i64,
        rx: i32,
        ry: i32,
        rz: i32,
    ) -> (cursor_toggled: bool)
        requires
            old(self).wf(),
            elapsed_micros <= ELAPSED_LIMIT,
            -FP_ONE <= cos_yaw <= FP_ONE,
            -FP_ONE <= sin_yaw <= FP_ONE,
            -POSITION_LIMIT <= old(self).camera().position.x <= POSITION_LIMIT,
            -POSITION_LIMIT <= old(self).camera().position.y <= POSITION_LIMIT,
            -POSITION_LIMIT <= old(self).camera().position.z <= POSITION_LIMIT,
            old(self).cube_clock() + elapsed_micros <= CUBE_CLOCK_LIMIT,
        ensures
            final(self).wf(),
            final(self).cells() == spec_update_cells(
                old(self).cells(),
                old(self).side_len(),
                old(self).held().contains(KEY_E),
                rx as int,
                ry as int,
                rz as int,
                (old(self).cube_clock() + elapsed_micros) as int / 1_000_000 + 5,
            ),
            final(self).side_len() == old(self).side_len(),
            final(self).cube_clock() == old(self).cube_clock() + elapsed_micros,
            final(self).camera().position.x == old(self).camera().position.x + spec_scaled(
                spec_vel_x(old(self).held(), cos_yaw as int, sin_yaw as int),
                elapsed_micros as int,
            ),
            final(self).camera().position.y == old(self).camera().position.y + spec_scaled(
                spec_vel_y(old(self).held()),
                elapsed_micros as int,
            ),
            final(self).camera().position.z == old(self).camera().position.z + spec_scaled(
                spec_vel_z(old(self).held(), cos_yaw as int, sin_yaw as int),
                elapsed_micros as int,
            ),
            final(self).camera().rotation == old(self).camera().rotation,
            final(self).camera().aspect_h == old(self).camera().aspect_h,
            final(self).camera().aspect_w == old(self).camera().aspect_w,
            final(self).held() == old(self).held(),
            final(self).pressed() == Seq::<u32>::empty(),
            cursor_toggled == old(self).pressed().contains(KEY_ESCAPE),
            final(self).cursor_locked() == (if cursor_toggled {
                !old(self).cursor_locked()
            } else {
                old(self).cursor_locked()
            }),
            final(self).config_width() == old(self).config_width(),
            final(self).config_height() == old(self).config_height(),
    {
        let edit_held = self.keys.is_held(KEY_E);
        if edit_held {
            self.world.set(rx, ry, rz, Voxel::new(255, 0, 255));
        }
        let d = self.keys.is_held(KEY_D);
        let a = self.keys.is_held(KEY_A);
        let w = self.keys.is_held(KEY_W);
        let s = self.keys.is_held(KEY_S);
        let space = self.keys.is_held(KEY_SPACE);
        let lshift = self.keys.is_held(KEY_LSHIFT);
        let mut vx: i64 = 0;
        let mut vy: i64 = 0;
        let mut vz: i64 = 0;
        if d {
            vx = vx + cos_yaw;
            vz = vz + sin_yaw;
        }
        if a {
            vx = vx - cos_yaw;
            vz = vz - sin_yaw;
        }
        if w {
            vx = vx - sin_yaw;
            vz = vz + cos_yaw;
        }
        if s {
            vx = vx + sin_yaw;
            vz = vz - cos_yaw;
        }
        if space {
            vy = vy + FP_ONE;
        }
        if lshift {
            vy = vy - FP_ONE;
        }
        let cursor_toggled = self.keys.was_pressed(KEY_ESCAPE);
        if cursor_toggled {
            self.cursor_locked = !self.cursor_locked;
        }
        self.keys.clear_pressed();
        self.camera.advance(vx, vy, vz, elapsed_micros);
        self.cube_clock = self.cube_clock + elapsed_micros;
        let q: u64 = self.cube_clock / 1_000_000;
        let x = q as i32 + 5;
        self.world.set(x - 1, 10, 5, Voxel::clear());
        self.world.set(x - 1, 11, 5, Voxel::clear());
        self.world.set(x - 1, 10, 6, Voxel::clear());
        self.world.set(x - 1, 11, 6, Voxel::clear());
        self.world.set(x, 10, 5, Voxel::new(156, 200, 120));
        self.world.set(x + 1, 10, 5, Voxel::new(156, 200, 120));
        self.world.set(x, 11, 5, Voxel::new(156, 200, 120));
        self.world.set(x + 1, 11, 5, Voxel::new(156, 200, 120));
        self.world.set(x, 10, 6, Voxel::new(156, 200, 120));
        self.world.set(x + 1, 10, 6, Voxel::new(156, 200, 120));
        self.world.set(x, 11, 6, Voxel::new(156, 200, 120));
        self.world.set(x + 1, 11, 6, Voxel::new(156, 200, 120));
        cursor_toggled
    }

    /// One tick as the run loop calls it: when the world-editing key is
    /// held, a coordinate is drawn at random on each axis and a magenta
    /// voxel written there — whatever the draw, it lies in the
    /// documented range, and everything else proceeds as `update_with`
    /// states.
    pub fn update(&mut self, elapsed_micros: u64, cos_yaw: i64, sin_yaw: i64) -> (cursor_toggled:
        bool)
        requires
            old(self).wf(),
            elapsed_micros <= ELAPSED_LIMIT,
            -FP_ONE <= cos_yaw <= FP_ONE,
            -FP_ONE <= sin_yaw <= FP_ONE,
            -POSITION_LIMIT <= old(self).camera().position.x <= POSITION_LIMIT,
            -POSITION_LIMIT <= old(self).camera().position.y <= POSITION_LIMIT,
            -POSITION_LIMIT <= old(self).camera().position.z <= POSITION_LIMIT,
            old(self).cube_clock() + elapsed_micros <= CUBE_CLOCK_LIMIT,
        ensures
            final(self).wf(),
            exists|rx: int, ry: int, rz: int|
                {
                    &&& RANDOM_COORD_MIN <= rx < RANDOM_COORD_MAX
                    &&& RANDOM_COORD_MIN <= ry < RANDOM_COORD_MAX
                    &&& RANDOM_COORD_MIN <= rz < RANDOM_COORD_MAX
                    &&& final(self).cells() == #[trigger] spec_update_cells(
                        old(self).cells(),
                        old(self).side_len(),
                        old(self).held().contains(KEY_E),
                        rx,
                        ry,
                        rz,
                        (old(self).cube_clock() + elapsed_micros) as int / 1_000_000 + 5,
                    )
                },
            final(self).side_len() == old(self).side_len(),
            final(self).cube_clock() == old(self).cube_clock() + elapsed_micros,
            final(self).camera().position.x == old(self).camera().position.x + spec_scaled(
                spec_vel_x(old(self).held(), cos_yaw as int, sin_yaw as int),
                elapsed_micros as int,
            ),
            final(self).camera().position.y == old(self).camera().position.y + spec_scaled(
                spec_vel_y(old(self).held()),
                elapsed_micros as int,
            ),
            final(self).camera().position.z == old(self).camera().position.z + spec_scaled(
                spec_vel_z(old(self).held(), cos_yaw as int, sin_yaw as int),
                elapsed_micros as int,
            ),
            final(self).camera().rotation == old(self).camera().rotation,
            final(self).camera().aspect_h == old(self).camera().aspect_h,
            final(self).camera().aspect_w == old(self).camera().aspect_w,
            final(self).held() == old(self).held(),
            final(self).pressed() == Seq::<u32>::empty(),
            cursor_toggled == old(self).pressed().contains(KEY_ESCAPE),
            final(self).cursor_locked() == (if cursor_toggled {
                !old(self).cursor_locked()
            } else {
                old(self).cursor_locked()
            }),
            final(self).config_width() == old(self).config_width(),
            final(self).config_height() == old(self).config_height(),
    {
        let edit_held = self.keys.is_held(KEY_E);
        let mut rx: i32 = 0;
        let mut ry: i32 = 0;
        let mut rz: i32 = 0;
        if edit_held {
            let mut rng = new_thread_rng();
            rx = gen_range_i32(&mut rng, RANDOM_COORD_MIN, RANDOM_COORD_MAX);
            ry = gen_range_i32(&mut rng, RANDOM_COORD_MIN, RANDOM_COORD_MAX);
            rz = gen_range_i32(&mut rng, RANDOM_COORD_MIN, RANDOM_COORD_MAX);
        }
        self.update_with(elapsed_micros, cos_yaw, sin_yaw, rx, ry, rz)
    }

    /// Handles the outcome the run loop got for one frame. A lost
    /// surface is recoverable: the state reconfigures with the last
    /// known size, which the resize guard accepts unchanged, so every
    /// observable — the world's cells above all — survives for the next
    /// frame. Out-of-memory alone commands an exit; any other failure
    /// merely skips the frame.
    pub fn on_frame_outcome(&mut self, o: AcquireOutcome) -> (d: FrameDirective)
        requires
            old(self).wf(),
        ensures
            final(self).wf(),
            d == spec_directive(o),
            State::unchanged(*final(self), *old(self)),
    {
        match o {
            AcquireOutcome::Acquired => FrameDirective::Proceed,
            AcquireOutcome::Lost => {
                let w = self.config_w;
                let h = self.config_h;
                self.resize(w, h);
                FrameDirective::Reconfigure
            },
            AcquireOutcome::OutOfMemory => FrameDirective::Exit,
            AcquireOutcome::Other => FrameDirective::Skip,
        }
    }
}

impl Camera {
    /// The pose a fresh orchestrator starts with: the origin, zero pitch
    /// and yaw, and the given target's aspect ratio.
    pub open spec fn spec_initial(height: u32, width: u32) -> Camera {
        Camera {
            position: Vec3 { x: 0, y: 0, z: 0 },
            rotation: Vec2 { x: 0, y: 0 },
            aspect_h: height,
            aspect_w: width,
        }
    }
}

/// Camera integration determinism: with only the forward key held and
/// no vertical keys, a zero yaw basis advances the position by exactly
/// speed × elapsed along the forward axis and not at all sideways or
/// vertically; a quarter-turn yaw basis advances it by the same amount
/// along the orthogonal axis alone.
pub proof fn lemma_forward_motion(held: Seq<u32>, dt: u64)
    requires
        held.contains(KEY_W),
        !held.contains(KEY_A),
        !held.contains(KEY_S),
        !held.contains(KEY_D),
        !held.contains(KEY_SPACE),
        !held.contains(KEY_LSHIFT),
    ensures
        spec_scaled(spec_vel_z(held, FP_ONE as int, 0), dt as int) == dt,
        spec_scaled(spec_vel_x(held, FP_ONE as int, 0), dt as int) == 0,
        spec_scaled(spec_vel_y(held), dt as int) == 0,
        spec_scaled(spec_vel_x(held, 0, FP_ONE as int), dt as int) == -(dt as int),
        spec_scaled(spec_vel_z(held, 0, FP_ONE as int), dt as int) == 0,
{
    lemma_div_multiples_vanish(dt as int, 1_000_000);
    assert(spec_vel_z(held, FP_ONE as int, 0) == FP_ONE as int);
    assert(spec_vel_x(held, 0, FP_ONE as int) == -(FP_ONE as int));
}

/// Surface-lost recovery: the lost outcome maps to a reconfigure and a
/// successful acquire maps to proceeding, while only out-of-memory ends
/// the run; together with `on_frame_outcome` leaving every observable
/// unchanged, a frame lost after the tick's world edits keeps those
/// edits for the next frame's upload.
pub proof fn lemma_surface_lost_recovery()
    ensures
        spec_directive(AcquireOutcome::Lost) == FrameDirective::Reconfigure,
        spec_directive(AcquireOutcome::Acquired) == FrameDirective::Proceed,
        spec_directive(AcquireOutcome::OutOfMemory) == FrameDirective::Exit,
        spec_directive(AcquireOutcome::Other) == FrameDirective::Skip,
{
}

} // verus!
