use voxelframe::State;
use voxelframe::Voxel;
use voxelframe::camera::FP_ONE;
use voxelframe::input::KeyState;
use voxelframe::input::KEY_E;
use voxelframe::input::KEY_ESCAPE;
use voxelframe::input::KEY_W;
use voxelframe::state::AcquireOutcome;
use voxelframe::state::FrameDirective;
use voxelframe::state::InputEvent;

#[test]
fn camera_forward_integration_zero_yaw() {
    let mut s = State::new(8, 100, 100);
    s.input(InputEvent::KeyPressed { key: KEY_W });
    // Half a second at unit speed with yaw 0: forward is +z.
    s.update_with(500_000, FP_ONE, 0, 0, 0, 0);
    let c = s.camera_pose();
    assert_eq!(c.position.x, 0);
    assert_eq!(c.position.y, 0);
    assert_eq!(c.position.z, 500_000);
}

#[test]
fn camera_forward_integration_quarter_turn() {
    let mut s = State::new(8, 100, 100);
    s.input(InputEvent::KeyPressed { key: KEY_W });
    // The same input with yaw a quarter turn: motion moves to the
    // orthogonal axis.
    s.update_with(500_000, 0, FP_ONE, 0, 0, 0);
    let c = s.camera_pose();
    assert_eq!(c.position.x, -500_000);
    assert_eq!(c.position.y, 0);
    assert_eq!(c.position.z, 0);
}

#[test]
fn camera_integration_is_deterministic() {
    let mut a = State::new(8, 100, 100);
    let mut b = State::new(8, 100, 100);
    for s in [&mut a, &mut b] {
        s.input(InputEvent::KeyPressed { key: KEY_W });
        s.input(InputEvent::MouseMotion { dx: 40, dy: -25 });
        s.update_with(123_456, 700_000, 300_000, 0, 0, 0);
    }
    assert_eq!(a.camera_pose(), b.camera_pose());
    assert_eq!(a.world_bytes(), b.world_bytes());
}

#[test]
fn mouse_motion_turns_at_fixed_sensitivity() {
    let mut s = State::new(8, 100, 100);
    s.input(InputEvent::MouseMotion { dx: 10, dy: -4 });
    let c = s.camera_pose();
    assert_eq!(c.rotation.x, -4_000);
    assert_eq!(c.rotation.y, -10_000);
}

#[test]
fn pressed_set_edge_triggering() {
    let mut ks = KeyState::new();
    // Tick 1: the key goes down and is seen as pressed.
    ks.key_down(42);
    assert!(ks.was_pressed(42));
    assert!(ks.is_held(42));
    ks.clear_pressed();
    // Tick 2: the key stays held; a repeat event adds no press.
    ks.key_down(42);
    assert!(!ks.was_pressed(42));
    assert!(ks.is_held(42));
    ks.clear_pressed();
    // Tick 3: still held, still no press.
    assert!(!ks.was_pressed(42));
    assert!(ks.is_held(42));
    // After release and a fresh press it is an edge again.
    ks.key_up(42);
    assert!(!ks.is_held(42));
    ks.key_down(42);
    assert!(ks.was_pressed(42));
}

#[test]
fn escape_toggles_pointer_capture_once() {
    let mut s = State::new(8, 100, 100);
    assert!(s.is_cursor_locked());
    s.input(InputEvent::KeyPressed { key: KEY_ESCAPE });
    let toggled = s.update_with(1_000, FP_ONE, 0, 0, 0, 0);
    assert!(toggled);
    assert!(!s.is_cursor_locked());
    // The press was consumed; holding the key toggles nothing more.
    let toggled_again = s.update_with(1_000, FP_ONE, 0, 0, 0, 0);
    assert!(!toggled_again);
    assert!(!s.is_cursor_locked());
}

#[test]
fn resize_guard_ignores_zero_dimensions() {
    let mut s = State::new(8, 100, 50);
    let aspect_before = (s.camera_pose().aspect_h, s.camera_pose().aspect_w);
    s.resize(0, 77);
    assert_eq!(s.width(), 100);
    assert_eq!(s.height(), 50);
    assert_eq!(
        (s.camera_pose().aspect_h, s.camera_pose().aspect_w),
        aspect_before
    );
    s.resize(77, 0);
    assert_eq!(s.width(), 100);
    assert_eq!(s.height(), 50);
    assert_eq!(
        (s.camera_pose().aspect_h, s.camera_pose().aspect_w),
        aspect_before
    );
}

#[test]
fn resize_updates_configuration_and_aspect() {
    let mut s = State::new(8, 100, 50);
    s.resize(30, 40);
    assert_eq!(s.width(), 30);
    assert_eq!(s.height(), 40);
    assert_eq!(s.camera_pose().aspect_h, 40);
    assert_eq!(s.camera_pose().aspect_w, 30);
}

#[test]
fn surface_lost_recovery_preserves_world() {
    let mut s = State::new(8, 100, 100);
    s.set_voxel(9, 9, 9, Voxel::new(1, 2, 3));
    let before = s.world_bytes();
    // Frame N: the acquire reports the surface lost.
    let d = s.on_frame_outcome(AcquireOutcome::Lost);
    assert_eq!(d, FrameDirective::Reconfigure);
    assert_eq!(s.world_bytes(), before);
    assert_eq!(s.width(), 100);
    assert_eq!(s.height(), 100);
    // Frame N+1 proceeds normally; the mutation is still there.
    let d2 = s.on_frame_outcome(AcquireOutcome::Acquired);
    assert_eq!(d2, FrameDirective::Proceed);
    assert_eq!(s.world_bytes(), before);
}

#[test]
fn frame_directives() {
    let mut s = State::new(8, 100, 100);
    assert_eq!(
        s.on_frame_outcome(AcquireOutcome::Acquired),
        FrameDirective::Proceed
    );
    assert_eq!(
        s.on_frame_outcome(AcquireOutcome::Lost),
        FrameDirective::Reconfigure
    );
    assert_eq!(
        s.on_frame_outcome(AcquireOutcome::OutOfMemory),
        FrameDirective::Exit
    );
    assert_eq!(
        s.on_frame_outcome(AcquireOutcome::Other),
        FrameDirective::Skip
    );
}

#[test]
fn update_animates_the_cube() {
    let mut s = State::new(8, 100, 100);
    s.update_with(0, FP_ONE, 0, 0, 0, 0);
    let b = s.world_bytes();
    // The animation clock is zero, so the cube sits at x = 5: eight
    // cells over (5..7, 10..12, 5..7), in canonical order.
    assert_eq!(b.len(), 8 * 16);
    let green = Voxel::new(156, 200, 120).packed();
    let mut expected = Vec::new();
    for (x, y, z) in [
        (5_u32, 10_u32, 5_u32),
        (5, 10, 6),
        (5, 11, 5),
        (5, 11, 6),
        (6, 10, 5),
        (6, 10, 6),
        (6, 11, 5),
        (6, 11, 6),
    ] {
        expected.extend_from_slice(&x.to_le_bytes());
        expected.extend_from_slice(&y.to_le_bytes());
        expected.extend_from_slice(&z.to_le_bytes());
        expected.extend_from_slice(&green.to_le_bytes());
    }
    assert_eq!(b, expected);
}

#[test]
fn cube_moves_and_clears_its_trail() {
    let mut s = State::new(8, 100, 100);
    s.update_with(0, FP_ONE, 0, 0, 0, 0);
    // One second later the cube has moved to x = 6; its old cells at
    // x = 5 are cleared as the trail.
    s.update_with(1_000_000, FP_ONE, 0, 0, 0, 0);
    let b = s.world_bytes();
    assert_eq!(b.len(), 8 * 16);
    assert_eq!(&b[0..4], &6_u32.to_le_bytes());
    for rec in b.chunks(16) {
        let x = u32::from_le_bytes([rec[0], rec[1], rec[2], rec[3]]);
        assert!(x == 6 || x == 7);
    }
}

#[test]
fn random_edit_lands_in_documented_range() {
    let mut s = State::new(8, 100, 100);
    s.input(InputEvent::KeyPressed { key: KEY_E });
    for _ in 0..200 {
        s.update(0, FP_ONE, 0);
    }
    let b = s.world_bytes();
    assert_eq!(b.len() % 16, 0);
    // The cube contributes eight cells; with 200 draws over [-64, 64)
    // on each axis some voxel lands in bounds with near certainty, so a
    // draw stuck outside the documented range would leave this at
    // exactly eight.
    assert!(b.len() > 8 * 16);
    for rec in b.chunks(16) {
        let x = u32::from_le_bytes([rec[0], rec[1], rec[2], rec[3]]);
        let y = u32::from_le_bytes([rec[4], rec[5], rec[6], rec[7]]);
        let z = u32::from_le_bytes([rec[8], rec[9], rec[10], rec[11]]);
        assert!(x < 256 && y < 256 && z < 256);
        let in_cube = (5..=6).contains(&x) && (10..=11).contains(&y) && (5..=6).contains(&z);
        let in_random_range = x < 64 && y < 64 && z < 64;
        assert!(in_cube || in_random_range);
    }
}

#[test]
fn update_keeps_held_keys_and_clears_pressed() {
    let mut s = State::new(8, 100, 100);
    s.input(InputEvent::KeyPressed { key: KEY_W });
    s.update_with(1_000, FP_ONE, 0, 0, 0, 0);
    // W is still held: a second tick keeps moving forward.
    s.update_with(1_000, FP_ONE, 0, 0, 0, 0);
    assert_eq!(s.camera_pose().position.z, 2_000);
    s.input(InputEvent::KeyReleased { key: KEY_W });
    s.update_with(1_000, FP_ONE, 0, 0, 0, 0);
    assert_eq!(s.camera_pose().position.z, 2_000);
}
