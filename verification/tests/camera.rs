use third_person_camera::components::{CameraOffset, DampingFactor, TargetOffset, TargetPoint};
use third_person_camera::events::{AdjustTranslation, RotateAroundTarget, Roll, SetLocalCamera, Zoom};
use third_person_camera::math::{Vec2Fx, Vec3Fx, SCALE};
use third_person_camera::observers::{
    adjust_translation_o, roll_camera_s, rotate_camera_o, set_local_cam_s, zoom_s,
};
use third_person_camera::plugin_settings::ThirdPersonCameraSettings;
use third_person_camera::systems::{
    calculate_target_point_s, keyboard_rotation_control_s, mouse_rotation_control_s,
    scroll_zoom_s, spawn_components_s, InputFrame,
};
use third_person_camera::world::CameraWorld;
use third_person_camera::ThirdPersonCameraPlugin;

const TARGET: u64 = 100;
const CAM_A: u64 = 1;
const CAM_B: u64 = 2;

fn units(v: i64) -> i64 {
    v * SCALE
}

fn world_with_camera() -> (CameraWorld, ThirdPersonCameraSettings) {
    let mut world = CameraWorld::new();
    assert!(world.spawn_target(TARGET, Vec3Fx { x: 0, y: 0, z: 0 }));
    assert!(world.attach(CAM_A, TARGET));
    let settings = ThirdPersonCameraSettings::default();
    (world, settings)
}

#[test]
fn default_settings_values() {
    let s = ThirdPersonCameraSettings::default();
    assert_eq!(s.cam_speed, SCALE);
    assert_eq!(s.mouse_speed, 5_000);
    assert_eq!(s.default_camera_offset, Vec3Fx { x: 0, y: 0, z: -units(15) });
    assert_eq!(s.default_target_offset, Vec3Fx { x: 0, y: 0, z: 0 });
    assert_eq!(s.pitch_max, 1_553_343);
    assert_eq!(s.pitch_min, -1_553_343);
    assert_eq!(s.local_cam, None);
    assert_eq!(s.default_damping, None);
    assert!(!s.show_relation_gizmo);
}

#[test]
fn attach_fails_without_target_and_on_duplicate() {
    let mut world = CameraWorld::new();
    assert!(!world.attach(CAM_A, TARGET), "attach must fail if the target does not exist");
    assert!(world.spawn_target(TARGET, Vec3Fx { x: 0, y: 0, z: 0 }));
    assert!(!world.spawn_target(TARGET, Vec3Fx { x: 1, y: 1, z: 1 }));
    assert!(world.attach(CAM_A, TARGET));
    assert!(!world.attach(CAM_A, TARGET), "a camera id can be attached only once");
}

#[test]
fn followers_in_insertion_order() {
    let mut world = CameraWorld::new();
    assert!(world.spawn_target(TARGET, Vec3Fx { x: 0, y: 0, z: 0 }));
    assert!(world.attach(CAM_A, TARGET));
    assert!(world.attach(CAM_B, TARGET));
    assert_eq!(world.followers(TARGET), vec![CAM_A, CAM_B]);
    assert_eq!(world.followers(999), Vec::<u64>::new());
}

#[test]
fn backfill_is_idempotent_and_respects_present_components() {
    let (mut world, settings) = world_with_camera();
    let i = world.find_camera(CAM_A).unwrap();
    world.cameras[i].camera_offset = Some(CameraOffset(Vec3Fx { x: 7, y: 8, z: 9 }));
    spawn_components_s(&mut world, &settings);
    let c = &world.cameras[i];
    assert_eq!(c.camera_offset, Some(CameraOffset(Vec3Fx { x: 7, y: 8, z: 9 })));
    assert_eq!(c.target_offset, Some(TargetOffset(settings.default_target_offset)));
    assert_eq!(c.target_point, Some(TargetPoint(Vec3Fx { x: 0, y: 0, z: 0 })));
    assert_eq!(c.damping_factor, None);
    let before = world.cameras[i].clone();
    spawn_components_s(&mut world, &settings);
    let after = &world.cameras[i];
    assert_eq!(after.camera_offset, before.camera_offset);
    assert_eq!(after.target_offset, before.target_offset);
    assert_eq!(after.target_point, before.target_point);
    assert_eq!(after.damping_factor, before.damping_factor);
}

#[test]
fn follow_cube_scenario() {
    // camera fifteen units behind the origin, no damping: the target moves
    // five units along X, the target point follows exactly, and the next
    // refresh puts the camera at (5, 0, 15).
    let (mut world, settings) = world_with_camera();
    let plugin = ThirdPersonCameraPlugin::new(settings);
    let input = InputFrame::still();
    plugin.tick(&mut world, &input, 16_000);

    assert!(world.move_target(TARGET, Vec3Fx { x: units(5), y: 0, z: 0 }));
    plugin.tick(&mut world, &input, 16_000);

    let i = world.find_camera(CAM_A).unwrap();
    let c = &world.cameras[i];
    assert_eq!(c.target_point, Some(TargetPoint(Vec3Fx { x: units(5), y: 0, z: 0 })));
    assert_eq!(c.translation, Vec3Fx { x: units(5), y: 0, z: units(15) });
}

#[test]
fn no_damping_tracks_exactly() {
    let (mut world, settings) = world_with_camera();
    let i = world.find_camera(CAM_A).unwrap();
    world.cameras[i].target_offset = Some(TargetOffset(Vec3Fx { x: 0, y: units(2), z: 0 }));
    spawn_components_s(&mut world, &settings);
    assert!(world.move_target(TARGET, Vec3Fx { x: units(3), y: units(1), z: -units(4) }));
    calculate_target_point_s(&mut world, 16_000);
    let c = &world.cameras[i];
    assert_eq!(
        c.target_point,
        Some(TargetPoint(Vec3Fx { x: units(3), y: units(3), z: -units(4) }))
    );
}

#[test]
fn damping_zero_elapsed_time_does_not_teleport() {
    let (mut world, settings) = world_with_camera();
    let i = world.find_camera(CAM_A).unwrap();
    world.cameras[i].damping_factor = Some(DampingFactor(SCALE / 2));
    spawn_components_s(&mut world, &settings);
    let before = world.cameras[i].target_point;
    assert!(world.move_target(TARGET, Vec3Fx { x: units(10), y: 0, z: 0 }));
    calculate_target_point_s(&mut world, 0);
    assert_eq!(world.cameras[i].target_point, before);
}

#[test]
fn damping_half_step() {
    // damping 0.5 over one second: the target point covers exactly half
    // the distance to the pivot.
    let (mut world, settings) = world_with_camera();
    let i = world.find_camera(CAM_A).unwrap();
    world.cameras[i].damping_factor = Some(DampingFactor(SCALE / 2));
    spawn_components_s(&mut world, &settings);
    assert!(world.move_target(TARGET, Vec3Fx { x: units(10), y: 0, z: 0 }));
    calculate_target_point_s(&mut world, SCALE);
    assert_eq!(
        world.cameras[i].target_point,
        Some(TargetPoint(Vec3Fx { x: units(5), y: 0, z: 0 }))
    );
}

#[test]
fn damping_large_step_overshoots_literally() {
    // damping 4.0 over one second: the literal time-scaled lerp is
    // preserved, so the point overshoots to four times the distance.
    let (mut world, settings) = world_with_camera();
    let i = world.find_camera(CAM_A).unwrap();
    world.cameras[i].damping_factor = Some(DampingFactor(units(4)));
    spawn_components_s(&mut world, &settings);
    assert!(world.move_target(TARGET, Vec3Fx { x: units(10), y: 0, z: 0 }));
    calculate_target_point_s(&mut world, SCALE);
    assert_eq!(
        world.cameras[i].target_point,
        Some(TargetPoint(Vec3Fx { x: units(40), y: 0, z: 0 }))
    );
}

#[test]
fn damping_step_past_representable_range_is_dropped() {
    // an extreme step whose result cannot be represented leaves the
    // point where it was (the model's machine limit)
    let (mut world, settings) = world_with_camera();
    let i = world.find_camera(CAM_A).unwrap();
    world.cameras[i].damping_factor = Some(DampingFactor(1_000_000_000_000));
    spawn_components_s(&mut world, &settings);
    let before = world.cameras[i].target_point;
    assert!(world.move_target(TARGET, Vec3Fx { x: 1_000_000_000_000, y: 0, z: 0 }));
    calculate_target_point_s(&mut world, 1_000_000_000_000);
    assert_eq!(world.cameras[i].target_point, before);
}

#[test]
fn backfill_target_point_uses_cameras_own_offset() {
    // a camera created with its own target offset gets its pivot from
    // that offset, not from the default one
    let (mut world, settings) = world_with_camera();
    let i = world.find_camera(CAM_A).unwrap();
    world.cameras[i].target_offset = Some(TargetOffset(Vec3Fx { x: 0, y: units(3), z: 0 }));
    spawn_components_s(&mut world, &settings);
    assert_eq!(
        world.cameras[i].target_point,
        Some(TargetPoint(Vec3Fx { x: 0, y: units(3), z: 0 }))
    );
}

#[test]
fn two_cameras_track_independently() {
    // two cameras follow the same target, one instantaneous with a raised
    // pivot, one damped: each target point uses its own offset and damping.
    let mut world = CameraWorld::new();
    assert!(world.spawn_target(TARGET, Vec3Fx { x: 0, y: 0, z: 0 }));
    assert!(world.attach(CAM_A, TARGET));
    assert!(world.attach(CAM_B, TARGET));
    let settings = ThirdPersonCameraSettings::default();
    let ia = world.find_camera(CAM_A).unwrap();
    let ib = world.find_camera(CAM_B).unwrap();
    world.cameras[ia].target_offset = Some(TargetOffset(Vec3Fx { x: 0, y: units(1), z: 0 }));
    world.cameras[ib].damping_factor = Some(DampingFactor(SCALE / 2));
    spawn_components_s(&mut world, &settings);
    assert!(world.move_target(TARGET, Vec3Fx { x: units(8), y: 0, z: 0 }));
    calculate_target_point_s(&mut world, SCALE);
    assert_eq!(
        world.cameras[ia].target_point,
        Some(TargetPoint(Vec3Fx { x: units(8), y: units(1), z: 0 }))
    );
    assert_eq!(
        world.cameras[ib].target_point,
        Some(TargetPoint(Vec3Fx { x: units(4), y: 0, z: 0 }))
    );
}

#[test]
fn translation_refresh_formula() {
    // worldPosition == targetPoint - orientation.rotate(cameraOffset), with
    // the identity orientation: position = targetPoint - offset exactly.
    let (mut world, settings) = world_with_camera();
    spawn_components_s(&mut world, &settings);
    let i = world.find_camera(CAM_A).unwrap();
    world.cameras[i].target_point = Some(TargetPoint(Vec3Fx { x: units(1), y: units(2), z: 0 }));
    adjust_translation_o(&mut world, AdjustTranslation { camera: CAM_A });
    assert_eq!(world.cameras[i].translation, Vec3Fx { x: units(1), y: units(2), z: units(15) });
    // idempotent: a redundant refresh computes the same position
    adjust_translation_o(&mut world, AdjustTranslation { camera: CAM_A });
    assert_eq!(world.cameras[i].translation, Vec3Fx { x: units(1), y: units(2), z: units(15) });
}

#[test]
fn orbit_pitch_clamps_exactly_at_bound() {
    let (mut world, settings) = world_with_camera();
    spawn_components_s(&mut world, &settings);
    let i = world.find_camera(CAM_A).unwrap();
    // a pitch delta far past the bound: the pitch lands exactly on
    // pitch_max, not beyond it
    rotate_camera_o(
        &mut world,
        &settings,
        RotateAroundTarget { camera: CAM_A, delta: Vec2Fx { x: 0, y: -units(1000) } },
    );
    assert_eq!(world.cameras[i].orientation.pitch, settings.pitch_max);
    rotate_camera_o(
        &mut world,
        &settings,
        RotateAroundTarget { camera: CAM_A, delta: Vec2Fx { x: 0, y: units(1000) } },
    );
    assert_eq!(world.cameras[i].orientation.pitch, settings.pitch_min);
}

#[test]
fn orbit_updates_yaw_and_refreshes_translation() {
    let (mut world, settings) = world_with_camera();
    spawn_components_s(&mut world, &settings);
    let i = world.find_camera(CAM_A).unwrap();
    // a quarter turn of yaw: the camera swings to the target's side
    rotate_camera_o(
        &mut world,
        &settings,
        RotateAroundTarget { camera: CAM_A, delta: Vec2Fx { x: -1_570_796, y: 0 } },
    );
    let c = &world.cameras[i];
    assert_eq!(c.orientation.yaw, 1_570_796);
    assert_eq!(c.orientation.pitch, 0);
    // offset (0,0,-15) rotated by a quarter turn of yaw points along -X
    // (within the polynomial tolerance), so the camera sits near (15,0,0)
    assert!((c.translation.x - units(15)).abs() < units(15) / 100, "x = {}", c.translation.x);
    assert_eq!(c.translation.y, 0);
    assert!(c.translation.z.abs() < units(15) / 100, "z = {}", c.translation.z);
}

#[test]
fn commands_for_unknown_camera_are_dropped() {
    let (mut world, settings) = world_with_camera();
    spawn_components_s(&mut world, &settings);
    let i = world.find_camera(CAM_A).unwrap();
    let orientation = world.cameras[i].orientation;
    let offset = world.cameras[i].camera_offset;
    let translation = world.cameras[i].translation;
    rotate_camera_o(
        &mut world,
        &settings,
        RotateAroundTarget { camera: 999, delta: Vec2Fx { x: units(1), y: units(1) } },
    );
    zoom_s(&mut world, Zoom { camera: 999, value: units(1) });
    roll_camera_s(&mut world, Roll { camera: 999, value: units(1) });
    assert!(!world.move_target(999, Vec3Fx { x: 1, y: 2, z: 3 }));
    assert_eq!(world.cameras[i].orientation, orientation);
    assert_eq!(world.cameras[i].camera_offset, offset);
    assert_eq!(world.cameras[i].translation, translation);
}

#[test]
fn zoom_adds_exactly_and_commutes() {
    let (mut world, settings) = world_with_camera();
    spawn_components_s(&mut world, &settings);
    let i = world.find_camera(CAM_A).unwrap();
    let z0 = world.cameras[i].camera_offset.unwrap().0.z;
    zoom_s(&mut world, Zoom { camera: CAM_A, value: units(2) });
    assert_eq!(world.cameras[i].camera_offset.unwrap().0.z, z0 + units(2));
    zoom_s(&mut world, Zoom { camera: CAM_A, value: -units(5) });
    assert_eq!(world.cameras[i].camera_offset.unwrap().0.z, z0 + units(2) - units(5));

    // the opposite order lands on the same offset
    let (mut world2, settings2) = world_with_camera();
    spawn_components_s(&mut world2, &settings2);
    zoom_s(&mut world2, Zoom { camera: CAM_A, value: -units(5) });
    zoom_s(&mut world2, Zoom { camera: CAM_A, value: units(2) });
    assert_eq!(
        world2.cameras[i].camera_offset.unwrap().0.z,
        world.cameras[i].camera_offset.unwrap().0.z
    );
}

#[test]
fn roll_spins_about_forward_axis_only() {
    let (mut world, settings) = world_with_camera();
    spawn_components_s(&mut world, &settings);
    let i = world.find_camera(CAM_A).unwrap();
    rotate_camera_o(
        &mut world,
        &settings,
        RotateAroundTarget { camera: CAM_A, delta: Vec2Fx { x: -500_000, y: -250_000 } },
    );
    let before = world.cameras[i].orientation;
    let translation = world.cameras[i].translation;
    roll_camera_s(&mut world, Roll { camera: CAM_A, value: 300_000 });
    let after = world.cameras[i].orientation;
    assert_eq!(after.yaw, before.yaw);
    assert_eq!(after.pitch, before.pitch);
    assert_eq!(after.roll, before.roll + 300_000);
    // roll alone does not trigger a translation refresh
    assert_eq!(world.cameras[i].translation, translation);
}

#[test]
fn no_active_camera_produces_no_commands() {
    let settings = ThirdPersonCameraSettings::default();
    let input = InputFrame {
        mouse_delta: Vec2Fx { x: units(3), y: -units(2) },
        mouse_changed: true,
        scroll_y: units(1),
        pressed: vec![settings.up, settings.left, settings.roll_clockwise],
    };
    assert!(mouse_rotation_control_s(&settings, &input).is_none());
    let (orbit, roll) = keyboard_rotation_control_s(&settings, &input, 16_000);
    assert!(orbit.is_none());
    assert!(roll.is_none());
    assert!(scroll_zoom_s(&settings, &input).is_none());

    // and a full tick with that input leaves every camera untouched
    let (mut world, _) = world_with_camera();
    let plugin = ThirdPersonCameraPlugin::new(settings);
    let i = world.find_camera(CAM_A).unwrap();
    let before = world.cameras[i].orientation;
    plugin.tick(&mut world, &input, 16_000);
    assert_eq!(world.cameras[i].orientation, before);
}

#[test]
fn set_local_camera_routes_commands() {
    let mut settings = ThirdPersonCameraSettings::default();
    set_local_cam_s(&mut settings, SetLocalCamera(CAM_A));
    assert_eq!(settings.local_cam, Some(CAM_A));

    let input = InputFrame {
        mouse_delta: Vec2Fx { x: units(2), y: units(1) },
        mouse_changed: true,
        scroll_y: -units(3),
        pressed: vec![],
    };
    let orbit = mouse_rotation_control_s(&settings, &input).unwrap();
    assert_eq!(orbit.camera, CAM_A);
    // pointer delta times the default pointer speed of 0.005
    assert_eq!(orbit.delta, Vec2Fx { x: 10_000, y: 5_000 });
    let zoom = scroll_zoom_s(&settings, &input).unwrap();
    assert_eq!(zoom.camera, CAM_A);
    assert_eq!(zoom.value, -units(3));
}

#[test]
fn mouse_at_rest_emits_nothing() {
    let mut settings = ThirdPersonCameraSettings::default();
    set_local_cam_s(&mut settings, SetLocalCamera(CAM_A));
    let input = InputFrame::still();
    assert!(mouse_rotation_control_s(&settings, &input).is_none());
}

#[test]
fn keyboard_steps_scale_with_elapsed_time() {
    let mut settings = ThirdPersonCameraSettings::default();
    set_local_cam_s(&mut settings, SetLocalCamera(CAM_A));
    let dt = 100_000;  // a tenth of a second at unit speed
    let input = InputFrame {
        mouse_delta: Vec2Fx { x: 0, y: 0 },
        mouse_changed: false,
        scroll_y: 0,
        pressed: vec![settings.up, settings.right, settings.roll_counterclockwise],
    };
    let (orbit, roll) = keyboard_rotation_control_s(&settings, &input, dt);
    let orbit = orbit.unwrap();
    assert_eq!(orbit.camera, CAM_A);
    assert_eq!(orbit.delta, Vec2Fx { x: 100_000, y: -100_000 });
    let roll = roll.unwrap();
    assert_eq!(roll.value, -100_000);

    // opposing keys cancel out, so nothing is emitted
    let balanced = InputFrame {
        mouse_delta: Vec2Fx { x: 0, y: 0 },
        mouse_changed: false,
        scroll_y: 0,
        pressed: vec![settings.up, settings.down, settings.left, settings.right],
    };
    let (orbit, roll) = keyboard_rotation_control_s(&settings, &balanced, dt);
    assert!(orbit.is_none());
    assert!(roll.is_none());
}

#[test]
fn changed_detection_marks_are_consumed() {
    // with damping, a moved target is tracked once; the next tick without
    // a move changes nothing (the mark was cleared)
    let (mut world, mut settings) = world_with_camera();
    settings.default_damping = Some(SCALE / 2);
    let plugin = ThirdPersonCameraPlugin::new(settings);
    let input = InputFrame::still();
    plugin.tick(&mut world, &input, SCALE);
    assert!(world.move_target(TARGET, Vec3Fx { x: units(10), y: 0, z: 0 }));
    plugin.tick(&mut world, &input, SCALE);
    let i = world.find_camera(CAM_A).unwrap();
    let tp_after_move = world.cameras[i].target_point;
    assert_eq!(tp_after_move, Some(TargetPoint(Vec3Fx { x: units(5), y: 0, z: 0 })));
    plugin.tick(&mut world, &input, SCALE);
    assert_eq!(world.cameras[i].target_point, tp_after_move);
}

#[test]
fn relation_gizmo_draws_one_line_per_follower() {
    let mut world = CameraWorld::new();
    assert!(world.spawn_target(TARGET, Vec3Fx { x: units(1), y: 0, z: 0 }));
    assert!(world.attach(CAM_A, TARGET));
    assert!(world.attach(CAM_B, TARGET));
    let mut settings = ThirdPersonCameraSettings::default();
    let off_plugin = ThirdPersonCameraPlugin::new(settings);
    let input = InputFrame::still();
    assert!(off_plugin.tick(&mut world, &input, 16_000).is_empty());

    settings.show_relation_gizmo = true;
    let plugin = ThirdPersonCameraPlugin::new(settings);
    let lines = plugin.tick(&mut world, &input, 16_000);
    assert_eq!(lines.len(), 2);
    assert_eq!(lines[0].from, Vec3Fx { x: units(1), y: 0, z: 0 });
    let ia = world.find_camera(CAM_A).unwrap();
    let ib = world.find_camera(CAM_B).unwrap();
    assert_eq!(lines[0].to, world.cameras[ia].translation);
    assert_eq!(lines[1].to, world.cameras[ib].translation);
}

#[test]
fn pitch_stays_in_bounds_over_any_command_sequence() {
    let (mut world, settings) = world_with_camera();
    spawn_components_s(&mut world, &settings);
    let i = world.find_camera(CAM_A).unwrap();
    let deltas = [
        units(3), -units(7), units(1), -units(1000), units(500), 42, -9999, units(2),
    ];
    for (n, dy) in deltas.iter().enumerate() {
        rotate_camera_o(
            &mut world,
            &settings,
            RotateAroundTarget { camera: CAM_A, delta: Vec2Fx { x: *dy / 3, y: *dy } },
        );
        let pitch = world.cameras[i].orientation.pitch;
        assert!(
            settings.pitch_min <= pitch && pitch <= settings.pitch_max,
            "pitch {pitch} out of bounds after command {n}"
        );
    }
}

#[test]
fn reassigning_active_camera_reroutes_commands() {
    let mut settings = ThirdPersonCameraSettings::default();
    let input = InputFrame {
        mouse_delta: Vec2Fx { x: units(1), y: 0 },
        mouse_changed: true,
        scroll_y: 0,
        pressed: vec![],
    };
    set_local_cam_s(&mut settings, SetLocalCamera(CAM_A));
    assert_eq!(mouse_rotation_control_s(&settings, &input).unwrap().camera, CAM_A);
    set_local_cam_s(&mut settings, SetLocalCamera(CAM_B));
    assert_eq!(mouse_rotation_control_s(&settings, &input).unwrap().camera, CAM_B);
}

#[test]
fn tick_composes_mouse_then_keyboard_commands() {
    // active camera, pointer motion and a held yaw key in one tick: the
    // pointer orbit applies first, then the key orbit, exactly.
    let (mut world, mut settings) = world_with_camera();
    set_local_cam_s(&mut settings, SetLocalCamera(CAM_A));
    let plugin = ThirdPersonCameraPlugin::new(settings);
    let input = InputFrame {
        mouse_delta: Vec2Fx { x: 200_000, y: 100_000 },
        mouse_changed: true,
        scroll_y: 0,
        pressed: vec![settings.right],
    };
    plugin.tick(&mut world, &input, 100_000);
    let i = world.find_camera(CAM_A).unwrap();
    let o = world.cameras[i].orientation;
    // pointer: delta * 0.005 = (1000, 500); yaw goes to -1000 wrapped,
    // pitch to -500; then the key step of 0.1s at unit speed subtracts
    // another 100_000 from yaw
    assert_eq!(o.yaw, 6_283_185 - 1_000 - 100_000);
    assert_eq!(o.pitch, -500);
    assert_eq!(o.roll, 0);
}

#[test]
fn late_default_damping_does_not_reach_existing_cameras() {
    // a camera backfilled while no default damping was set keeps no
    // damping, even if the default is set on a later tick
    let (mut world, mut settings) = world_with_camera();
    spawn_components_s(&mut world, &settings);
    let i = world.find_camera(CAM_A).unwrap();
    assert_eq!(world.cameras[i].damping_factor, None);
    settings.default_damping = Some(SCALE / 2);
    spawn_components_s(&mut world, &settings);
    assert_eq!(world.cameras[i].damping_factor, None);
    // a camera created after the change does get the new default
    assert!(world.attach(CAM_B, TARGET));
    spawn_components_s(&mut world, &settings);
    let ib = world.find_camera(CAM_B).unwrap();
    assert_eq!(world.cameras[ib].damping_factor, Some(DampingFactor(SCALE / 2)));
}

#[test]
fn despawn_camera_unlinks_both_sides() {
    let mut world = CameraWorld::new();
    assert!(world.spawn_target(TARGET, Vec3Fx { x: 0, y: 0, z: 0 }));
    assert!(world.attach(CAM_A, TARGET));
    assert!(world.attach(CAM_B, TARGET));
    assert!(!world.despawn_camera(999));
    assert!(world.despawn_camera(CAM_A));
    assert!(world.find_camera(CAM_A).is_none());
    assert_eq!(world.followers(TARGET), vec![CAM_B]);
    // commands to the destroyed camera are now dropped
    zoom_s(&mut world, Zoom { camera: CAM_A, value: units(1) });
    assert!(world.find_camera(CAM_B).is_some());
}

#[test]
fn despawn_target_cascades_to_followers() {
    let mut world = CameraWorld::new();
    const OTHER: u64 = 200;
    assert!(world.spawn_target(TARGET, Vec3Fx { x: 0, y: 0, z: 0 }));
    assert!(world.spawn_target(OTHER, Vec3Fx { x: units(1), y: 0, z: 0 }));
    assert!(world.attach(CAM_A, TARGET));
    assert!(world.attach(CAM_B, TARGET));
    const CAM_C: u64 = 3;
    assert!(world.attach(CAM_C, OTHER));
    assert!(!world.despawn_target(999));
    assert!(world.despawn_target(TARGET));
    assert!(world.find_target(TARGET).is_none());
    assert!(world.find_camera(CAM_A).is_none());
    assert!(world.find_camera(CAM_B).is_none());
    // the unrelated target and its camera are untouched
    assert!(world.find_target(OTHER).is_some());
    assert!(world.find_camera(CAM_C).is_some());
    assert_eq!(world.followers(OTHER), vec![CAM_C]);
}

#[test]
fn tick_applies_scroll_zoom_to_active_camera() {
    let (mut world, mut settings) = world_with_camera();
    set_local_cam_s(&mut settings, SetLocalCamera(CAM_A));
    let plugin = ThirdPersonCameraPlugin::new(settings);
    let still = InputFrame::still();
    plugin.tick(&mut world, &still, 16_000);
    let i = world.find_camera(CAM_A).unwrap();
    let z0 = world.cameras[i].camera_offset.unwrap().0.z;
    let input = InputFrame {
        mouse_delta: Vec2Fx { x: 0, y: 0 },
        mouse_changed: false,
        scroll_y: units(2),
        pressed: vec![],
    };
    plugin.tick(&mut world, &input, 16_000);
    assert_eq!(world.cameras[i].camera_offset.unwrap().0.z, z0 + units(2));
}

#[test]
fn negative_speed_scalar_inverts_controls() {
    let mut settings = ThirdPersonCameraSettings::default();
    settings.cam_speed = -SCALE;
    set_local_cam_s(&mut settings, SetLocalCamera(CAM_A));
    let input = InputFrame {
        mouse_delta: Vec2Fx { x: 0, y: 0 },
        mouse_changed: false,
        scroll_y: 0,
        pressed: vec![settings.right],
    };
    let (orbit, _) = keyboard_rotation_control_s(&settings, &input, 100_000);
    assert_eq!(orbit.unwrap().delta, Vec2Fx { x: -100_000, y: 0 });
}
