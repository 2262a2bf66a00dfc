//! Per-tick stages: lazy component backfill, the input mapper, target-point
//! tracking, the translation pass after target moves, and the debug overlay.
//!
//! The input mapper turns one tick's accumulated device state (an
//! [`InputFrame`]) into commands for the active camera; with no active
//! camera every producer is a no-op. The tracking stages consume the
//! changed-detection marks set by [`CameraWorld::move_target`].

use vstd::prelude::*;

use crate::components::{CameraOffset, DampingFactor, TargetOffset, TargetPoint};
use crate::events::{RotateAroundTarget, Roll, Zoom};
use crate::math::{
    absi, clamp_i64, clamp_s, div_s, lerp_1, lerp_wide, scale_down, Vec2Fx, Vec3Fx, CMD_DELTA_MAX,
    DAMP_MAX, DELTA_ABS_MAX, DT_MAX, POS_ABS_MAX, SCALE, SPEED_ABS_MAX,
};
use crate::plugin_settings::ThirdPersonCameraSettings;
use crate::world::CameraWorld;

verus! {

/// One tick's accumulated device state, read from the host's input layer:
/// pointer motion, whether the pointer state changed this tick, the scroll
/// wheel delta, and the key codes currently held.
pub struct InputFrame {
    pub mouse_delta: Vec2Fx,
    pub mouse_changed: bool,
    pub scroll_y: i64,
    pub pressed: Vec<u32>,
}

impl InputFrame {
    /// Raw device deltas stay within the representable range.
    pub open spec fn wf(self) -> bool {
        &&& absi(self.mouse_delta.x as int) <= DELTA_ABS_MAX
        &&& absi(self.mouse_delta.y as int) <= DELTA_ABS_MAX
        &&& absi(self.scroll_y as int) <= DELTA_ABS_MAX
    }

    /// The key with this code is held.
    pub open spec fn is_pressed_spec(self, key: u32) -> bool {
        self.pressed@.contains(key)
    }

    /// A frame with no motion, no scroll and no held keys.
    pub fn still() -> (r: InputFrame)
        ensures
            r.wf(),
            r.mouse_delta == (Vec2Fx { x: 0, y: 0 }),
            r.mouse_changed == false,
            r.scroll_y == 0,
            r.pressed@ == Seq::<u32>::empty(),
    {
        InputFrame {
            mouse_delta: Vec2Fx { x: 0, y: 0 },
            mouse_changed: false,
            scroll_y: 0,
            pressed: Vec::new(),
        }
    }

    /// Whether the key with code `key` is held this tick.
    pub fn pressed(&self, key: u32) -> (r: bool)
        ensures
            r == self.is_pressed_spec(key),
    {
        let n = self.pressed.len();
        let mut i: usize = 0;
        while i < n
            invariant
                n == self.pressed@.len(),
                i <= n,
                forall|k: int| 0 <= k < i ==> self.pressed@[k] != key,
            decreases n - i,
        {
            if self.pressed[i] == key {
                return true;
            }
            i += 1;
        }
        false
    }
}

/// Map accumulated pointer motion to an orbit command for the active
/// camera, scaled by the pointer speed. Emitted only when the pointer
/// state changed this tick; a no-op with no active camera.
pub fn mouse_rotation_control_s(
    camera_settings: &ThirdPersonCameraSettings,
    input: &InputFrame,
) -> (r: Option<RotateAroundTarget>)
    requires
        camera_settings.wf(),
        input.wf(),
    ensures
        camera_settings.local_cam is None ==> r is None,
        camera_settings.local_cam is Some && !input.mouse_changed ==> r is None,
        camera_settings.local_cam is Some && input.mouse_changed ==> {
            &&& r is Some
            &&& r.unwrap().camera == camera_settings.local_cam.unwrap()
            &&& r.unwrap().delta.x == div_s(
                (camera_settings.mouse_speed as int) * (input.mouse_delta.x as int),
            )
            &&& r.unwrap().delta.y == div_s(
                (camera_settings.mouse_speed as int) * (input.mouse_delta.y as int),
            )
            &&& absi(r.unwrap().delta.x as int) <= CMD_DELTA_MAX
            &&& absi(r.unwrap().delta.y as int) <= CMD_DELTA_MAX
        },
{
    let camera = match camera_settings.local_cam {
        Some(c) => c,
        None => {
            return None;
        },
    };
    if !input.mouse_changed {
        return None;
    }
    let ms = camera_settings.mouse_speed;
    proof {
        assert(absi((ms as int) * (input.mouse_delta.x as int)) <= 1_000_000_000_000_000_000_000)
            by (nonlinear_arith)
            requires
                -SPEED_ABS_MAX <= ms <= SPEED_ABS_MAX,
                absi(input.mouse_delta.x as int) <= DELTA_ABS_MAX,
        ;
        assert(absi((ms as int) * (input.mouse_delta.y as int)) <= 1_000_000_000_000_000_000_000)
            by (nonlinear_arith)
            requires
                -SPEED_ABS_MAX <= ms <= SPEED_ABS_MAX,
                absi(input.mouse_delta.y as int) <= DELTA_ABS_MAX,
        ;
        crate::math::lemma_div_s_bound(
            (ms as int) * (input.mouse_delta.x as int),
            1_000_000_000_000_000,
        );
        crate::math::lemma_div_s_bound(
            (ms as int) * (input.mouse_delta.y as int),
            1_000_000_000_000_000,
        );
    }
    let dx = scale_down((ms as i128) * (input.mouse_delta.x as i128));
    let dy = scale_down((ms as i128) * (input.mouse_delta.y as i128));
    Some(RotateAroundTarget { camera, delta: Vec2Fx { x: dx, y: dy } })
}

/// The per-tick key step: the orbit speed scaled by the elapsed time.
pub open spec fn key_step_spec(speed: int, dt: int) -> int {
    div_s(speed * dt)
}

/// The yaw delta the held keys accumulate.
pub open spec fn keyboard_yaw_spec(
    camera_settings: ThirdPersonCameraSettings,
    input: InputFrame,
    dt: int,
) -> int {
    let step = key_step_spec(camera_settings.cam_speed as int, dt);
    (if input.is_pressed_spec(camera_settings.left) {
        -step
    } else {
        0
    }) + (if input.is_pressed_spec(camera_settings.right) {
        step
    } else {
        0
    })
}

/// The pitch delta the held keys accumulate, pre-clamped into the pitch
/// bounds before emission.
pub open spec fn keyboard_pitch_spec(
    camera_settings: ThirdPersonCameraSettings,
    input: InputFrame,
    dt: int,
) -> int {
    let step = key_step_spec(camera_settings.cam_speed as int, dt);
    let raw = (if input.is_pressed_spec(camera_settings.up) {
        -step
    } else {
        0
    }) + (if input.is_pressed_spec(camera_settings.down) {
        step
    } else {
        0
    });
    clamp_s(raw, camera_settings.pitch_min as int, camera_settings.pitch_max as int)
}

/// The roll delta the held keys accumulate: the clockwise key wins over
/// the counterclockwise one.
pub open spec fn keyboard_roll_spec(
    camera_settings: ThirdPersonCameraSettings,
    input: InputFrame,
    dt: int,
) -> int {
    let step = key_step_spec(camera_settings.cam_speed as int, dt);
    if input.is_pressed_spec(camera_settings.roll_clockwise) {
        step
    } else if input.is_pressed_spec(camera_settings.roll_counterclockwise) {
        -step
    } else {
        0
    }
}

/// Map held keys to an orbit command (up/down/left/right) and a roll
/// command (clockwise/counterclockwise) for the active camera, each delta
/// accumulated from the speed-scaled elapsed time. A command is emitted
/// only when its delta is nonzero; a no-op with no active camera.
pub fn keyboard_rotation_control_s(
    camera_settings: &ThirdPersonCameraSettings,
    input: &InputFrame,
    dt: i64,
) -> (r: (Option<RotateAroundTarget>, Option<Roll>))
    requires
        camera_settings.wf(),
        input.wf(),
        0 <= dt <= DT_MAX,
    ensures
        camera_settings.local_cam is None ==> r.0 is None && r.1 is None,
        camera_settings.local_cam is Some ==> {
            let yacc = keyboard_yaw_spec(*camera_settings, *input, dt as int);
            let pacc = keyboard_pitch_spec(*camera_settings, *input, dt as int);
            let racc = keyboard_roll_spec(*camera_settings, *input, dt as int);
            &&& (r.0 is Some <==> (yacc != 0 || pacc != 0))
            &&& r.0 is Some ==> {
                &&& r.0.unwrap().camera == camera_settings.local_cam.unwrap()
                &&& r.0.unwrap().delta.x == yacc
                &&& r.0.unwrap().delta.y == pacc
                &&& absi(r.0.unwrap().delta.x as int) <= CMD_DELTA_MAX
                &&& absi(r.0.unwrap().delta.y as int) <= CMD_DELTA_MAX
            }
            &&& (r.1 is Some <==> racc != 0)
            &&& r.1 is Some ==> {
                &&& r.1.unwrap().camera == camera_settings.local_cam.unwrap()
                &&& r.1.unwrap().value == racc
                &&& absi(r.1.unwrap().value as int) <= CMD_DELTA_MAX
            }
        },
{
    let camera = match camera_settings.local_cam {
        Some(c) => c,
        None => {
            return (None, None);
        },
    };
    let speed = camera_settings.cam_speed;
    proof {
        assert(absi((speed as int) * (dt as int)) <= 1_000_000_000_000_000_000_000)
            by (nonlinear_arith)
            requires
                -SPEED_ABS_MAX <= speed <= SPEED_ABS_MAX,
                0 <= dt <= DT_MAX,
        ;
        crate::math::lemma_div_s_bound((speed as int) * (dt as int), 1_000_000_000_000_000);
    }
    let step = scale_down((speed as i128) * (dt as i128));

    let mut pitch: i64 = 0;
    if input.pressed(camera_settings.up) {
        pitch = pitch - step;
    }
    if input.pressed(camera_settings.down) {
        pitch = pitch + step;
    }
    pitch = clamp_i64(pitch, camera_settings.pitch_min, camera_settings.pitch_max);

    let mut yaw: i64 = 0;
    if input.pressed(camera_settings.left) {
        yaw = yaw - step;
    }
    if input.pressed(camera_settings.right) {
        yaw = yaw + step;
    }
    let orbit = if yaw != 0 || pitch != 0 {
        Some(RotateAroundTarget { camera, delta: Vec2Fx { x: yaw, y: pitch } })
    } else {
        None
    };

    let mut roll: i64 = 0;
    if input.pressed(camera_settings.roll_clockwise) {
        roll = roll + step;
    } else if input.pressed(camera_settings.roll_counterclockwise) {
        roll = roll - step;
    }
    let roll_cmd = if roll != 0 {
        Some(Roll { camera, value: roll })
    } else {
        None
    };
    (orbit, roll_cmd)
}

/// Map the scroll wheel delta to a zoom command for the active camera; a
/// no-op with no active camera.
pub fn scroll_zoom_s(camera_settings: &ThirdPersonCameraSettings, input: &InputFrame) -> (r: Option<
    Zoom,
>)
    requires
        camera_settings.wf(),
        input.wf(),
    ensures
        camera_settings.local_cam is None ==> r is None,
        camera_settings.local_cam is Some ==> {
            &&& r is Some
            &&& r.unwrap().camera == camera_settings.local_cam.unwrap()
            &&& r.unwrap().value == input.scroll_y
            &&& absi(r.unwrap().value as int) <= CMD_DELTA_MAX
        },
{
    match camera_settings.local_cam {
        Some(camera) => Some(Zoom { camera, value: input.scroll_y }),
        None => None,
    }
}

/// How the backfill stage rewrites one camera record: a record it has not
/// seen before has its absent components filled from the settings'
/// defaults (the target point from the target's position plus the
/// camera's own target offset when present, else the default one) and is
/// marked seen; present components, the transform, and every record seen
/// on an earlier tick are untouched, so a default set later never reaches
/// an existing camera.
pub open spec fn backfilled(
    c0: crate::world::CameraRecord,
    tpos: Vec3Fx,
    camera_settings: ThirdPersonCameraSettings,
    c1: crate::world::CameraRecord,
) -> bool {
    if c0.initialized {
        c1 == c0
    } else {
        backfill_filled(c0, tpos, camera_settings, c1)
    }
}

/// The filled form of a record the backfill has just seen for the first
/// time.
pub open spec fn backfill_filled(
    c0: crate::world::CameraRecord,
    tpos: Vec3Fx,
    camera_settings: ThirdPersonCameraSettings,
    c1: crate::world::CameraRecord,
) -> bool {
    &&& c1.initialized == true
    &&& c1.id == c0.id
    &&& c1.camera == c0.camera
    &&& c1.orientation == c0.orientation
    &&& c1.translation == c0.translation
    &&& c1.camera_offset == (if c0.camera_offset is Some {
        c0.camera_offset
    } else {
        Some(CameraOffset(camera_settings.default_camera_offset))
    })
    &&& c1.target_offset == (if c0.target_offset is Some {
        c0.target_offset
    } else {
        Some(TargetOffset(camera_settings.default_target_offset))
    })
    &&& c1.damping_factor == (if c0.damping_factor is Some {
        c0.damping_factor
    } else {
        match camera_settings.default_damping {
            Some(d) => Some(DampingFactor(d)),
            None => None,
        }
    })
    &&& c1.target_point == (if c0.target_point is Some {
        c0.target_point
    } else {
        let off = if c0.target_offset is Some {
            c0.target_offset.unwrap().0
        } else {
            camera_settings.default_target_offset
        };
        Some(
            TargetPoint(
                Vec3Fx {
                    x: (tpos.x + off.x) as i64,
                    y: (tpos.y + off.y) as i64,
                    z: (tpos.z + off.z) as i64,
                },
            ),
        )
    })
}

/// Backfill the absent components of every newly created camera from the
/// settings' defaults (lazy initialization on the first tick after
/// creation, idempotent: present components are never overwritten and a
/// camera is filled at most once). A camera's target point starts at the
/// target's position plus the default target offset.
pub fn spawn_components_s(world: &mut CameraWorld, camera_settings: &ThirdPersonCameraSettings)
    requires
        old(world).wf(),
        camera_settings.wf(),
    ensures
        final(world).wf(),
        final(world).targets@ == old(world).targets@,
        final(world).cameras@.len() == old(world).cameras@.len(),
        forall|i: int|
            0 <= i < old(world).cameras@.len() ==> backfilled(
                old(world).cameras@[i],
                old(world).tgt(old(world).cameras@[i].camera.target).position,
                *camera_settings,
                #[trigger] final(world).cameras@[i],
            ),
{
    let n = world.cameras.len();
    let mut i: usize = 0;
    while i < n
        invariant
            old(world).wf(),
            camera_settings.wf(),
            n == world.cameras@.len(),
            world.cameras@.len() == old(world).cameras@.len(),
            world.targets@ == old(world).targets@,
            i <= n,
            forall|k: int|
                0 <= k < i ==> backfilled(
                    old(world).cameras@[k],
                    old(world).tgt(old(world).cameras@[k].camera.target).position,
                    *camera_settings,
                    #[trigger] world.cameras@[k],
                ),
            forall|k: int| i <= k < n ==> world.cameras@[k] == old(world).cameras@[k],
        decreases n - i,
    {
        let c = world.cameras[i];
        if !c.initialized {
            proof {
                assert(world.tgt_ids_unique());
            }
            let jt = match world.find_target(c.camera.target) {
                Some(j) => j,
                None => {
                    proof {
                        // the relationship invariant makes every camera's target resolvable
                        let t = old(world).cameras@[i as int].camera.target;
                        assert(old(world).has_target(t));
                        let jj = old(world).tgt_index(t);
                        assert(old(world).targets@[jj].id == t);
                        assert(world.targets@[jj].id == t);
                        assert(false);
                    }
                    0
                },
            };
            let tpos = world.targets[jt].position;
            proof {
                old(world).lemma_tgt_index(c.camera.target, jt as int);
                assert(old(world).targets@[jt as int].wf());
            }
            if c.camera_offset.is_none() {
                world.cameras[i].camera_offset = Some(
                    CameraOffset(camera_settings.default_camera_offset),
                );
            }
            if c.target_offset.is_none() {
                world.cameras[i].target_offset = Some(
                    TargetOffset(camera_settings.default_target_offset),
                );
            }
            if c.target_point.is_none() {
                let off = match c.target_offset {
                    Some(t) => t.0,
                    None => camera_settings.default_target_offset,
                };
                let tp = tpos.add(&off);
                world.cameras[i].target_point = Some(TargetPoint(tp));
            }
            if c.damping_factor.is_none() {
                match camera_settings.default_damping {
                    Some(d) => {
                        world.cameras[i].damping_factor = Some(DampingFactor(d));
                    },
                    None => {},
                }
            }
            world.cameras[i].initialized = true;
        }
        i += 1;
    }
    proof {
        assert forall|k: int| 0 <= k < world.cameras@.len() implies {
            let c = #[trigger] world.cameras@[k];
            c.id == old(world).cameras@[k].id && c.camera == old(world).cameras@[k].camera
                && c.wf()
        } by {
            assert(backfilled(
                old(world).cameras@[k],
                old(world).tgt(old(world).cameras@[k].camera.target).position,
                *camera_settings,
                world.cameras@[k],
            ));
            assert(old(world).cameras@[k].wf());
            let t = old(world).cameras@[k].camera.target;
            let jj = old(world).tgt_index(t);
            assert(old(world).targets@[jj].wf());
        }
        world.lemma_links_from_structure(*old(world));
    }
}

/// The earlier, lighter backfill stage: only the two offsets of newly
/// created cameras, from the settings' defaults, idempotently. It does not
/// mark the record seen, so the full backfill still completes it.
pub fn spawn_offset_s(world: &mut CameraWorld, camera_settings: &ThirdPersonCameraSettings)
    requires
        old(world).wf(),
        camera_settings.wf(),
    ensures
        final(world).wf(),
        final(world).targets@ == old(world).targets@,
        final(world).cameras@.len() == old(world).cameras@.len(),
        forall|i: int|
            0 <= i < old(world).cameras@.len() ==> {
                let c0 = old(world).cameras@[i];
                let c1 = #[trigger] final(world).cameras@[i];
                &&& c1 == (crate::world::CameraRecord {
                    camera_offset: c1.camera_offset,
                    target_offset: c1.target_offset,
                    ..c0
                })
                &&& c1.camera_offset == (if c0.camera_offset is Some || c0.initialized {
                    c0.camera_offset
                } else {
                    Some(CameraOffset(camera_settings.default_camera_offset))
                })
                &&& c1.target_offset == (if c0.target_offset is Some || c0.initialized {
                    c0.target_offset
                } else {
                    Some(TargetOffset(camera_settings.default_target_offset))
                })
            },
{
    let n = world.cameras.len();
    let mut i: usize = 0;
    while i < n
        invariant
            old(world).wf(),
            camera_settings.wf(),
            n == world.cameras@.len(),
            world.cameras@.len() == old(world).cameras@.len(),
            world.targets@ == old(world).targets@,
            i <= n,
            forall|k: int|
                0 <= k < i ==> {
                    let c0 = old(world).cameras@[k];
                    let c1 = #[trigger] world.cameras@[k];
                    &&& c1 == (crate::world::CameraRecord {
                        camera_offset: c1.camera_offset,
                        target_offset: c1.target_offset,
                        ..c0
                    })
                    &&& c1.camera_offset == (if c0.camera_offset is Some || c0.initialized {
                        c0.camera_offset
                    } else {
                        Some(CameraOffset(camera_settings.default_camera_offset))
                    })
                    &&& c1.target_offset == (if c0.target_offset is Some || c0.initialized {
                        c0.target_offset
                    } else {
                        Some(TargetOffset(camera_settings.default_target_offset))
                    })
                },
            forall|k: int| i <= k < n ==> world.cameras@[k] == old(world).cameras@[k],
        decreases n - i,
    {
        let c = world.cameras[i];
        if !c.initialized {
            if c.camera_offset.is_none() {
                world.cameras[i].camera_offset = Some(
                    CameraOffset(camera_settings.default_camera_offset),
                );
            }
            if c.target_offset.is_none() {
                world.cameras[i].target_offset = Some(
                    TargetOffset(camera_settings.default_target_offset),
                );
            }
        }
        i += 1;
    }
    proof {
        assert forall|k: int| 0 <= k < world.cameras@.len() implies {
            let c = #[trigger] world.cameras@[k];
            c.id == old(world).cameras@[k].id && c.camera == old(world).cameras@[k].camera
                && c.wf()
        } by {
            assert(old(world).cameras@[k].wf());
        }
        world.lemma_links_from_structure(*old(world));
    }
}

/// How the tracker rewrites one camera record when its target carries the
/// changed-detection mark: the new target point is the target's position
/// plus the camera's own target offset, reached immediately with no
/// damping factor, or by one literal time-scaled interpolation step —
/// `point + (pivot - point) * (elapsed time x damping)` per axis, which
/// overshoots past the pivot when that fraction exceeds one. A damped step
/// whose result would leave the representable coordinate range is dropped
/// whole (a machine limit of the fixed-point model, like an out-of-range
/// zoom). Everything else is untouched, as is a camera whose target did
/// not move or whose components are absent.
pub open spec fn tracked_point(
    c0: crate::world::CameraRecord,
    t0: crate::world::TargetRecord,
    dt: int,
    c1: crate::world::CameraRecord,
) -> bool {
    &&& c1 == (crate::world::CameraRecord { target_point: c1.target_point, ..c0 })
    &&& if t0.moved && c0.target_offset is Some && c0.target_point is Some {
        let ax = t0.position.x + c0.target_offset.unwrap().0.x;
        let ay = t0.position.y + c0.target_offset.unwrap().0.y;
        let az = t0.position.z + c0.target_offset.unwrap().0.z;
        match c0.damping_factor {
            None => c1.target_point == Some(
                TargetPoint(Vec3Fx { x: ax as i64, y: ay as i64, z: az as i64 }),
            ),
            Some(d) => {
                let t = div_s(dt * d.0);
                let nx = lerp_1(c0.target_point.unwrap().0.x as int, ax, t);
                let ny = lerp_1(c0.target_point.unwrap().0.y as int, ay, t);
                let nz = lerp_1(c0.target_point.unwrap().0.z as int, az, t);
                if absi(nx) <= 2 * POS_ABS_MAX && absi(ny) <= 2 * POS_ABS_MAX && absi(nz) <= 2
                    * POS_ABS_MAX {
                    c1.target_point == Some(
                        TargetPoint(Vec3Fx { x: nx as i64, y: ny as i64, z: nz as i64 }),
                    )
                } else {
                    c1.target_point == c0.target_point
                }
            },
        }
    } else {
        c1.target_point == c0.target_point
    }
}

/// Recompute the smoothed target point of every camera whose target moved
/// this tick, each camera using its own target offset and damping factor.
/// With no damping factor the point lands exactly on
/// `target position + target offset`; with one, zero elapsed time moves
/// nothing.
///
/// The damping step preserves the literal time-scaled linear
/// interpolation, overshoot included: the fraction's `[0, 1]` range stays
/// the caller's responsibility and is not enforced here. The one guard is
/// the fixed-point model's machine limit, stated in [`tracked_point`]: a
/// step whose result cannot be represented is dropped, leaving the point
/// where it was.
pub fn calculate_target_point_s(world: &mut CameraWorld, dt: i64)
    requires
        old(world).wf(),
        0 <= dt <= DT_MAX,
    ensures
        final(world).wf(),
        final(world).targets@ == old(world).targets@,
        final(world).cameras@.len() == old(world).cameras@.len(),
        forall|i: int|
            0 <= i < old(world).cameras@.len() ==> tracked_point(
                old(world).cameras@[i],
                old(world).tgt(old(world).cameras@[i].camera.target),
                dt as int,
                #[trigger] final(world).cameras@[i],
            ),
        dt == 0 ==> forall|i: int|
            0 <= i < old(world).cameras@.len() && old(world).cameras@[i].damping_factor is Some
                ==> (#[trigger] final(world).cameras@[i]).target_point == old(
                world,
            ).cameras@[i].target_point,
{
    let n = world.cameras.len();
    let mut i: usize = 0;
    while i < n
        invariant
            old(world).wf(),
            0 <= dt <= DT_MAX,
            n == world.cameras@.len(),
            world.cameras@.len() == old(world).cameras@.len(),
            world.targets@ == old(world).targets@,
            i <= n,
            forall|k: int|
                0 <= k < i ==> tracked_point(
                    old(world).cameras@[k],
                    old(world).tgt(old(world).cameras@[k].camera.target),
                    dt as int,
                    #[trigger] world.cameras@[k],
                ),
            forall|k: int| 0 <= k < i ==> (#[trigger] world.cameras@[k]).wf(),
            forall|k: int| i <= k < n ==> world.cameras@[k] == old(world).cameras@[k],
        decreases n - i,
    {
        let c = world.cameras[i];
        proof {
            assert(world.tgt_ids_unique());
        }
        let jt = match world.find_target(c.camera.target) {
            Some(j) => j,
            None => {
                proof {
                    // the relationship invariant makes every camera's target resolvable
                    let t = old(world).cameras@[i as int].camera.target;
                    assert(old(world).has_target(t));
                    let jj = old(world).tgt_index(t);
                    assert(world.targets@[jj].id == t);
                    assert(false);
                }
                0
            },
        };
        proof {
            old(world).lemma_tgt_index(c.camera.target, jt as int);
            assert(old(world).targets@[jt as int].wf());
            assert(old(world).cameras@[i as int].wf());
        }
        let tgt = world.targets[jt].moved;
        let toff = match c.target_offset {
            Some(t) => Some(t.0),
            None => None,
        };
        let tp0 = match c.target_point {
            Some(t) => Some(t.0),
            None => None,
        };
        if tgt && toff.is_some() && tp0.is_some() {
            let toff = toff.unwrap();
            let tp0 = tp0.unwrap();
            let tpos = world.targets[jt].position;
            let absolute = tpos.add(&toff);
            let tp1 = match c.damping_factor {
                None => absolute,
                Some(d) => {
                    proof {
                        assert(0 <= (dt as int) * (d.0 as int)
                            <= 1_000_000_000_000_000_000_000_000) by (nonlinear_arith)
                            requires
                                0 <= dt <= DT_MAX,
                                0 <= d.0 <= DAMP_MAX,
                        ;
                        crate::math::lemma_div_s_bound(
                            (dt as int) * (d.0 as int),
                            1_000_000_000_000_000_000,
                        );
                        vstd::arithmetic::div_mod::lemma_div_pos_is_pos(
                            (dt as int) * (d.0 as int),
                            SCALE as int,
                        );
                    }
                    let tfrac = scale_down((dt as i128) * (d.0 as i128));
                    let nx = lerp_wide(tp0.x, absolute.x, tfrac);
                    let ny = lerp_wide(tp0.y, absolute.y, tfrac);
                    let nz = lerp_wide(tp0.z, absolute.z, tfrac);
                    let lim: i128 = 2 * (POS_ABS_MAX as i128);
                    if -lim <= nx && nx <= lim && -lim <= ny && ny <= lim && -lim <= nz && nz
                        <= lim {
                        Vec3Fx { x: nx as i64, y: ny as i64, z: nz as i64 }
                    } else {
                        tp0
                    }
                },
            };
            world.cameras[i].target_point = Some(TargetPoint(tp1));
        }
        i += 1;
    }
    proof {
        assert forall|k: int| 0 <= k < world.cameras@.len() implies {
            let c = #[trigger] world.cameras@[k];
            c.id == old(world).cameras@[k].id && c.camera == old(world).cameras@[k].camera
                && c.wf()
        } by {
            assert(tracked_point(
                old(world).cameras@[k],
                old(world).tgt(old(world).cameras@[k].camera.target),
                dt as int,
                world.cameras@[k],
            ));
            assert(old(world).cameras@[k].wf());
            let t = old(world).cameras@[k].camera.target;
            let jj = old(world).tgt_index(t);
            assert(old(world).targets@[jj].wf());
        }
        world.lemma_links_from_structure(*old(world));
        if dt == 0 {
            assert forall|i: int|
                0 <= i < old(world).cameras@.len() && old(
                    world,
                ).cameras@[i].damping_factor is Some implies (#[trigger] world.cameras@[i]).target_point
                == old(world).cameras@[i].target_point by {
                let c0 = old(world).cameras@[i];
                let t0 = old(world).tgt(c0.camera.target);
                assert(tracked_point(c0, t0, 0, world.cameras@[i]));
                if t0.moved && c0.target_offset is Some && c0.target_point is Some {
                    let d = c0.damping_factor.unwrap();
                    assert(div_s(0 * d.0) == 0) by {
                        vstd::arithmetic::div_mod::lemma_div_of0(SCALE as int);
                    }
                    crate::math::lemma_lerp_zero(
                        c0.target_point.unwrap().0.x as int,
                        t0.position.x + c0.target_offset.unwrap().0.x,
                    );
                    crate::math::lemma_lerp_zero(
                        c0.target_point.unwrap().0.y as int,
                        t0.position.y + c0.target_offset.unwrap().0.y,
                    );
                    crate::math::lemma_lerp_zero(
                        c0.target_point.unwrap().0.z as int,
                        t0.position.z + c0.target_offset.unwrap().0.z,
                    );
                }
            }
        }
    }
}

/// How the translation pass after target moves rewrites one camera
/// record: if the target carries the changed-detection mark and the camera
/// can resolve its offset and target point, the world position is
/// recomputed from the current orientation; otherwise nothing changes.
pub open spec fn refreshed_after_target(
    c0: crate::world::CameraRecord,
    t0: crate::world::TargetRecord,
    c1: crate::world::CameraRecord,
) -> bool {
    &&& c1 == (crate::world::CameraRecord { translation: c1.translation, ..c0 })
    &&& if t0.moved && c0.camera_offset is Some && c0.target_point is Some {
        let t = crate::observers::translation_spec(
            c0.orientation,
            c0.target_point.unwrap().0,
            c0.camera_offset.unwrap().0,
        );
        &&& c1.translation.x == t.0
        &&& c1.translation.y == t.1
        &&& c1.translation.z == t.2
    } else {
        c1.translation == c0.translation
    }
}

/// Refresh the world position of every camera whose target moved this
/// tick, so the translation never uses a stale target point.
pub fn adjust_translation_after_target_s(world: &mut CameraWorld)
    requires
        old(world).wf(),
    ensures
        final(world).wf(),
        final(world).targets@ == old(world).targets@,
        final(world).cameras@.len() == old(world).cameras@.len(),
        forall|i: int|
            0 <= i < old(world).cameras@.len() ==> refreshed_after_target(
                old(world).cameras@[i],
                old(world).tgt(old(world).cameras@[i].camera.target),
                #[trigger] final(world).cameras@[i],
            ),
{
    let n = world.cameras.len();
    let mut i: usize = 0;
    while i < n
        invariant
            old(world).wf(),
            n == world.cameras@.len(),
            world.cameras@.len() == old(world).cameras@.len(),
            world.targets@ == old(world).targets@,
            i <= n,
            forall|k: int|
                0 <= k < i ==> refreshed_after_target(
                    old(world).cameras@[k],
                    old(world).tgt(old(world).cameras@[k].camera.target),
                    #[trigger] world.cameras@[k],
                ),
            forall|k: int| 0 <= k < i ==> (#[trigger] world.cameras@[k]).wf(),
            forall|k: int| i <= k < n ==> world.cameras@[k] == old(world).cameras@[k],
        decreases n - i,
    {
        let c = world.cameras[i];
        proof {
            assert(world.tgt_ids_unique());
        }
        let jt = match world.find_target(c.camera.target) {
            Some(j) => j,
            None => {
                proof {
                    // the relationship invariant makes every camera's target resolvable
                    let t = old(world).cameras@[i as int].camera.target;
                    assert(old(world).has_target(t));
                    let jj = old(world).tgt_index(t);
                    assert(world.targets@[jj].id == t);
                    assert(false);
                }
                0
            },
        };
        proof {
            old(world).lemma_tgt_index(c.camera.target, jt as int);
            assert(old(world).cameras@[i as int].wf());
        }
        let moved = world.targets[jt].moved;
        if moved && c.camera_offset.is_some() && c.target_point.is_some() {
            let off = match c.camera_offset {
                Some(o) => o.0,
                None => Vec3Fx::zero(),
            };
            let tp = match c.target_point {
                Some(t) => t.0,
                None => Vec3Fx::zero(),
            };
            let r = crate::math::rotate_vec(&c.orientation, &off);
            let t = tp.sub(&r);
            world.cameras[i].translation = t;
        }
        i += 1;
    }
    proof {
        assert forall|k: int| 0 <= k < world.cameras@.len() implies {
            let c = #[trigger] world.cameras@[k];
            c.id == old(world).cameras@[k].id && c.camera == old(world).cameras@[k].camera
                && c.wf()
        } by {
            assert(refreshed_after_target(
                old(world).cameras@[k],
                old(world).tgt(old(world).cameras@[k].camera.target),
                world.cameras@[k],
            ));
            assert(old(world).cameras@[k].wf());
        }
        world.lemma_links_from_structure(*old(world));
    }
}

/// One diagnostic line of the relation overlay, from a target's pivot to
/// a following camera's world position.
#[derive(Clone, Copy, Debug, PartialEq, Eq, Structural)]
pub struct GizmoLine {
    pub from: Vec3Fx,
    pub to: Vec3Fx,
}

/// The overlay lines for the first `n` cameras, in camera order: one line
/// per camera that carries a target offset, from the target's position
/// shifted by that offset to the camera's world position.
pub open spec fn gizmo_lines_spec(w: CameraWorld, n: int) -> Seq<GizmoLine>
    decreases n,
{
    if n <= 0 {
        Seq::empty()
    } else {
        let pre = gizmo_lines_spec(w, n - 1);
        let c = w.cameras@[n - 1];
        if c.target_offset is Some {
            let tpos = w.tgt(c.camera.target).position;
            pre.push(
                GizmoLine {
                    from: Vec3Fx {
                        x: (tpos.x + c.target_offset.unwrap().0.x) as i64,
                        y: (tpos.y + c.target_offset.unwrap().0.y) as i64,
                        z: (tpos.z + c.target_offset.unwrap().0.z) as i64,
                    },
                    to: c.translation,
                },
            )
        } else {
            pre
        }
    }
}

/// Collect the diagnostic lines between each target's pivot and its
/// followers' world positions. Read-only; empty when the overlay toggle is
/// off.
pub fn draw_relation_gizmo_s(
    world: &CameraWorld,
    camera_settings: &ThirdPersonCameraSettings,
) -> (r: Vec<GizmoLine>)
    requires
        world.wf(),
        camera_settings.wf(),
    ensures
        !camera_settings.show_relation_gizmo ==> r@ == Seq::<GizmoLine>::empty(),
        camera_settings.show_relation_gizmo ==> r@ == gizmo_lines_spec(
            *world,
            world.cameras@.len() as int,
        ),
{
    let mut r: Vec<GizmoLine> = Vec::new();
    if !camera_settings.show_relation_gizmo {
        return r;
    }
    let n = world.cameras.len();
    let mut i: usize = 0;
    while i < n
        invariant
            world.wf(),
            n == world.cameras@.len(),
            i <= n,
            r@ == gizmo_lines_spec(*world, i as int),
        decreases n - i,
    {
        let c = world.cameras[i];
        match c.target_offset {
            Some(toff) => {
                let jt = match world.find_target(c.camera.target) {
                    Some(j) => j,
                    None => {
                        proof {
                            // the relationship invariant makes every camera's target resolvable
                            let t = world.cameras@[i as int].camera.target;
                            assert(world.has_target(t));
                            assert(false);
                        }
                        0
                    },
                };
                proof {
                    world.lemma_tgt_index(c.camera.target, jt as int);
                    assert(world.targets@[jt as int].wf());
                    assert(world.cameras@[i as int].wf());
                }
                let tpos = world.targets[jt].position;
                let from = tpos.add(&toff.0);
                r.push(GizmoLine { from, to: c.translation });
            },
            None => {},
        }
        i += 1;
    }
    r
}

} // verus!
