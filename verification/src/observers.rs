//! Command handlers: orbit, translation refresh, zoom, roll, and
//! active-camera assignment.
//!
//! Each handler resolves its camera by id; a command whose camera (or a
//! component the handler needs) cannot be resolved is dropped and nothing
//! is mutated. An orbit command is always followed by a translation
//! refresh for that camera; a roll or zoom command is not — the next
//! refresh picks the change up.

use vstd::prelude::*;

use crate::events::{AdjustTranslation, RotateAroundTarget, Roll, SetLocalCamera, Zoom};
use crate::math::{
    absi, clamp_i64, clamp_s, div_s, norm_angle, rotate_s, rotate_vec, scale_down, Orientation,
    Vec3Fx, CMD_DELTA_MAX, POS_ABS_MAX, SPEED_ABS_MAX, TWO_PI_FP,
};
use crate::plugin_settings::ThirdPersonCameraSettings;
use crate::world::{CameraRecord, CameraWorld};

verus! {

/// The yaw after an orbit command: the speed-scaled delta is subtracted
/// and the angle renormalized.
pub open spec fn orbit_yaw_spec(yaw: int, speed: int, dx: int) -> int {
    (yaw - div_s(speed * dx)) % (TWO_PI_FP as int)
}

/// The pitch after an orbit command: the speed-scaled delta is subtracted
/// and the result clamped into the configured pitch bounds.
pub open spec fn orbit_pitch_spec(pitch: int, speed: int, dy: int, pmin: int, pmax: int) -> int {
    clamp_s(pitch - div_s(speed * dy), pmin, pmax)
}

/// The roll after a roll command: the value is added and the angle
/// renormalized. Yaw and pitch are untouched by construction.
pub open spec fn roll_spec(roll: int, value: int) -> int {
    (roll + value) % (TWO_PI_FP as int)
}

/// The world position a translation refresh computes:
/// `targetPoint - orientation.rotate(cameraOffset)`, componentwise.
pub open spec fn translation_spec(o: Orientation, tp: Vec3Fx, off: Vec3Fx) -> (int, int, int) {
    let r = rotate_s(o, off);
    (tp.x - r.0, tp.y - r.1, tp.z - r.2)
}

/// A translation refresh for `id` can resolve everything it reads.
pub open spec fn translation_ready(w: CameraWorld, id: u64) -> bool {
    &&& w.has_camera(id)
    &&& w.cam(id).camera_offset is Some
    &&& w.cam(id).target_point is Some
}

/// A zoom by `v` on camera `id` resolves its offset and stays representable.
pub open spec fn zoom_ready(w: CameraWorld, id: u64, v: int) -> bool {
    &&& w.has_camera(id)
    &&& w.cam(id).camera_offset is Some
    &&& -POS_ABS_MAX <= w.cam(id).camera_offset.unwrap().0.z + v <= POS_ABS_MAX
}

/// Recompute a camera's world position from its current orientation,
/// target point and camera offset. Pure in those inputs and idempotent;
/// dropped if the camera or either component is missing.
pub fn adjust_translation_o(world: &mut CameraWorld, ev: AdjustTranslation)
    requires
        old(world).wf(),
    ensures
        final(world).wf(),
        !translation_ready(*old(world), ev.camera) ==> *final(world) == *old(world),
        translation_ready(*old(world), ev.camera) ==> {
            let i = old(world).cam_index(ev.camera);
            let c0 = old(world).cameras@[i];
            let t = translation_spec(c0.orientation, c0.target_point.unwrap().0, c0.camera_offset.unwrap().0);
            &&& final(world).cameras@.len() == old(world).cameras@.len()
            &&& final(world).targets@ == old(world).targets@
            &&& forall|j: int|
                0 <= j < old(world).cameras@.len() && j != i ==> final(world).cameras@[j] == old(
                    world,
                ).cameras@[j]
            &&& final(world).cameras@[i] == (CameraRecord {
                translation: final(world).cameras@[i].translation,
                ..c0
            })
            &&& final(world).cameras@[i].translation.x == t.0
            &&& final(world).cameras@[i].translation.y == t.1
            &&& final(world).cameras@[i].translation.z == t.2
        },
{
    let i = match world.find_camera(ev.camera) {
        Some(i) => i,
        None => {
            return ;
        },
    };
    let c = world.cameras[i];
    let off = match c.camera_offset {
        Some(o) => o.0,
        None => {
            return ;
        },
    };
    let tp = match c.target_point {
        Some(t) => t.0,
        None => {
            return ;
        },
    };
    let r = rotate_vec(&c.orientation, &off);
    let t = tp.sub(&r);
    world.cameras[i].translation = t;
    proof {
        world.lemma_links_from_structure(*old(world));
    }
}

/// Apply an orbit command: yaw and pitch move by the speed-scaled deltas
/// (pitch clamped into the configured bounds), roll is untouched, and the
/// camera's world position is refreshed from the new orientation. Dropped
/// if the camera cannot be resolved.
pub fn rotate_camera_o(
    world: &mut CameraWorld,
    camera_settings: &ThirdPersonCameraSettings,
    ev: RotateAroundTarget,
)
    requires
        old(world).wf(),
        camera_settings.wf(),
        absi(ev.delta.x as int) <= CMD_DELTA_MAX,
        absi(ev.delta.y as int) <= CMD_DELTA_MAX,
    ensures
        final(world).wf(),
        !old(world).has_camera(ev.camera) ==> *final(world) == *old(world),
        old(world).has_camera(ev.camera) ==> {
            let i = old(world).cam_index(ev.camera);
            let c0 = old(world).cameras@[i];
            let o1 = final(world).cameras@[i].orientation;
            &&& final(world).cameras@.len() == old(world).cameras@.len()
            &&& final(world).targets@ == old(world).targets@
            &&& forall|j: int|
                0 <= j < old(world).cameras@.len() && j != i ==> final(world).cameras@[j] == old(
                    world,
                ).cameras@[j]
            &&& final(world).cameras@[i] == (CameraRecord {
                orientation: o1,
                translation: final(world).cameras@[i].translation,
                ..c0
            })
            &&& o1.yaw == orbit_yaw_spec(
                c0.orientation.yaw as int,
                camera_settings.cam_speed as int,
                ev.delta.x as int,
            )
            &&& o1.pitch == orbit_pitch_spec(
                c0.orientation.pitch as int,
                camera_settings.cam_speed as int,
                ev.delta.y as int,
                camera_settings.pitch_min as int,
                camera_settings.pitch_max as int,
            )
            &&& camera_settings.pitch_min <= o1.pitch <= camera_settings.pitch_max
            &&& o1.roll == c0.orientation.roll
            &&& (c0.camera_offset is Some && c0.target_point is Some) ==> {
                let t = translation_spec(o1, c0.target_point.unwrap().0, c0.camera_offset.unwrap().0);
                &&& final(world).cameras@[i].translation.x == t.0
                &&& final(world).cameras@[i].translation.y == t.1
                &&& final(world).cameras@[i].translation.z == t.2
            }
            &&& !(c0.camera_offset is Some && c0.target_point is Some)
                ==> final(world).cameras@[i].translation == c0.translation
        },
{
    let i = match world.find_camera(ev.camera) {
        Some(i) => i,
        None => {
            return ;
        },
    };
    let c = world.cameras[i];
    let speed = camera_settings.cam_speed;
    proof {
        assert(absi((speed as int) * (ev.delta.x as int)) <= 1_000_000_000_000_000_000_000_000)
            by (nonlinear_arith)
            requires
                -SPEED_ABS_MAX <= speed <= SPEED_ABS_MAX,
                absi(ev.delta.x as int) <= CMD_DELTA_MAX,
        ;
        assert(absi((speed as int) * (ev.delta.y as int)) <= 1_000_000_000_000_000_000_000_000)
            by (nonlinear_arith)
            requires
                -SPEED_ABS_MAX <= speed <= SPEED_ABS_MAX,
                absi(ev.delta.y as int) <= CMD_DELTA_MAX,
        ;
        crate::math::lemma_div_s_bound(
            (speed as int) * (ev.delta.x as int),
            1_000_000_000_000_000_000,
        );
        crate::math::lemma_div_s_bound(
            (speed as int) * (ev.delta.y as int),
            1_000_000_000_000_000_000,
        );
    }
    let dyaw = scale_down((speed as i128) * (ev.delta.x as i128));
    let dpitch = scale_down((speed as i128) * (ev.delta.y as i128));
    let new_yaw = norm_angle(c.orientation.yaw - dyaw);
    let new_pitch = clamp_i64(
        c.orientation.pitch - dpitch,
        camera_settings.pitch_min,
        camera_settings.pitch_max,
    );
    world.cameras[i].orientation = Orientation {
        yaw: new_yaw,
        pitch: new_pitch,
        roll: c.orientation.roll,
    };
    proof {
        world.lemma_links_from_structure(*old(world));
    }
    let ghost wm = *world;
    adjust_translation_o(world, AdjustTranslation { camera: ev.camera });
    proof {
        if translation_ready(wm, ev.camera) {
            assert(wm.cam_index(ev.camera) == i);
        } else {
            assert(*final(world) == wm);
        }
    }
}

/// Apply a zoom command: the value is added, exactly, to the camera
/// offset's Z coordinate. Dropped if the camera or its offset cannot be
/// resolved, or if the new coordinate would leave the representable range.
pub fn zoom_s(world: &mut CameraWorld, ev: Zoom)
    requires
        old(world).wf(),
        absi(ev.value as int) <= CMD_DELTA_MAX,
    ensures
        final(world).wf(),
        !zoom_ready(*old(world), ev.camera, ev.value as int) ==> *final(world) == *old(world),
        zoom_ready(*old(world), ev.camera, ev.value as int) ==> {
            let i = old(world).cam_index(ev.camera);
            let c0 = old(world).cameras@[i];
            let off1 = final(world).cameras@[i].camera_offset;
            &&& final(world).cameras@.len() == old(world).cameras@.len()
            &&& final(world).targets@ == old(world).targets@
            &&& forall|j: int|
                0 <= j < old(world).cameras@.len() && j != i ==> final(world).cameras@[j] == old(
                    world,
                ).cameras@[j]
            &&& final(world).cameras@[i] == (CameraRecord { camera_offset: off1, ..c0 })
            &&& off1 is Some
            &&& off1.unwrap().0.x == c0.camera_offset.unwrap().0.x
            &&& off1.unwrap().0.y == c0.camera_offset.unwrap().0.y
            &&& off1.unwrap().0.z == c0.camera_offset.unwrap().0.z + ev.value
        },
{
    let i = match world.find_camera(ev.camera) {
        Some(i) => i,
        None => {
            return ;
        },
    };
    let c = world.cameras[i];
    let off = match c.camera_offset {
        Some(o) => o.0,
        None => {
            return ;
        },
    };
    let nz = off.z + ev.value;
    if nz < -POS_ABS_MAX || nz > POS_ABS_MAX {
        return ;
    }
    world.cameras[i].camera_offset = Some(
        crate::components::CameraOffset(Vec3Fx { x: off.x, y: off.y, z: nz }),
    );
    proof {
        world.lemma_links_from_structure(*old(world));
    }
}

/// Apply a roll command: the camera turns about its own forward axis by
/// the given angle; yaw and pitch are unchanged, and the world position is
/// not recomputed (it does not depend on roll). Dropped if the camera
/// cannot be resolved.
pub fn roll_camera_s(world: &mut CameraWorld, ev: Roll)
    requires
        old(world).wf(),
        absi(ev.value as int) <= CMD_DELTA_MAX,
    ensures
        final(world).wf(),
        !old(world).has_camera(ev.camera) ==> *final(world) == *old(world),
        old(world).has_camera(ev.camera) ==> {
            let i = old(world).cam_index(ev.camera);
            let c0 = old(world).cameras@[i];
            let o1 = final(world).cameras@[i].orientation;
            &&& final(world).cameras@.len() == old(world).cameras@.len()
            &&& final(world).targets@ == old(world).targets@
            &&& forall|j: int|
                0 <= j < old(world).cameras@.len() && j != i ==> final(world).cameras@[j] == old(
                    world,
                ).cameras@[j]
            &&& final(world).cameras@[i] == (CameraRecord { orientation: o1, ..c0 })
            &&& o1.roll == roll_spec(c0.orientation.roll as int, ev.value as int)
            &&& o1.yaw == c0.orientation.yaw
            &&& o1.pitch == c0.orientation.pitch
        },
{
    let i = match world.find_camera(ev.camera) {
        Some(i) => i,
        None => {
            return ;
        },
    };
    let c = world.cameras[i];
    let new_roll = norm_angle(c.orientation.roll + ev.value);
    world.cameras[i].orientation = Orientation {
        yaw: c.orientation.yaw,
        pitch: c.orientation.pitch,
        roll: new_roll,
    };
    proof {
        world.lemma_links_from_structure(*old(world));
    }
}

/// Assign the camera that receives mapped input commands. Overwrites
/// unconditionally; an invalid reference is caught downstream when
/// commands fail to resolve.
pub fn set_local_cam_s(camera_settings: &mut ThirdPersonCameraSettings, ev: SetLocalCamera)
    ensures
        *final(camera_settings) == (ThirdPersonCameraSettings {
            local_cam: Some(ev.0),
            ..*old(camera_settings)
        }),
{
    camera_settings.local_cam = Some(ev.0);
}

/// After an orbit command the pitch lies within the configured bounds,
/// whatever the pitch was before and however large the delta is — so any
/// sequence of orbit commands ends with the pitch in bounds.
pub proof fn lemma_orbit_pitch_in_bounds(pitch: int, speed: int, dy: int, pmin: int, pmax: int)
    requires
        pmin <= pmax,
    ensures
        pmin <= orbit_pitch_spec(pitch, speed, dy, pmin, pmax) <= pmax,
{
}

/// Zoom commands are additive and commutative in total effect: zooming by
/// `v1` and then by `v2` moves the offset's Z coordinate by `v1 + v2`,
/// the same as zooming by `v2` and then `v1`.
pub proof fn lemma_zoom_zoom(z0: int, v1: int, v2: int)
    ensures
        (z0 + v1) + v2 == z0 + (v1 + v2),
        (z0 + v1) + v2 == (z0 + v2) + v1,
{
}

} // verus!
