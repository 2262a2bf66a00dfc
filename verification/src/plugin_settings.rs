//! Process-wide camera settings: defaults for the per-camera components,
//! pitch bounds, speed scalars, key bindings, the active camera and the
//! debug-overlay toggle. Injected once by the host and mutable at runtime;
//! every reader takes it as an explicit parameter.

use vstd::prelude::*;

use crate::math::{
    Vec3Fx, DAMP_MAX, HALF_PI_FP, POS_ABS_MAX, SCALE, SPEED_ABS_MAX,
};

verus! {

/// Default binding code for the pitch-up key.
pub const KEY_UP: u32 = 1;

/// Default binding code for the pitch-down key.
pub const KEY_DOWN: u32 = 2;

/// Default binding code for the yaw-left key.
pub const KEY_LEFT: u32 = 3;

/// Default binding code for the yaw-right key.
pub const KEY_RIGHT: u32 = 4;

/// Default binding code for the clockwise-roll key.
pub const KEY_ROLL_CW: u32 = 5;

/// Default binding code for the counterclockwise-roll key.
pub const KEY_ROLL_CCW: u32 = 6;

/// 89 degrees in fixed-point radians, the default upper pitch bound.
pub const PITCH_DEFAULT_BOUND: i64 = 1_553_343;

/// Minus 89 degrees in fixed-point radians, the default lower pitch bound.
pub const PITCH_DEFAULT_MIN: i64 = -1_553_343;

/// Default pointer speed: 0.005 in fixed point.
pub const MOUSE_SPEED_DEFAULT: i64 = 5_000;

/// Default camera offset Z: fifteen units behind the pivot.
pub const CAMERA_OFFSET_Z_DEFAULT: i64 = -15_000_000;

/// The shared configuration of the camera core. Key bindings are abstract
/// `u32` codes: the host maps its own key identifiers onto these when it
/// fills the per-tick input frame.
#[derive(Clone, Copy, Debug, PartialEq, Eq, Structural)]
pub struct ThirdPersonCameraSettings {
    /// The position of the camera relative to the target point, used when a
    /// camera has no `CameraOffset` of its own.
    pub default_camera_offset: Vec3Fx,
    /// Shift of the target point relative to the target coordinates, used
    /// when a camera has no `TargetOffset` of its own.
    pub default_target_offset: Vec3Fx,
    /// Damping backfilled onto new cameras; absent means no smoothing.
    pub default_damping: Option<i64>,
    pub pitch_max: i64,
    pub pitch_min: i64,
    /// The camera currently receiving mapped input commands, if any.
    pub local_cam: Option<u64>,
    /// Orbit speed scalar for key-driven rotation and roll.
    pub cam_speed: i64,
    /// Pointer speed scalar for mouse-driven rotation.
    pub mouse_speed: i64,
    pub up: u32,
    pub down: u32,
    pub left: u32,
    pub right: u32,
    pub roll_clockwise: u32,
    pub roll_counterclockwise: u32,
    /// Draw a diagnostic line from each pivot to its cameras.
    pub show_relation_gizmo: bool,
}

impl ThirdPersonCameraSettings {
    /// Ranges every consumer of the settings relies on: pitch bounds are an
    /// ordered interval within a quarter turn, speeds are bounded in
    /// magnitude (a negative scalar inverts the controls), damping is
    /// nonnegative and bounded, default offsets are representable.
    pub open spec fn wf(self) -> bool {
        &&& -HALF_PI_FP <= self.pitch_min <= self.pitch_max <= HALF_PI_FP
        &&& -SPEED_ABS_MAX <= self.cam_speed <= SPEED_ABS_MAX
        &&& -SPEED_ABS_MAX <= self.mouse_speed <= SPEED_ABS_MAX
        &&& self.default_camera_offset.bounded(POS_ABS_MAX as int)
        &&& self.default_target_offset.bounded(POS_ABS_MAX as int)
        &&& match self.default_damping {
            Some(d) => 0 <= d <= DAMP_MAX,
            None => true,
        }
    }

    /// The settings `Default` produces.
    pub open spec fn default_spec() -> ThirdPersonCameraSettings {
        ThirdPersonCameraSettings {
            default_camera_offset: Vec3Fx { x: 0, y: 0, z: CAMERA_OFFSET_Z_DEFAULT },
            default_target_offset: Vec3Fx { x: 0, y: 0, z: 0 },
            default_damping: None,
            pitch_max: PITCH_DEFAULT_BOUND,
            pitch_min: PITCH_DEFAULT_MIN,
            local_cam: None,
            cam_speed: SCALE,
            mouse_speed: MOUSE_SPEED_DEFAULT,
            up: KEY_UP,
            down: KEY_DOWN,
            left: KEY_LEFT,
            right: KEY_RIGHT,
            roll_clockwise: KEY_ROLL_CW,
            roll_counterclockwise: KEY_ROLL_CCW,
            show_relation_gizmo: false,
        }
    }
}

impl Default for ThirdPersonCameraSettings {
    /// Unit orbit speed, a camera fifteen units behind the pivot, pitch
    /// clamped to 89 degrees either way, no damping, no active camera.
    fn default() -> (r: Self)
        ensures
            r == ThirdPersonCameraSettings::default_spec(),
            r.wf(),
    {
        ThirdPersonCameraSettings {
            default_camera_offset: Vec3Fx { x: 0, y: 0, z: CAMERA_OFFSET_Z_DEFAULT },
            default_target_offset: Vec3Fx { x: 0, y: 0, z: 0 },
            default_damping: None,
            pitch_max: PITCH_DEFAULT_BOUND,
            pitch_min: PITCH_DEFAULT_MIN,
            local_cam: None,
            cam_speed: SCALE,
            mouse_speed: MOUSE_SPEED_DEFAULT,
            up: KEY_UP,
            down: KEY_DOWN,
            left: KEY_LEFT,
            right: KEY_RIGHT,
            roll_clockwise: KEY_ROLL_CW,
            roll_counterclockwise: KEY_ROLL_CCW,
            show_relation_gizmo: false,
        }
    }
}

} // verus!
