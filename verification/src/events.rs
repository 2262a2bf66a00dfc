//! Commands flowing through the camera pipeline.
//!
//! The input mapper emits these for the active camera; the handlers in
//! [`crate::observers`] apply them. A command naming a camera that cannot
//! be resolved is dropped without touching any other state.

use vstd::prelude::*;

use crate::math::Vec2Fx;

verus! {

/// Assign the camera to be controlled locally.
#[derive(Clone, Copy, Debug, PartialEq, Eq, Structural)]
pub struct SetLocalCamera(pub u64);

/// Rotate a camera around its target: `delta.x` drives yaw, `delta.y`
/// drives pitch.
#[derive(Clone, Copy, Debug, PartialEq, Eq, Structural)]
pub struct RotateAroundTarget {
    pub camera: u64,
    pub delta: Vec2Fx,
}

/// Recompute a camera's world position from its orientation, target point
/// and camera offset.
#[derive(Clone, Copy, Debug, PartialEq, Eq, Structural)]
pub struct AdjustTranslation {
    pub camera: u64,
}

/// Zoom in or out (negative values zoom in): the value is added to the
/// camera offset's Z coordinate.
#[derive(Clone, Copy, Debug, PartialEq, Eq, Structural)]
pub struct Zoom {
    pub camera: u64,
    pub value: i64,
}

/// Roll the camera about its own forward axis by the given angle.
#[derive(Clone, Copy, Debug, PartialEq, Eq, Structural)]
pub struct Roll {
    pub camera: u64,
    pub value: i64,
}

} // verus!
