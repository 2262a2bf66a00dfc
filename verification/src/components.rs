//! Per-entity state of the camera core.
//!
//! A camera entity carries a required [`ThirdPersonCamera`] link to its
//! target plus optional auxiliary components; absent ones are backfilled
//! from the settings' defaults on the next tick (never overwritten once
//! present). A target entity carries a [`ThirdPersonCameraTarget`]
//! back-reference listing its followers in insertion order.

use vstd::prelude::*;

use crate::math::Vec3Fx;

verus! {

/// Position of the camera relative to the target point, expressed in the
/// camera's own rotated frame.
#[derive(Clone, Copy, Debug, PartialEq, Eq, Structural)]
pub struct CameraOffset(pub Vec3Fx);

/// Shift of the target point relative to the target's coordinates.
/// For example, if the character's coordinate point is at the feet,
/// shift the rotation point, Y-wise, to the character's chest.
#[derive(Clone, Copy, Debug, PartialEq, Eq, Structural)]
pub struct TargetOffset(pub Vec3Fx);

/// Delays camera tracking if present. The lower the value, the greater the
/// delay; absent means instantaneous tracking.
#[derive(Clone, Copy, Debug, PartialEq, Eq, Structural)]
pub struct DampingFactor(pub i64);

/// The smoothed pivot the camera orbits: derived from the target position,
/// [`TargetOffset`] and [`DampingFactor`], recomputed as the target moves.
#[derive(Clone, Copy, Debug, PartialEq, Eq, Structural)]
pub struct TargetPoint(pub Vec3Fx);

/// The camera-side half of the relationship: a reference to exactly one
/// target entity, fixed at creation.
#[derive(Clone, Copy, Debug, PartialEq, Eq, Structural)]
pub struct ThirdPersonCamera {
    pub target: u64,
}

impl ThirdPersonCamera {
    /// A camera link aimed at `target`.
    pub fn aimed_at(target: u64) -> (r: Self)
        ensures
            r.target == target,
    {
        Self { target }
    }
}

/// The target-side half of the relationship: the cameras currently
/// following this target, in insertion order. It only indexes the cameras,
/// it never owns them; [`crate::world::CameraWorld`] keeps both halves
/// consistent through a single mutation path.
#[derive(Clone, Debug, PartialEq, Eq)]
pub struct ThirdPersonCameraTarget(pub Vec<u64>);

impl ThirdPersonCameraTarget {
    /// The followers, camera ids in insertion order.
    pub open spec fn view(self) -> Seq<u64> {
        self.0@
    }

    /// An empty follower list.
    pub fn none() -> (r: Self)
        ensures
            r@ == Seq::<u64>::empty(),
    {
        ThirdPersonCameraTarget(Vec::new())
    }

    /// How many cameras follow this target.
    pub fn len(&self) -> (r: usize)
        ensures
            r == self@.len(),
    {
        self.0.len()
    }

    /// The follower at `i`, in insertion order.
    pub fn get(&self, i: usize) -> (r: u64)
        requires
            i < self@.len(),
        ensures
            r == self@[i as int],
    {
        self.0[i]
    }
}

} // verus!
