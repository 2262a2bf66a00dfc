//! The entity store of the camera core: camera records, target records,
//! and the two-sided camera/target relationship.
//!
//! The relationship is two independently owned indexes — each camera's
//! single [`ThirdPersonCamera`] reference and each target's
//! [`ThirdPersonCameraTarget`] follower list — kept mutually consistent by
//! a single mutation path ([`CameraWorld::attach`]). Well-formedness
//! ([`CameraWorld::wf`]) states that consistency together with the bounds
//! every stored coordinate obeys; every operation preserves it.

use vstd::prelude::*;

use crate::components::{
    CameraOffset, DampingFactor, TargetOffset, TargetPoint, ThirdPersonCamera,
    ThirdPersonCameraTarget,
};
use crate::math::{Orientation, Vec3Fx, DAMP_MAX, POS_ABS_MAX, TRANS_ABS_MAX};

verus! {

/// One camera entity: its link to the target, its optional auxiliary
/// components, and its transform (orientation plus world position).
#[derive(Clone, Copy, Debug)]
pub struct CameraRecord {
    pub id: u64,
    pub camera: ThirdPersonCamera,
    pub camera_offset: Option<CameraOffset>,
    pub target_offset: Option<TargetOffset>,
    pub target_point: Option<TargetPoint>,
    pub damping_factor: Option<DampingFactor>,
    pub orientation: Orientation,
    pub translation: Vec3Fx,
    /// Set once the backfill stage has seen this record (the stand-in for
    /// the engine's newly-added filter): absent components are filled from
    /// the defaults only on the first tick after creation, never later.
    pub initialized: bool,
}

impl CameraRecord {
    /// Bounds on everything the record stores.
    pub open spec fn wf(self) -> bool {
        &&& self.orientation.wf()
        &&& self.translation.bounded(TRANS_ABS_MAX as int)
        &&& match self.camera_offset {
            Some(c) => c.0.bounded(POS_ABS_MAX as int),
            None => true,
        }
        &&& match self.target_offset {
            Some(t) => t.0.bounded(POS_ABS_MAX as int),
            None => true,
        }
        &&& match self.target_point {
            Some(t) => t.0.bounded(2 * POS_ABS_MAX),
            None => true,
        }
        &&& match self.damping_factor {
            Some(d) => 0 <= d.0 <= DAMP_MAX,
            None => true,
        }
    }
}

/// One target entity: its transform position, the changed-detection mark
/// set by [`CameraWorld::move_target`], and the follower back-reference.
#[derive(Clone, Debug)]
pub struct TargetRecord {
    pub id: u64,
    pub position: Vec3Fx,
    pub moved: bool,
    pub target: ThirdPersonCameraTarget,
}

impl TargetRecord {
    pub open spec fn wf(self) -> bool {
        self.position.bounded(POS_ABS_MAX as int)
    }
}

/// The camera core's view of the scene: every tracked camera and target.
pub struct CameraWorld {
    pub cameras: Vec<CameraRecord>,
    pub targets: Vec<TargetRecord>,
}

impl CameraWorld {
    /// Some camera record carries this id.
    pub open spec fn has_camera(self, id: u64) -> bool {
        exists|i: int| 0 <= i < self.cameras@.len() && self.cameras@[i].id == id
    }

    /// The index of the camera record carrying `id` (unique under `wf`).
    pub open spec fn cam_index(self, id: u64) -> int {
        choose|i: int| 0 <= i < self.cameras@.len() && self.cameras@[i].id == id
    }

    /// The camera record carrying `id`.
    pub open spec fn cam(self, id: u64) -> CameraRecord {
        self.cameras@[self.cam_index(id)]
    }

    /// Some target record carries this id.
    pub open spec fn has_target(self, id: u64) -> bool {
        exists|j: int| 0 <= j < self.targets@.len() && self.targets@[j].id == id
    }

    /// The index of the target record carrying `id` (unique under `wf`).
    pub open spec fn tgt_index(self, id: u64) -> int {
        choose|j: int| 0 <= j < self.targets@.len() && self.targets@[j].id == id
    }

    /// The target record carrying `id`.
    pub open spec fn tgt(self, id: u64) -> TargetRecord {
        self.targets@[self.tgt_index(id)]
    }

    /// The cameras following target `id`, in insertion order.
    pub open spec fn followers_of(self, id: u64) -> Seq<u64> {
        self.tgt(id).target@
    }

    /// No two camera records share an id.
    pub open spec fn cam_ids_unique(self) -> bool {
        forall|i: int, j: int|
            0 <= i < self.cameras@.len() && 0 <= j < self.cameras@.len() && i != j
                ==> (#[trigger] self.cameras@[i]).id != (#[trigger] self.cameras@[j]).id
    }

    /// No two target records share an id.
    pub open spec fn tgt_ids_unique(self) -> bool {
        forall|i: int, j: int|
            0 <= i < self.targets@.len() && 0 <= j < self.targets@.len() && i != j
                ==> (#[trigger] self.targets@[i]).id != (#[trigger] self.targets@[j]).id
    }

    /// Every camera's target exists and lists the camera among its followers.
    pub open spec fn cameras_linked(self) -> bool {
        forall|i: int|
            0 <= i < self.cameras@.len() ==> {
                let c = #[trigger] self.cameras@[i];
                self.has_target(c.camera.target) && self.followers_of(c.camera.target).contains(
                    c.id,
                )
            }
    }

    /// Every follower entry names an existing camera aimed back at that target.
    pub open spec fn followers_linked(self) -> bool {
        forall|j: int, k: int|
            0 <= j < self.targets@.len() && 0 <= k < self.targets@[j].target@.len() ==> {
                let cid = #[trigger] self.targets@[j].target@[k];
                self.has_camera(cid) && self.cam(cid).camera.target == self.targets@[j].id
            }
    }

    /// No camera appears twice in a follower list.
    pub open spec fn followers_unique(self) -> bool {
        forall|j: int, k1: int, k2: int|
            0 <= j < self.targets@.len() && 0 <= k1 < self.targets@[j].target@.len() && 0 <= k2
                < self.targets@[j].target@.len() && k1 != k2
                ==> #[trigger] self.targets@[j].target@[k1] != #[trigger] self.targets@[j].target@[k2]
    }

    /// The relationship is symmetric and ids are unique, and every stored
    /// record obeys its bounds.
    pub open spec fn wf(self) -> bool {
        &&& self.cam_ids_unique()
        &&& self.tgt_ids_unique()
        &&& self.cameras_linked()
        &&& self.followers_linked()
        &&& self.followers_unique()
        &&& forall|i: int| 0 <= i < self.cameras@.len() ==> (#[trigger] self.cameras@[i]).wf()
        &&& forall|j: int| 0 <= j < self.targets@.len() ==> (#[trigger] self.targets@[j]).wf()
    }

    /// A camera record found at `i` pins down `cam_index`.
    pub proof fn lemma_cam_index(self, id: u64, i: int)
        requires
            self.cam_ids_unique(),
            0 <= i < self.cameras@.len(),
            self.cameras@[i].id == id,
        ensures
            self.has_camera(id),
            self.cam_index(id) == i,
            self.cam(id) == self.cameras@[i],
    {
        assert(self.has_camera(id));
        let j = self.cam_index(id);
        assert(0 <= j < self.cameras@.len() && self.cameras@[j].id == id);
    }

    /// A target record found at `j` pins down `tgt_index`.
    pub proof fn lemma_tgt_index(self, id: u64, j: int)
        requires
            self.tgt_ids_unique(),
            0 <= j < self.targets@.len(),
            self.targets@[j].id == id,
        ensures
            self.has_target(id),
            self.tgt_index(id) == j,
            self.tgt(id) == self.targets@[j],
    {
        assert(self.has_target(id));
        let k = self.tgt_index(id);
        assert(0 <= k < self.targets@.len() && self.targets@[k].id == id);
    }

    /// An empty scene.
    pub fn new() -> (r: CameraWorld)
        ensures
            r.wf(),
            r.cameras@.len() == 0,
            r.targets@.len() == 0,
    {
        CameraWorld { cameras: Vec::new(), targets: Vec::new() }
    }

    /// Linear lookup of a camera record by id.
    pub fn find_camera(&self, id: u64) -> (r: Option<usize>)
        requires
            self.cam_ids_unique(),
        ensures
            match r {
                Some(i) => self.has_camera(id) && i == self.cam_index(id) && i
                    < self.cameras@.len() && self.cameras@[i as int].id == id,
                None => !self.has_camera(id),
            },
    {
        let n = self.cameras.len();
        let mut i: usize = 0;
        while i < n
            invariant
                n == self.cameras@.len(),
                i <= n,
                forall|k: int| 0 <= k < i ==> self.cameras@[k].id != id,
                self.cam_ids_unique(),
            decreases n - i,
        {
            if self.cameras[i].id == id {
                proof {
                    self.lemma_cam_index(id, i as int);
                }
                return Some(i);
            }
            i += 1;
        }
        None
    }

    /// Linear lookup of a target record by id.
    pub fn find_target(&self, id: u64) -> (r: Option<usize>)
        requires
            self.tgt_ids_unique(),
        ensures
            match r {
                Some(j) => self.has_target(id) && j == self.tgt_index(id) && j
                    < self.targets@.len() && self.targets@[j as int].id == id,
                None => !self.has_target(id),
            },
    {
        let n = self.targets.len();
        let mut j: usize = 0;
        while j < n
            invariant
                n == self.targets@.len(),
                j <= n,
                forall|k: int| 0 <= k < j ==> self.targets@[k].id != id,
                self.tgt_ids_unique(),
            decreases n - j,
        {
            if self.targets[j].id == id {
                proof {
                    self.lemma_tgt_index(id, j as int);
                }
                return Some(j);
            }
            j += 1;
        }
        None
    }

    /// Bring a target entity into the scene. Fails (and changes nothing) if
    /// the id is already taken.
    pub fn spawn_target(&mut self, id: u64, position: Vec3Fx) -> (ok: bool)
        requires
            old(self).wf(),
            position.bounded(POS_ABS_MAX as int),
        ensures
            final(self).wf(),
            ok == !old(self).has_target(id),
            !ok ==> *final(self) == *old(self),
            ok ==> {
                &&& final(self).cameras@ == old(self).cameras@
                &&& final(self).targets@.len() == old(self).targets@.len() + 1
                &&& forall|j: int|
                    0 <= j < old(self).targets@.len() ==> final(self).targets@[j] == old(self).targets@[j]
                &&& final(self).targets@.last().id == id
                &&& final(self).targets@.last().position == position
                &&& final(self).targets@.last().moved == false
                &&& final(self).targets@.last().target@ == Seq::<u64>::empty()
                &&& final(self).has_target(id)
                &&& final(self).followers_of(id) == Seq::<u64>::empty()
            },
    {
        match self.find_target(id) {
            Some(_) => false,
            None => {
                let rec = TargetRecord {
                    id,
                    position,
                    moved: false,
                    target: ThirdPersonCameraTarget::none(),
                };
                self.targets.push(rec);
                proof {
                    let n = self.targets@.len() - 1;
                    self.lemma_tgt_index(id, n);
                    assert forall|i: int| 0 <= i < self.cameras@.len() implies {
                        let c = #[trigger] self.cameras@[i];
                        self.has_target(c.camera.target) && self.followers_of(
                            c.camera.target,
                        ).contains(c.id)
                    } by {
                        let c = self.cameras@[i];
                        let jt = old(self).tgt_index(c.camera.target);
                        old(self).lemma_tgt_index(c.camera.target, jt);
                        self.lemma_tgt_index(c.camera.target, jt);
                    }
                    assert forall|j: int, k: int|
                        0 <= j < self.targets@.len() && 0 <= k
                            < self.targets@[j].target@.len() implies {
                        let cid = #[trigger] self.targets@[j].target@[k];
                        self.has_camera(cid) && self.cam(cid).camera.target == self.targets@[j].id
                    } by {
                        assert(j < old(self).targets@.len());
                    }
                }
                true
            },
        }
    }

    /// Establish the camera/target link (the single mutation path of the
    /// relationship): a fresh camera record aimed at `target_id` is
    /// appended, and the camera id is appended to that target's follower
    /// list. Fails (and changes nothing) if the target does not exist or
    /// the camera id is already taken. The new camera starts with the
    /// identity orientation, a zero world position and no auxiliary
    /// components; those are backfilled from the settings on the next tick.
    pub fn attach(&mut self, camera_id: u64, target_id: u64) -> (ok: bool)
        requires
            old(self).wf(),
        ensures
            final(self).wf(),
            ok == (old(self).has_target(target_id) && !old(self).has_camera(camera_id)),
            !ok ==> *final(self) == *old(self),
            ok ==> {
                &&& final(self).cameras@.len() == old(self).cameras@.len() + 1
                &&& forall|i: int|
                    0 <= i < old(self).cameras@.len() ==> final(self).cameras@[i] == old(self).cameras@[i]
                &&& final(self).cameras@.last().id == camera_id
                &&& final(self).cameras@.last().camera.target == target_id
                &&& final(self).cameras@.last().camera_offset is None
                &&& final(self).cameras@.last().target_offset is None
                &&& final(self).cameras@.last().target_point is None
                &&& final(self).cameras@.last().damping_factor is None
                &&& final(self).cameras@.last().orientation == Orientation::identity_spec()
                &&& final(self).cameras@.last().translation == Vec3Fx::zero_spec()
                &&& final(self).cameras@.last().initialized == false
                &&& final(self).has_camera(camera_id)
                &&& final(self).cam_index(camera_id) == old(self).cameras@.len()
                &&& final(self).targets@.len() == old(self).targets@.len()
                &&& forall|j: int|
                    0 <= j < old(self).targets@.len() && j != old(self).tgt_index(target_id)
                        ==> final(self).targets@[j] == old(self).targets@[j]
                &&& final(self).tgt_index(target_id) == old(self).tgt_index(target_id)
                &&& final(self).tgt(target_id).id == target_id
                &&& final(self).tgt(target_id).position == old(self).tgt(target_id).position
                &&& final(self).tgt(target_id).moved == old(self).tgt(target_id).moved
                &&& final(self).followers_of(target_id) == old(self).followers_of(target_id).push(
                    camera_id,
                )
            },
    {
        let jt = match self.find_target(target_id) {
            Some(j) => j,
            None => {
                return false;
            },
        };
        if self.find_camera(camera_id).is_some() {
            return false;
        }
        let rec = CameraRecord {
            id: camera_id,
            camera: ThirdPersonCamera::aimed_at(target_id),
            camera_offset: None,
            target_offset: None,
            target_point: None,
            damping_factor: None,
            orientation: Orientation::identity(),
            translation: Vec3Fx::zero(),
            initialized: false,
        };
        self.cameras.push(rec);
        self.targets[jt].target.0.push(camera_id);
        proof {
            let ni = self.cameras@.len() - 1;
            let w0 = *old(self);
            assert(self.cam_ids_unique());
            self.lemma_cam_index(camera_id, ni);
            assert(self.tgt_ids_unique());
            self.lemma_tgt_index(target_id, jt as int);
            w0.lemma_tgt_index(target_id, jt as int);
            // the fresh camera id sits in no old follower list
            assert forall|j: int, k: int|
                0 <= j < w0.targets@.len() && 0 <= k
                    < w0.targets@[j].target@.len() implies w0.targets@[j].target@[k]
                != camera_id by {
                assert(w0.has_camera(w0.targets@[j].target@[k]));
            }
            assert forall|i: int| 0 <= i < self.cameras@.len() implies {
                let c = #[trigger] self.cameras@[i];
                self.has_target(c.camera.target) && self.followers_of(c.camera.target).contains(
                    c.id,
                )
            } by {
                let c = self.cameras@[i];
                if i < w0.cameras@.len() {
                    let jo = w0.tgt_index(c.camera.target);
                    w0.lemma_tgt_index(c.camera.target, jo);
                    self.lemma_tgt_index(c.camera.target, jo);
                    let fo = w0.followers_of(c.camera.target);
                    let kk = choose|k: int| 0 <= k < fo.len() && fo[k] == c.id;
                    if jo == jt as int {
                        assert(self.followers_of(c.camera.target)[kk] == c.id);
                    } else {
                        assert(self.followers_of(c.camera.target)[kk] == c.id);
                    }
                } else {
                    let f = self.followers_of(target_id);
                    assert(f[f.len() - 1] == camera_id);
                }
            }
            assert forall|j: int, k: int|
                0 <= j < self.targets@.len() && 0 <= k < self.targets@[j].target@.len() implies {
                let cid = #[trigger] self.targets@[j].target@[k];
                self.has_camera(cid) && self.cam(cid).camera.target == self.targets@[j].id
            } by {
                if j == jt as int && k == self.targets@[j].target@.len() - 1 {
                    assert(self.targets@[j].target@[k] == camera_id);
                } else {
                    let cid = self.targets@[j].target@[k];
                    assert(w0.targets@[j].target@[k] == cid);
                    assert(w0.has_camera(cid));
                    let io = w0.cam_index(cid);
                    w0.lemma_cam_index(cid, io);
                    self.lemma_cam_index(cid, io);
                }
            }
            assert(self.followers_unique()) by {
                assert forall|j: int, k1: int, k2: int|
                    0 <= j < self.targets@.len() && 0 <= k1 < self.targets@[j].target@.len() && 0
                        <= k2 < self.targets@[j].target@.len() && k1
                        != k2 implies #[trigger] self.targets@[j].target@[k1]
                    != #[trigger] self.targets@[j].target@[k2] by {
                    if j == jt as int {
                        let f0 = w0.targets@[j].target@;
                        if k1 < f0.len() && k2 < f0.len() {
                        } else if k1 == f0.len() {
                            assert(w0.targets@[j].target@[k2] != camera_id);
                        } else if k2 == f0.len() {
                            assert(w0.targets@[j].target@[k1] != camera_id);
                        }
                    }
                }
            }
            assert(self.followers_of(target_id) =~= w0.followers_of(target_id).push(camera_id));
        }
        true
    }

    /// The engine moved a target: store the new position and set the
    /// changed-detection mark the tracking stages consume. Fails (and
    /// changes nothing) if the target does not exist.
    pub fn move_target(&mut self, id: u64, position: Vec3Fx) -> (ok: bool)
        requires
            old(self).wf(),
            position.bounded(POS_ABS_MAX as int),
        ensures
            final(self).wf(),
            ok == old(self).has_target(id),
            !ok ==> *final(self) == *old(self),
            ok ==> {
                &&& final(self).cameras@ == old(self).cameras@
                &&& final(self).targets@.len() == old(self).targets@.len()
                &&& forall|j: int|
                    0 <= j < old(self).targets@.len() && j != old(self).tgt_index(id)
                        ==> final(self).targets@[j] == old(self).targets@[j]
                &&& final(self).tgt_index(id) == old(self).tgt_index(id)
                &&& final(self).tgt(id).id == id
                &&& final(self).tgt(id).position == position
                &&& final(self).tgt(id).moved == true
                &&& final(self).tgt(id).target@ == old(self).tgt(id).target@
            },
    {
        let jt = match self.find_target(id) {
            Some(j) => j,
            None => {
                return false;
            },
        };
        self.targets[jt].position = position;
        self.targets[jt].moved = true;
        proof {
            let w0 = *old(self);
            assert(self.tgt_ids_unique());
            self.lemma_tgt_index(id, jt as int);
            w0.lemma_tgt_index(id, jt as int);
            self.lemma_links_from_structure(w0);
        }
        true
    }

    /// Clear every target's changed-detection mark (the end of a tick).
    pub fn clear_moved(&mut self)
        requires
            old(self).wf(),
        ensures
            final(self).wf(),
            final(self).cameras@ == old(self).cameras@,
            final(self).targets@.len() == old(self).targets@.len(),
            forall|j: int|
                0 <= j < old(self).targets@.len() ==> {
                    let t = #[trigger] final(self).targets@[j];
                    let t0 = old(self).targets@[j];
                    t.id == t0.id && t.position == t0.position && t.target@ == t0.target@
                        && t.moved == false
                },
    {
        let n = self.targets.len();
        let mut j: usize = 0;
        while j < n
            invariant
                old(self).wf(),
                n == self.targets@.len(),
                j <= n,
                self.cameras@ == old(self).cameras@,
                self.targets@.len() == old(self).targets@.len(),
                forall|q: int|
                    0 <= q < j ==> {
                        let t = #[trigger] self.targets@[q];
                        let t0 = old(self).targets@[q];
                        t.id == t0.id && t.position == t0.position && t.target@ == t0.target@
                            && t.moved == false
                    },
                forall|q: int| j <= q < n ==> self.targets@[q] == old(self).targets@[q],
            decreases n - j,
        {
            self.targets[j].moved = false;
            j += 1;
        }
        proof {
            self.lemma_links_from_structure(*old(self));
        }
    }

    /// The live ordered follower list of `target_id` (empty if the target
    /// does not exist).
    pub fn followers(&self, target_id: u64) -> (r: Vec<u64>)
        requires
            self.wf(),
        ensures
            self.has_target(target_id) ==> r@ == self.followers_of(target_id),
            !self.has_target(target_id) ==> r@ == Seq::<u64>::empty(),
    {
        let mut r: Vec<u64> = Vec::new();
        let jt = match self.find_target(target_id) {
            Some(j) => j,
            None => {
                return r;
            },
        };
        let n = self.targets[jt].target.len();
        let mut k: usize = 0;
        while k < n
            invariant
                jt < self.targets@.len(),
                n == self.targets@[jt as int].target@.len(),
                k <= n,
                r@ == self.targets@[jt as int].target@.subrange(0, k as int),
            decreases n - k,
        {
            let c = self.targets[jt].target.get(k);
            r.push(c);
            proof {
                assert(r@ =~= self.targets@[jt as int].target@.subrange(0, k + 1));
            }
            k += 1;
        }
        proof {
            assert(r@ =~= self.targets@[jt as int].target@);
        }
        r
    }

    /// The engine destroyed a camera entity: drop its record and take its
    /// id out of its target's follower list, keeping the two sides of the
    /// relationship consistent. Fails (and changes nothing) if the camera
    /// does not exist.
    pub fn despawn_camera(&mut self, id: u64) -> (ok: bool)
        requires
            old(self).wf(),
        ensures
            final(self).wf(),
            ok == old(self).has_camera(id),
            !ok ==> *final(self) == *old(self),
            ok ==> {
                let i = old(self).cam_index(id);
                let t = old(self).cameras@[i].camera.target;
                let jt = old(self).tgt_index(t);
                let f0 = old(self).followers_of(t);
                &&& final(self).cameras@ == old(self).cameras@.remove(i)
                &&& !final(self).has_camera(id)
                &&& final(self).targets@.len() == old(self).targets@.len()
                &&& forall|j: int|
                    0 <= j < old(self).targets@.len() && j != jt ==> final(self).targets@[j] == old(
                        self,
                    ).targets@[j]
                &&& final(self).targets@[jt].id == t
                &&& final(self).targets@[jt].position == old(self).targets@[jt].position
                &&& final(self).targets@[jt].moved == old(self).targets@[jt].moved
                &&& final(self).targets@[jt].target@ == f0.remove(
                    choose|k: int| 0 <= k < f0.len() && f0[k] == id,
                )
                &&& !final(self).targets@[jt].target@.contains(id)
            },
    {
        let i = match self.find_camera(id) {
            Some(i) => i,
            None => {
                return false;
            },
        };
        let t = self.cameras[i].camera.target;
        let jt = match self.find_target(t) {
            Some(j) => j,
            None => {
                proof {
                    // the relationship invariant makes every camera's target resolvable
                    assert(self.has_target(t));
                    assert(false);
                }
                0
            },
        };
        proof {
            old(self).lemma_tgt_index(t, jt as int);
        }
        let ghost f0 = self.targets@[jt as int].target@;
        let flen = self.targets[jt].target.len();
        let mut k: usize = 0;
        while k < flen && self.targets[jt].target.get(k) != id
            invariant
                self == old(self),
                i < self.cameras@.len(),
                self.cameras@[i as int].id == id,
                jt < self.targets@.len(),
                f0 == self.targets@[jt as int].target@,
                flen == f0.len(),
                k <= flen,
                forall|q: int| 0 <= q < k ==> f0[q] != id,
            decreases flen - k,
        {
            k += 1;
        }
        proof {
            if k == flen {
                assert(self.followers_of(t).contains(id));
                let kk = choose|kk: int| 0 <= kk < f0.len() && f0[kk] == id;
                assert(f0[kk] == id);
                assert(false);
            }
            assert(f0[k as int] == id);
        }
        self.cameras.remove(i);
        self.targets[jt].target.0.remove(k);
        proof {
            let w0 = *old(self);
            let s0 = w0.cameras@;
            s0.remove_ensures(i as int);
            f0.remove_ensures(k as int);
            // the single occurrence of the id is the one found
            assert forall|kk: int|
                0 <= kk < f0.len() && f0[kk] == id implies kk == k as int by {}
            assert(self.targets@[jt as int].target@ == f0.remove(k as int));
            assert forall|q: int|
                0 <= q < self.targets@[jt as int].target@.len() implies self.targets@[jt as int].target@[q]
                != id by {
                let q0: int = if q < k as int {
                    q
                } else {
                    q + 1
                };
                assert(self.targets@[jt as int].target@[q] == f0[q0]);
            }
            assert(self.cam_ids_unique()) by {
                assert forall|a: int, b: int|
                    0 <= a < self.cameras@.len() && 0 <= b < self.cameras@.len() && a
                        != b implies (#[trigger] self.cameras@[a]).id != (
                #[trigger] self.cameras@[b]).id by {
                    let a0: int = if a < i as int {
                        a
                    } else {
                        a + 1
                    };
                    let b0: int = if b < i as int {
                        b
                    } else {
                        b + 1
                    };
                    assert(self.cameras@[a] == s0[a0]);
                    assert(self.cameras@[b] == s0[b0]);
                }
            }
            assert(self.tgt_ids_unique()) by {
                assert forall|a: int, b: int|
                    0 <= a < self.targets@.len() && 0 <= b < self.targets@.len() && a
                        != b implies (#[trigger] self.targets@[a]).id != (
                #[trigger] self.targets@[b]).id by {
                    assert(self.targets@[a].id == w0.targets@[a].id);
                    assert(self.targets@[b].id == w0.targets@[b].id);
                }
            }
            assert(!self.has_camera(id)) by {
                if self.has_camera(id) {
                    let a = choose|a: int|
                        0 <= a < self.cameras@.len() && self.cameras@[a].id == id;
                    let a0: int = if a < i as int {
                        a
                    } else {
                        a + 1
                    };
                    assert(s0[a0].id == id);
                    assert(s0[i as int].id == id);
                }
            }
            assert forall|a: int| 0 <= a < self.cameras@.len() implies {
                let c = #[trigger] self.cameras@[a];
                self.has_target(c.camera.target) && self.followers_of(c.camera.target).contains(
                    c.id,
                ) && c.wf()
            } by {
                let a0: int = if a < i as int {
                    a
                } else {
                    a + 1
                };
                let c = s0[a0];
                assert(self.cameras@[a] == c);
                assert(c.id != id);
                let j0 = w0.tgt_index(c.camera.target);
                assert(0 <= j0 < w0.targets@.len() && w0.targets@[j0].id == c.camera.target);
                self.lemma_tgt_index(c.camera.target, j0);
                let fold = w0.followers_of(c.camera.target);
                let kk = choose|kk: int| 0 <= kk < fold.len() && fold[kk] == c.id;
                if j0 == jt as int {
                    let kn: int = if kk < k as int {
                        kk
                    } else {
                        kk - 1
                    };
                    assert(self.followers_of(c.camera.target)[kn] == c.id);
                } else {
                    assert(self.followers_of(c.camera.target)[kk] == c.id);
                }
            }
            assert forall|j: int, p: int|
                0 <= j < self.targets@.len() && 0 <= p < self.targets@[j].target@.len() implies {
                let cid = #[trigger] self.targets@[j].target@[p];
                self.has_camera(cid) && self.cam(cid).camera.target == self.targets@[j].id
            } by {
                let cid = self.targets@[j].target@[p];
                let p0: int = if j == jt as int && p >= k as int {
                    p + 1
                } else {
                    p
                };
                assert(cid == w0.targets@[j].target@[p0]);
                assert(w0.has_camera(cid));
                let a0 = w0.cam_index(cid);
                w0.lemma_cam_index(cid, a0);
                if cid == id {
                    // only the removed camera's own target lists it
                    assert(w0.cam(id).camera.target == w0.targets@[j].id);
                    w0.lemma_cam_index(id, i as int);
                    assert(w0.targets@[j].id == t);
                    assert(j == jt as int);
                    assert(false);
                }
                assert(a0 != i as int);
                let an: int = if a0 < i as int {
                    a0
                } else {
                    a0 - 1
                };
                assert(self.cameras@[an] == s0[a0]);
                self.lemma_cam_index(cid, an);
            }
            assert(self.followers_unique()) by {
                assert forall|j: int, k1: int, k2: int|
                    0 <= j < self.targets@.len() && 0 <= k1 < self.targets@[j].target@.len() && 0
                        <= k2 < self.targets@[j].target@.len() && k1
                        != k2 implies #[trigger] self.targets@[j].target@[k1]
                    != #[trigger] self.targets@[j].target@[k2] by {
                    if j == jt as int {
                        let p1: int = if k1 < k as int {
                            k1
                        } else {
                            k1 + 1
                        };
                        let p2: int = if k2 < k as int {
                            k2
                        } else {
                            k2 + 1
                        };
                        assert(self.targets@[j].target@[k1] == f0[p1]);
                        assert(self.targets@[j].target@[k2] == f0[p2]);
                    }
                }
            }
            assert forall|j: int| 0 <= j < self.targets@.len() implies (
            #[trigger] self.targets@[j]).wf() by {
                assert(self.targets@[j].position == w0.targets@[j].position);
                assert(w0.targets@[j].wf());
            }
            w0.lemma_cam_index(id, i as int);
        }
        true
    }

    /// The engine destroyed a target entity and cascades: every following
    /// camera is despawned with it, then the target record itself is
    /// dropped. Fails (and changes nothing) if the target does not exist.
    pub fn despawn_target(&mut self, id: u64) -> (ok: bool)
        requires
            old(self).wf(),
        ensures
            final(self).wf(),
            ok == old(self).has_target(id),
            !ok ==> *final(self) == *old(self),
            ok ==> {
                &&& !final(self).has_target(id)
                &&& final(self).targets@ == old(self).targets@.remove(old(self).tgt_index(id))
                &&& forall|cid: u64|
                    #[trigger] final(self).has_camera(cid) <==> (old(self).has_camera(cid) && old(
                        self,
                    ).cam(cid).camera.target != id)
                &&& forall|cid: u64|
                    final(self).has_camera(cid) ==> #[trigger] final(self).cam(cid) == old(
                        self,
                    ).cam(cid)
            },
    {
        let jt = match self.find_target(id) {
            Some(j) => j,
            None => {
                return false;
            },
        };
        let ghost w0 = *old(self);
        let ghost forig = w0.targets@[jt as int].target@;
        let ghost removed: int = 0;
        while self.targets[jt].target.len() > 0
            invariant
                w0.wf(),
                self.wf(),
                jt < self.targets@.len(),
                self.targets@.len() == w0.targets@.len(),
                forall|j: int|
                    0 <= j < w0.targets@.len() && j != jt ==> self.targets@[j] == w0.targets@[j],
                self.targets@[jt as int].id == id,
                self.targets@[jt as int].position == w0.targets@[jt as int].position,
                self.targets@[jt as int].moved == w0.targets@[jt as int].moved,
                0 <= removed <= forig.len(),
                self.targets@[jt as int].target@ == forig.subrange(removed, forig.len() as int),
                forall|cid: u64|
                    #[trigger] self.has_camera(cid) <==> (w0.has_camera(cid) && !forig.subrange(
                        0,
                        removed,
                    ).contains(cid)),
                forall|cid: u64|
                    self.has_camera(cid) ==> #[trigger] self.cam(cid) == w0.cam(cid),
            decreases self.targets@[jt as int].target@.len(),
        {
            let cid = self.targets[jt].target.get(0);
            let ghost wpre = *self;
            proof {
                assert(wpre.followers_linked());
                assert(wpre.targets@[jt as int].target@[0] == cid);
                assert(wpre.has_camera(cid));
                assert(wpre.cam(cid).camera.target == id);
            }
            let ok2 = self.despawn_camera(cid);
            proof {
                assert(ok2);
                let ipre = wpre.cam_index(cid);
                wpre.lemma_tgt_index(id, jt as int);
                let fpre = wpre.followers_of(id);
                // the chosen occurrence is the front entry
                let kc = choose|kk: int| 0 <= kk < fpre.len() && fpre[kk] == cid;
                assert(fpre[0] == cid);
                assert(kc == 0);
                fpre.remove_ensures(0);
                assert(self.targets@[jt as int].target@ =~= forig.subrange(
                    removed + 1,
                    forig.len() as int,
                ));
                wpre.cameras@.remove_ensures(ipre);
                // which camera ids survive this step
                assert(forig[removed] == cid) by {
                    assert(wpre.targets@[jt as int].target@[0] == forig.subrange(
                        removed,
                        forig.len() as int,
                    )[0]);
                }
                assert forall|c2: u64| #[trigger] self.has_camera(c2) <==> (w0.has_camera(c2)
                    && !forig.subrange(0, removed + 1).contains(c2)) by {
                    let sshort = forig.subrange(0, removed);
                    let slong = forig.subrange(0, removed + 1);
                    if self.has_camera(c2) {
                        let a = choose|a: int|
                            0 <= a < self.cameras@.len() && self.cameras@[a].id == c2;
                        let a0: int = if a < ipre {
                            a
                        } else {
                            a + 1
                        };
                        assert(wpre.cameras@[a0].id == c2);
                        assert(wpre.has_camera(c2));
                        assert(c2 != cid) by {
                            if c2 == cid {
                                assert(wpre.cameras@[ipre].id == cid);
                            }
                        }
                        assert(w0.has_camera(c2) && !sshort.contains(c2));
                        assert(!slong.contains(c2)) by {
                            if slong.contains(c2) {
                                let q = choose|q: int|
                                    0 <= q < slong.len() && slong[q] == c2;
                                if q < removed {
                                    assert(sshort[q] == c2);
                                } else {
                                    assert(slong[q] == forig[removed]);
                                }
                            }
                        }
                    }
                    if w0.has_camera(c2) && !slong.contains(c2) {
                        assert(!sshort.contains(c2)) by {
                            if sshort.contains(c2) {
                                let q = choose|q: int|
                                    0 <= q < sshort.len() && sshort[q] == c2;
                                assert(slong[q] == c2);
                            }
                        }
                        assert(wpre.has_camera(c2));
                        assert(c2 != cid) by {
                            assert(slong[removed] == cid);
                        }
                        let a0 = wpre.cam_index(c2);
                        assert(0 <= a0 < wpre.cameras@.len() && wpre.cameras@[a0].id == c2);
                        assert(a0 != ipre);
                        let an: int = if a0 < ipre {
                            a0
                        } else {
                            a0 - 1
                        };
                        assert(self.cameras@[an] == wpre.cameras@[a0]);
                        assert(self.has_camera(c2));
                    }
                }
                assert forall|c2: u64|
                    self.has_camera(c2) implies #[trigger] self.cam(c2) == w0.cam(c2) by {
                    let a = self.cam_index(c2);
                    assert(0 <= a < self.cameras@.len() && self.cameras@[a].id == c2);
                    let a0: int = if a < ipre {
                        a
                    } else {
                        a + 1
                    };
                    assert(self.cameras@[a] == wpre.cameras@[a0]);
                    wpre.lemma_cam_index(c2, a0);
                    self.lemma_cam_index(c2, a);
                }
                removed = removed + 1;
            }
        }
        // the follower list is empty: no camera is aimed at this target
        let ghost wmid = *self;
        proof {
            assert forall|a: int|
                0 <= a < wmid.cameras@.len() implies (#[trigger] wmid.cameras@[a]).camera.target
                != id by {
                let c = wmid.cameras@[a];
                if c.camera.target == id {
                    wmid.lemma_tgt_index(id, jt as int);
                    let fnow = wmid.followers_of(id);
                    let kk = choose|kk: int| 0 <= kk < fnow.len() && fnow[kk] == c.id;
                    assert(fnow.len() == 0);
                }
            }
        }
        self.targets.remove(jt);
        proof {
            wmid.targets@.remove_ensures(jt as int);
            w0.targets@.remove_ensures(jt as int);
            assert(self.cameras@ == wmid.cameras@);
            assert(self.targets@ =~= w0.targets@.remove(jt as int));
            assert(self.tgt_ids_unique()) by {
                assert forall|a: int, b: int|
                    0 <= a < self.targets@.len() && 0 <= b < self.targets@.len() && a
                        != b implies (#[trigger] self.targets@[a]).id != (
                #[trigger] self.targets@[b]).id by {
                    let a0: int = if a < jt as int {
                        a
                    } else {
                        a + 1
                    };
                    let b0: int = if b < jt as int {
                        b
                    } else {
                        b + 1
                    };
                    assert(self.targets@[a] == w0.targets@[a0]);
                    assert(self.targets@[b] == w0.targets@[b0]);
                }
            }
            assert(!self.has_target(id)) by {
                if self.has_target(id) {
                    let j = choose|j: int|
                        0 <= j < self.targets@.len() && self.targets@[j].id == id;
                    let j0: int = if j < jt as int {
                        j
                    } else {
                        j + 1
                    };
                    assert(w0.targets@[j0].id == id);
                    assert(w0.targets@[jt as int].id == id);
                }
            }
            assert forall|a: int| 0 <= a < self.cameras@.len() implies {
                let c = #[trigger] self.cameras@[a];
                self.has_target(c.camera.target) && self.followers_of(c.camera.target).contains(
                    c.id,
                ) && c.wf()
            } by {
                let c = self.cameras@[a];
                assert(wmid.cameras@[a] == c);
                assert(c.camera.target != id);
                assert(wmid.has_target(c.camera.target));
                let j0 = wmid.tgt_index(c.camera.target);
                assert(0 <= j0 < wmid.targets@.len() && wmid.targets@[j0].id == c.camera.target);
                assert(j0 != jt as int);
                let jn: int = if j0 < jt as int {
                    j0
                } else {
                    j0 - 1
                };
                assert(self.targets@[jn] == wmid.targets@[j0]);
                self.lemma_tgt_index(c.camera.target, jn);
                let fmid = wmid.followers_of(c.camera.target);
                let kk = choose|kk: int| 0 <= kk < fmid.len() && fmid[kk] == c.id;
                assert(self.followers_of(c.camera.target)[kk] == c.id);
            }
            assert forall|j: int, p: int|
                0 <= j < self.targets@.len() && 0 <= p < self.targets@[j].target@.len() implies {
                let cid = #[trigger] self.targets@[j].target@[p];
                self.has_camera(cid) && self.cam(cid).camera.target == self.targets@[j].id
            } by {
                let j0: int = if j < jt as int {
                    j
                } else {
                    j + 1
                };
                assert(self.targets@[j] == wmid.targets@[j0]);
                let cid = self.targets@[j].target@[p];
                assert(wmid.has_camera(cid));
                let a0 = wmid.cam_index(cid);
                wmid.lemma_cam_index(cid, a0);
                self.lemma_cam_index(cid, a0);
            }
            assert(self.followers_unique()) by {
                assert forall|j: int, k1: int, k2: int|
                    0 <= j < self.targets@.len() && 0 <= k1 < self.targets@[j].target@.len() && 0
                        <= k2 < self.targets@[j].target@.len() && k1
                        != k2 implies #[trigger] self.targets@[j].target@[k1]
                    != #[trigger] self.targets@[j].target@[k2] by {
                    let j0: int = if j < jt as int {
                        j
                    } else {
                        j + 1
                    };
                    assert(self.targets@[j] == wmid.targets@[j0]);
                }
            }
            assert forall|j: int| 0 <= j < self.targets@.len() implies (
            #[trigger] self.targets@[j]).wf() by {
                let j0: int = if j < jt as int {
                    j
                } else {
                    j + 1
                };
                assert(self.targets@[j] == wmid.targets@[j0]);
            }
            // the per-id characterization against the original world
            w0.lemma_tgt_index(id, jt as int);
            assert forall|cid: u64| #[trigger] self.has_camera(cid) <==> (w0.has_camera(cid)
                && w0.cam(cid).camera.target != id) by {
                assert(self.has_camera(cid) == wmid.has_camera(cid));
                if w0.has_camera(cid) {
                    let a0 = w0.cam_index(cid);
                    w0.lemma_cam_index(cid, a0);
                    if w0.cam(cid).camera.target == id {
                        let ff = w0.followers_of(id);
                        let kk = choose|kk: int| 0 <= kk < ff.len() && ff[kk] == cid;
                        assert(ff[kk] == cid);
                        assert(forig.subrange(0, forig.len() as int) =~= forig);
                        assert(forig.contains(cid));
                    } else {
                        if forig.contains(cid) {
                            let kk = choose|kk: int| 0 <= kk < forig.len() && forig[kk] == cid;
                            assert(w0.targets@[jt as int].target@[kk] == cid);
                            assert(w0.cam(cid).camera.target == id);
                        }
                        assert(forig.subrange(0, forig.len() as int) =~= forig);
                    }
                }
            }
        }
        true
    }

    /// Well-formedness survives any change that keeps the entity structure:
    /// the ids, each camera's target reference and each follower list.
    pub proof fn lemma_links_from_structure(self, w0: CameraWorld)
        requires
            w0.wf(),
            self.cameras@.len() == w0.cameras@.len(),
            forall|i: int|
                0 <= i < w0.cameras@.len() ==> {
                    let c = #[trigger] self.cameras@[i];
                    let c0 = w0.cameras@[i];
                    c.id == c0.id && c.camera == c0.camera && c.wf()
                },
            self.targets@.len() == w0.targets@.len(),
            forall|j: int|
                0 <= j < w0.targets@.len() ==> {
                    let t = #[trigger] self.targets@[j];
                    let t0 = w0.targets@[j];
                    t.id == t0.id && t.target@ == t0.target@ && t.wf()
                },
        ensures
            self.wf(),
            forall|id: u64| #[trigger] self.has_camera(id) == w0.has_camera(id),
            forall|id: u64| #[trigger] self.has_target(id) == w0.has_target(id),
            forall|id: u64|
                w0.has_camera(id) ==> #[trigger] self.cam_index(id) == w0.cam_index(id),
            forall|id: u64|
                w0.has_target(id) ==> #[trigger] self.tgt_index(id) == w0.tgt_index(id),
    {
        assert forall|id: u64| #[trigger] self.has_camera(id) == w0.has_camera(id) by {
            if w0.has_camera(id) {
                let i = w0.cam_index(id);
                assert(0 <= i < w0.cameras@.len() && w0.cameras@[i].id == id);
                assert(self.cameras@[i].id == id);
            }
            if self.has_camera(id) {
                let i = choose|i: int| 0 <= i < self.cameras@.len() && self.cameras@[i].id == id;
                assert(w0.cameras@[i].id == id);
            }
        }
        assert forall|id: u64| #[trigger] self.has_target(id) == w0.has_target(id) by {
            if w0.has_target(id) {
                let j = w0.tgt_index(id);
                assert(0 <= j < w0.targets@.len() && w0.targets@[j].id == id);
                assert(self.targets@[j].id == id);
            }
            if self.has_target(id) {
                let j = choose|j: int| 0 <= j < self.targets@.len() && self.targets@[j].id == id;
                assert(w0.targets@[j].id == id);
            }
        }
        assert forall|id: u64|
            w0.has_camera(id) implies #[trigger] self.cam_index(id) == w0.cam_index(id) by {
            let i = w0.cam_index(id);
            assert(0 <= i < w0.cameras@.len() && w0.cameras@[i].id == id);
            assert(self.cameras@[i].id == id);
            self.lemma_cam_index(id, i);
        }
        assert forall|id: u64|
            w0.has_target(id) implies #[trigger] self.tgt_index(id) == w0.tgt_index(id) by {
            let j = w0.tgt_index(id);
            assert(0 <= j < w0.targets@.len() && w0.targets@[j].id == id);
            assert(self.targets@[j].id == id);
            self.lemma_tgt_index(id, j);
        }
        assert forall|i: int| 0 <= i < self.cameras@.len() implies {
            let c = #[trigger] self.cameras@[i];
            self.has_target(c.camera.target) && self.followers_of(c.camera.target).contains(c.id)
        } by {
            let c = self.cameras@[i];
            let c0 = w0.cameras@[i];
            assert(w0.has_target(c0.camera.target));
            let j = w0.tgt_index(c0.camera.target);
            assert(self.tgt_index(c.camera.target) == j);
            assert(self.targets@[j].target@ == w0.targets@[j].target@);
            let f0 = w0.followers_of(c0.camera.target);
            let kk = choose|k: int| 0 <= k < f0.len() && f0[k] == c0.id;
            assert(self.followers_of(c.camera.target)[kk] == c.id);
        }
        assert forall|j: int, k: int|
            0 <= j < self.targets@.len() && 0 <= k < self.targets@[j].target@.len() implies {
            let cid = #[trigger] self.targets@[j].target@[k];
            self.has_camera(cid) && self.cam(cid).camera.target == self.targets@[j].id
        } by {
            let cid = self.targets@[j].target@[k];
            assert(w0.targets@[j].target@[k] == cid);
            assert(w0.has_camera(cid));
            let io = w0.cam_index(cid);
            w0.lemma_cam_index(cid, io);
            self.lemma_cam_index(cid, io);
        }
    }
}

} // verus!
