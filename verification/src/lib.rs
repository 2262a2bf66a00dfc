//! Third-person camera core: keeps cameras orbiting and tracking target
//! entities, smooths the tracked pivot with optional damping, and turns raw
//! pointer / key / scroll input into orbit, zoom and roll commands for the
//! currently active camera.
//!
//! All geometry is carried in fixed-point integers (see [`math`]): lengths,
//! angles and speeds are scaled by [`math::SCALE`]. The host engine owns
//! entity lifetimes, rendering and the input backend; it drives this core
//! once per tick ([`ThirdPersonCameraPlugin::tick`]) with that tick's
//! elapsed time and accumulated input, and reports target movement through
//! [`world::CameraWorld::move_target`].

pub mod components;
pub mod events;
pub mod math;
pub mod observers;
pub mod plugin_settings;
pub mod systems;
pub mod world;

use vstd::prelude::*;

use crate::math::DT_MAX;
use crate::plugin_settings::ThirdPersonCameraSettings;
use crate::systems::{GizmoLine, InputFrame};
use crate::world::CameraWorld;

verus! {

/// Where one tick leaves the active camera's orientation: the
/// pointer-driven orbit command (if the pointer changed), then the
/// key-driven orbit command (if its deltas are not both zero), then the
/// key-driven roll command (if its delta is nonzero), each applied as the
/// corresponding handler specifies.
pub open spec fn tick_orientation_spec(
    camera_settings: ThirdPersonCameraSettings,
    input: InputFrame,
    dt: int,
    o0: crate::math::Orientation,
) -> (int, int, int) {
    let sp = camera_settings.cam_speed as int;
    let pmin = camera_settings.pitch_min as int;
    let pmax = camera_settings.pitch_max as int;
    let mdx = crate::math::div_s((camera_settings.mouse_speed as int) * (input.mouse_delta.x as int));
    let mdy = crate::math::div_s((camera_settings.mouse_speed as int) * (input.mouse_delta.y as int));
    let yaw1 = if input.mouse_changed {
        observers::orbit_yaw_spec(o0.yaw as int, sp, mdx)
    } else {
        o0.yaw as int
    };
    let pitch1 = if input.mouse_changed {
        observers::orbit_pitch_spec(o0.pitch as int, sp, mdy, pmin, pmax)
    } else {
        o0.pitch as int
    };
    let yacc = systems::keyboard_yaw_spec(camera_settings, input, dt);
    let pacc = systems::keyboard_pitch_spec(camera_settings, input, dt);
    let racc = systems::keyboard_roll_spec(camera_settings, input, dt);
    let yaw2 = if yacc != 0 || pacc != 0 {
        observers::orbit_yaw_spec(yaw1, sp, yacc)
    } else {
        yaw1
    };
    let pitch2 = if yacc != 0 || pacc != 0 {
        observers::orbit_pitch_spec(pitch1, sp, pacc, pmin, pmax)
    } else {
        pitch1
    };
    let roll2 = if racc != 0 {
        observers::roll_spec(o0.roll as int, racc)
    } else {
        o0.roll as int
    };
    (yaw2, pitch2, roll2)
}

/// Whether the settings route mapped input commands to the camera with
/// this id.
pub open spec fn is_active(camera_settings: ThirdPersonCameraSettings, id: u64) -> bool {
    camera_settings.local_cam is Some && camera_settings.local_cam.unwrap() == id
}

/// How one tick's command phase rewrites one camera record. A record that
/// is not the active camera's passes through untouched. The active
/// camera's orientation becomes [`tick_orientation_spec`] of its previous
/// one; the scroll-derived zoom adds the scroll delta to the offset's Z
/// coordinate when the offset resolves and the sum stays representable;
/// and if any orbit command was emitted, the world position is refreshed
/// from the post-orbit orientation and the pre-zoom offset, exactly as the
/// orbit handler specifies.
pub open spec fn commands_applied(
    camera_settings: ThirdPersonCameraSettings,
    input: InputFrame,
    dt: int,
    active: bool,
    cb: crate::world::CameraRecord,
    cc: crate::world::CameraRecord,
) -> bool {
    if !active {
        cc == cb
    } else {
        let o = tick_orientation_spec(camera_settings, input, dt, cb.orientation);
        let yacc = systems::keyboard_yaw_spec(camera_settings, input, dt);
        let pacc = systems::keyboard_pitch_spec(camera_settings, input, dt);
        let any_orbit = input.mouse_changed || yacc != 0 || pacc != 0;
        &&& cc.id == cb.id
        &&& cc.camera == cb.camera
        &&& cc.initialized == cb.initialized
        &&& cc.target_offset == cb.target_offset
        &&& cc.target_point == cb.target_point
        &&& cc.damping_factor == cb.damping_factor
        &&& cc.orientation.yaw == o.0
        &&& cc.orientation.pitch == o.1
        &&& cc.orientation.roll == o.2
        &&& cc.camera_offset == (if cb.camera_offset is Some && -crate::math::POS_ABS_MAX
            <= cb.camera_offset.unwrap().0.z + input.scroll_y <= crate::math::POS_ABS_MAX {
            Some(
                crate::components::CameraOffset(
                    crate::math::Vec3Fx {
                        x: cb.camera_offset.unwrap().0.x,
                        y: cb.camera_offset.unwrap().0.y,
                        z: (cb.camera_offset.unwrap().0.z + input.scroll_y) as i64,
                    },
                ),
            )
        } else {
            cb.camera_offset
        })
        &&& if any_orbit && cb.camera_offset is Some && cb.target_point is Some {
            let t = observers::translation_spec(
                crate::math::Orientation {
                    yaw: o.0 as i64,
                    pitch: o.1 as i64,
                    roll: cb.orientation.roll,
                },
                cb.target_point.unwrap().0,
                cb.camera_offset.unwrap().0,
            );
            &&& cc.translation.x == t.0
            &&& cc.translation.y == t.1
            &&& cc.translation.z == t.2
        } else {
            cc.translation == cb.translation
        }
    }
}

/// How one whole tick rewrites one camera record, as the chain of its four
/// stages: the backfill sees the record, the mapped commands apply to it,
/// the tracker moves its target point if its target is marked moved, and
/// the translation pass refreshes its world position from the tracked
/// point. `t0` is the camera's target as marked before the tick.
pub open spec fn tick_camera_spec(
    camera_settings: ThirdPersonCameraSettings,
    input: InputFrame,
    dt: int,
    active: bool,
    c0: crate::world::CameraRecord,
    t0: crate::world::TargetRecord,
    c4: crate::world::CameraRecord,
) -> bool {
    exists|cb: crate::world::CameraRecord, cc: crate::world::CameraRecord, ct: crate::world::CameraRecord|
        {
            &&& #[trigger] systems::backfilled(c0, t0.position, camera_settings, cb)
            &&& #[trigger] commands_applied(camera_settings, input, dt, active, cb, cc)
            &&& #[trigger] systems::tracked_point(cc, t0, dt, ct)
            &&& systems::refreshed_after_target(ct, t0, c4)
        }
}

/// The camera core bundled with its settings, running the per-tick stages
/// as one explicit staged pipeline: component backfill, input mapping and
/// command application (rotation always followed by its translation
/// refresh), target-point tracking for moved targets, the translation pass
/// after those moves, the clearing of the changed-detection marks, and
/// finally the debug overlay.
pub struct ThirdPersonCameraPlugin {
    pub settings: ThirdPersonCameraSettings,
}

impl ThirdPersonCameraPlugin {
    /// A pipeline with the given settings.
    pub fn new(settings: ThirdPersonCameraSettings) -> (r: Self)
        ensures
            r.settings == settings,
    {
        Self { settings }
    }

    /// Run one tick over the scene: `input` is this tick's accumulated
    /// device state and `dt` the elapsed time. Returns the debug-overlay
    /// lines (empty when the overlay is off). With no active camera the
    /// input produces no commands: no camera's orientation moves and no
    /// present offset changes.
    #[verifier::rlimit(100)]
    pub fn tick(&self, world: &mut CameraWorld, input: &InputFrame, dt: i64) -> (r: Vec<GizmoLine>)
        requires
            old(world).wf(),
            self.settings.wf(),
            input.wf(),
            0 <= dt <= DT_MAX,
        ensures
            final(world).wf(),
            final(world).cameras@.len() == old(world).cameras@.len(),
            final(world).targets@.len() == old(world).targets@.len(),
            forall|j: int|
                0 <= j < old(world).targets@.len() ==> {
                    let t0 = old(world).targets@[j];
                    let t1 = #[trigger] final(world).targets@[j];
                    &&& t1.id == t0.id
                    &&& t1.position == t0.position
                    &&& t1.target@ == t0.target@
                    &&& t1.moved == false
                },
            self.settings.local_cam is None ==> forall|i: int|
                0 <= i < old(world).cameras@.len() ==> {
                    let c0 = old(world).cameras@[i];
                    let c1 = #[trigger] final(world).cameras@[i];
                    &&& c1.orientation == c0.orientation
                    &&& (c0.camera_offset is Some ==> c1.camera_offset == c0.camera_offset)
                },
            self.settings.local_cam is Some && old(world).has_camera(
                self.settings.local_cam.unwrap(),
            ) ==> {
                let i = old(world).cam_index(self.settings.local_cam.unwrap());
                let o = tick_orientation_spec(
                    self.settings,
                    *input,
                    dt as int,
                    old(world).cameras@[i].orientation,
                );
                &&& final(world).cameras@[i].orientation.yaw == o.0
                &&& final(world).cameras@[i].orientation.pitch == o.1
                &&& final(world).cameras@[i].orientation.roll == o.2
            },
            forall|i: int|
                0 <= i < old(world).cameras@.len() ==> tick_camera_spec(
                    self.settings,
                    *input,
                    dt as int,
                    is_active(self.settings, old(world).cameras@[i].id),
                    old(world).cameras@[i],
                    old(world).tgt(old(world).cameras@[i].camera.target),
                    #[trigger] final(world).cameras@[i],
                ),
            self.settings.show_relation_gizmo ==> r@ == systems::gizmo_lines_spec(
                *final(world),
                final(world).cameras@.len() as int,
            ),
            !self.settings.show_relation_gizmo ==> r@ == Seq::<GizmoLine>::empty(),
    {
        let ghost w0 = *world;
        systems::spawn_components_s(world, &self.settings);
        let ghost w1 = *world;

        let mouse_cmd = systems::mouse_rotation_control_s(&self.settings, input);
        match mouse_cmd {
            Some(ev) => {
                observers::rotate_camera_o(world, &self.settings, ev);
            },
            None => {},
        }
        let ghost wa = *world;

        let (orbit, roll) = systems::keyboard_rotation_control_s(&self.settings, input, dt);
        match orbit {
            Some(ev) => {
                observers::rotate_camera_o(world, &self.settings, ev);
            },
            None => {},
        }
        let ghost wb = *world;
        match roll {
            Some(ev) => {
                observers::roll_camera_s(world, ev);
            },
            None => {},
        }
        let ghost w3 = *world;

        match systems::scroll_zoom_s(&self.settings, input) {
            Some(ev) => {
                observers::zoom_s(world, ev);
            },
            None => {},
        }
        let ghost w4 = *world;

        systems::calculate_target_point_s(world, dt);
        let ghost w5 = *world;
        systems::adjust_translation_after_target_s(world);
        let ghost w6 = *world;

        world.clear_moved();
        let lines = systems::draw_relation_gizmo_s(world, &self.settings);

        proof {
            if self.settings.local_cam is None {
                assert forall|i: int| 0 <= i < w0.cameras@.len() implies {
                    let c0 = w0.cameras@[i];
                    let c1 = #[trigger] final(world).cameras@[i];
                    c1.orientation == c0.orientation && (c0.camera_offset is Some
                        ==> c1.camera_offset == c0.camera_offset)
                } by {
                    let c0 = w0.cameras@[i];
                    assert(systems::backfilled(
                        c0,
                        w0.tgt(c0.camera.target).position,
                        self.settings,
                        w1.cameras@[i],
                    ));
                    assert(systems::tracked_point(
                        w4.cameras@[i],
                        w4.tgt(w4.cameras@[i].camera.target),
                        dt as int,
                        w5.cameras@[i],
                    ));
                    assert(systems::refreshed_after_target(
                        w5.cameras@[i],
                        w5.tgt(w5.cameras@[i].camera.target),
                        w6.cameras@[i],
                    ));
                }
            }
            if self.settings.local_cam is Some && w0.has_camera(self.settings.local_cam.unwrap()) {
                let cam = self.settings.local_cam.unwrap();
                let i = w0.cam_index(cam);
                assert(0 <= i < w0.cameras@.len() && w0.cameras@[i].id == cam);
                let c0 = w0.cameras@[i];
                assert(systems::backfilled(
                    c0,
                    w0.tgt(c0.camera.target).position,
                    self.settings,
                    w1.cameras@[i],
                ));
                w1.lemma_cam_index(cam, i);
                if input.mouse_changed {
                    let ev = mouse_cmd.unwrap();
                    assert(w1.cam_index(ev.camera) == i);
                    assert(wa.cameras@[i] == (crate::world::CameraRecord {
                        orientation: wa.cameras@[i].orientation,
                        translation: wa.cameras@[i].translation,
                        ..w1.cameras@[i]
                    }));
                } else {
                    assert(wa == w1);
                }
                assert(wa.cameras@[i].id == cam);
                wa.lemma_cam_index(cam, i);
                let yacc = systems::keyboard_yaw_spec(self.settings, *input, dt as int);
                let pacc = systems::keyboard_pitch_spec(self.settings, *input, dt as int);
                let racc = systems::keyboard_roll_spec(self.settings, *input, dt as int);
                if yacc != 0 || pacc != 0 {
                    let ev = orbit.unwrap();
                    assert(wa.cam_index(ev.camera) == i);
                    assert(wb.cameras@[i] == (crate::world::CameraRecord {
                        orientation: wb.cameras@[i].orientation,
                        translation: wb.cameras@[i].translation,
                        ..wa.cameras@[i]
                    }));
                } else {
                    assert(wb == wa);
                }
                assert(wb.cameras@[i].id == cam);
                wb.lemma_cam_index(cam, i);
                if racc != 0 {
                    let ev = roll.unwrap();
                    assert(wb.cam_index(ev.camera) == i);
                    assert(w3.cameras@[i] == (crate::world::CameraRecord {
                        orientation: w3.cameras@[i].orientation,
                        ..wb.cameras@[i]
                    }));
                } else {
                    assert(w3 == wb);
                }
                assert(w3.cameras@[i].id == cam);
                w3.lemma_cam_index(cam, i);
                // the zoom, tracking, translation and overlay stages leave
                // the orientation alone
                assert(w4.cameras@[i].orientation == w3.cameras@[i].orientation);
                assert(systems::tracked_point(
                    w4.cameras@[i],
                    w4.tgt(w4.cameras@[i].camera.target),
                    dt as int,
                    w5.cameras@[i],
                ));
                assert(systems::refreshed_after_target(
                    w5.cameras@[i],
                    w5.tgt(w5.cameras@[i].camera.target),
                    w6.cameras@[i],
                ));
                assert(final(world).cameras@[i].orientation == w6.cameras@[i].orientation);
            }
            assert forall|i: int| 0 <= i < w0.cameras@.len() implies tick_camera_spec(
                self.settings,
                *input,
                dt as int,
                is_active(self.settings, w0.cameras@[i].id),
                w0.cameras@[i],
                w0.tgt(w0.cameras@[i].camera.target),
                #[trigger] final(world).cameras@[i],
            ) by {
                let c0 = w0.cameras@[i];
                let t0 = w0.tgt(c0.camera.target);
                let cb = w1.cameras@[i];
                let cc = w4.cameras@[i];
                let ct = w5.cameras@[i];
                assert(systems::backfilled(c0, t0.position, self.settings, cb));
                // the command phase
                if self.settings.local_cam is None {
                    assert(wa == w1 && wb == wa && w3 == wb && w4 == w3);
                    assert(commands_applied(self.settings, *input, dt as int, false, cb, cc));
                } else {
                    let cam = self.settings.local_cam.unwrap();
                    if c0.id != cam {
                        // commands touch only the record carrying the active id
                        if input.mouse_changed {
                            let ev = mouse_cmd.unwrap();
                            if w1.has_camera(cam) {
                                let idx = w1.cam_index(cam);
                                assert(0 <= idx < w1.cameras@.len() && w1.cameras@[idx].id == cam);
                                assert(wa.cameras@[i] == w1.cameras@[i]);
                            } else {
                                assert(wa == w1);
                            }
                        } else {
                            assert(wa == w1);
                        }
                        let yacc = systems::keyboard_yaw_spec(self.settings, *input, dt as int);
                        let pacc = systems::keyboard_pitch_spec(self.settings, *input, dt as int);
                        let racc = systems::keyboard_roll_spec(self.settings, *input, dt as int);
                        if yacc != 0 || pacc != 0 {
                            if wa.has_camera(cam) {
                                let idx = wa.cam_index(cam);
                                assert(0 <= idx < wa.cameras@.len() && wa.cameras@[idx].id == cam);
                                assert(wb.cameras@[i] == wa.cameras@[i]);
                            } else {
                                assert(wb == wa);
                            }
                        } else {
                            assert(wb == wa);
                        }
                        if racc != 0 {
                            if wb.has_camera(cam) {
                                let idx = wb.cam_index(cam);
                                assert(0 <= idx < wb.cameras@.len() && wb.cameras@[idx].id == cam);
                                assert(w3.cameras@[i] == wb.cameras@[i]);
                            } else {
                                assert(w3 == wb);
                            }
                        } else {
                            assert(w3 == wb);
                        }
                        if observers::zoom_ready(w3, cam, input.scroll_y as int) {
                            let idx = w3.cam_index(cam);
                            assert(0 <= idx < w3.cameras@.len() && w3.cameras@[idx].id == cam);
                            assert(w4.cameras@[i] == w3.cameras@[i]);
                        } else {
                            assert(w4 == w3);
                        }
                        assert(cc == cb);
                        assert(commands_applied(self.settings, *input, dt as int, false, cb, cc));
                    } else {
                        // this is the active camera: replay the command phase
                        assert(cb.id == cam);
                        w1.lemma_cam_index(cam, i);
                        if input.mouse_changed {
                            let ev = mouse_cmd.unwrap();
                            assert(w1.cam_index(ev.camera) == i);
                            assert(wa.cameras@[i] == (crate::world::CameraRecord {
                                orientation: wa.cameras@[i].orientation,
                                translation: wa.cameras@[i].translation,
                                ..w1.cameras@[i]
                            }));
                        } else {
                            assert(wa == w1);
                        }
                        assert(wa.cameras@[i].id == cam);
                        wa.lemma_cam_index(cam, i);
                        let yacc = systems::keyboard_yaw_spec(self.settings, *input, dt as int);
                        let pacc = systems::keyboard_pitch_spec(self.settings, *input, dt as int);
                        let racc = systems::keyboard_roll_spec(self.settings, *input, dt as int);
                        if yacc != 0 || pacc != 0 {
                            let ev = orbit.unwrap();
                            assert(wa.cam_index(ev.camera) == i);
                            assert(wb.cameras@[i] == (crate::world::CameraRecord {
                                orientation: wb.cameras@[i].orientation,
                                translation: wb.cameras@[i].translation,
                                ..wa.cameras@[i]
                            }));
                        } else {
                            assert(wb == wa);
                        }
                        assert(wb.cameras@[i].id == cam);
                        wb.lemma_cam_index(cam, i);
                        if racc != 0 {
                            let ev = roll.unwrap();
                            assert(wb.cam_index(ev.camera) == i);
                            assert(w3.cameras@[i] == (crate::world::CameraRecord {
                                orientation: w3.cameras@[i].orientation,
                                ..wb.cameras@[i]
                            }));
                        } else {
                            assert(w3 == wb);
                        }
                        assert(w3.cameras@[i].id == cam);
                        w3.lemma_cam_index(cam, i);
                        if observers::zoom_ready(w3, cam, input.scroll_y as int) {
                            assert(w3.cam_index(cam) == i);
                            assert(w4.cameras@[i] == (crate::world::CameraRecord {
                                camera_offset: w4.cameras@[i].camera_offset,
                                ..w3.cameras@[i]
                            }));
                            assert(w4.cameras@[i].camera_offset.unwrap().0.x
                                == cb.camera_offset.unwrap().0.x);
                            assert(w4.cameras@[i].camera_offset.unwrap().0.y
                                == cb.camera_offset.unwrap().0.y);
                            assert(w4.cameras@[i].camera_offset.unwrap().0.z
                                == cb.camera_offset.unwrap().0.z + input.scroll_y);
                            assert(w4.cameras@[i].camera_offset == Some(
                                crate::components::CameraOffset(
                                    crate::math::Vec3Fx {
                                        x: cb.camera_offset.unwrap().0.x,
                                        y: cb.camera_offset.unwrap().0.y,
                                        z: (cb.camera_offset.unwrap().0.z + input.scroll_y) as i64,
                                    },
                                ),
                            ));
                        } else {
                            assert(w4 == w3);
                        }
                        // the translation left by the command phase
                        let o = tick_orientation_spec(self.settings, *input, dt as int, cb.orientation);
                        let any_orbit = input.mouse_changed || yacc != 0 || pacc != 0;
                        if any_orbit && cb.camera_offset is Some && cb.target_point is Some {
                            let ro = (crate::math::Orientation {
                                yaw: o.0 as i64,
                                pitch: o.1 as i64,
                                roll: cb.orientation.roll,
                            });
                            if yacc != 0 || pacc != 0 {
                                assert(wb.cameras@[i].orientation == ro);
                            } else {
                                assert(wa.cameras@[i].orientation == ro);
                            }
                            let t = observers::translation_spec(
                                ro,
                                cb.target_point.unwrap().0,
                                cb.camera_offset.unwrap().0,
                            );
                            assert(cc.translation.x == t.0);
                            assert(cc.translation.y == t.1);
                            assert(cc.translation.z == t.2);
                        } else {
                            assert(cc.translation == cb.translation);
                        }
                        assert(commands_applied(self.settings, *input, dt as int, true, cb, cc));
                    }
                }
                // the tracking and translation stages read the target as
                // marked before the tick
                assert(w0.has_target(c0.camera.target));
                let jt = w0.tgt_index(c0.camera.target);
                assert(0 <= jt < w0.targets@.len() && w0.targets@[jt].id == c0.camera.target);
                assert(w4.targets@ == w0.targets@);
                w4.lemma_tgt_index(c0.camera.target, jt);
                assert(w4.tgt(cc.camera.target) == t0);
                assert(systems::tracked_point(cc, t0, dt as int, ct));
                assert(w5.targets@ == w4.targets@);
                w5.lemma_tgt_index(c0.camera.target, jt);
                assert(systems::refreshed_after_target(ct, t0, w6.cameras@[i]));
                assert(final(world).cameras@[i] == w6.cameras@[i]);
            }
        }
        lines
    }
}

impl Default for ThirdPersonCameraPlugin {
    /// A pipeline with the default settings.
    fn default() -> (r: Self)
        ensures
            r.settings == ThirdPersonCameraSettings::default_spec(),
            r.settings.wf(),
    {
        Self { settings: ThirdPersonCameraSettings::default() }
    }
}

} // verus!
