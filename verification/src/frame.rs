use vstd::prelude::*;
use crate::bind_node::{bind_lights_frame, spec_device_info, spec_packed_bytes, spec_staging_info,
    ShadowLightsBindNode, ShadowLightsSystemState};
use crate::draw::{BufferBinding, PipelineHandle, RenderResourceBindings, TextureId};
use crate::fbits::F32_ONE_BITS;
use crate::gpu::RenderResources;
use crate::light::Light;
use crate::lights_node::{entries_gpu_wf, entry_gpu_ok, distinct_light_bufs, processed_entry,
    scene_has, scene_ids_unique, spec_scene_entry, spec_view_proj, upload_lights_frame, LightsNode,
    SceneLightData};
use crate::pass_node::{shadow_pass_system, spec_light_commands, ShadowPassNode};
use crate::registry::{reslotted, ShadowLights};
use crate::scene::Renderable;

verus! {

// One whole frame of the shadow pass, in the order the pipeline requires:
// reindex, then matrix computation and upload, then command recording, then
// pass execution and array copy, then uniform packing. Running the stages in
// this order re-establishes every cross-frame invariant, so frames chain.

/// Runs one frame of the shadow pipeline over the given scene. Afterwards:
/// slots are dense; every light still in the scene carries its fresh
/// view-projection, its device buffer holds that matrix's bytes, and its
/// command list covers every shadow-casting renderable; each slotted light's
/// depth slice records its pass and is copied into the array texture at its
/// slot; and the shared uniform buffer holds every active light's packed
/// uniform behind the published binding.
pub fn run_shadow_frame<L: Light>(
    lights: &mut ShadowLights,
    lights_node: &mut LightsNode,
    bind_node: &mut ShadowLightsBindNode,
    bind_state: &mut ShadowLightsSystemState,
    pass_node: &mut ShadowPassNode,
    render_resource_bindings: &mut RenderResourceBindings,
    scene: &Vec<SceneLightData<L>>,
    renderables: &Vec<Renderable>,
    pipeline: PipelineHandle,
    array_texture: Option<TextureId>,
    device: &mut RenderResources,
)
    requires
        old(lights).wf(),
        1 <= old(lights).capacity,
        old(lights).capacity <= u32::MAX,
        old(lights).capacity * 96 <= usize::MAX,
        old(lights).capacity <= old(pass_node).num_textures,
        scene_ids_unique(scene@),
        old(device).wf(),
        entries_gpu_wf(old(lights).lights@, old(device).bufs()),
        old(lights_node).command_queue.commands@.len() == 0,
        old(bind_node).command_queue.commands@.len() == 0,
        old(bind_state).wf(old(device).bufs(), (old(lights).capacity * 96) as usize),
        old(pass_node).slices_wf(*old(device)),
        match array_texture {
            Some(arr) => arr < old(device).texs().len() && old(device).texs()[
                arr as int
            ].0.usage.copy_dst
                && old(device).texs()[arr as int].1.len() >= old(pass_node).num_textures,
            None => true,
        },
    ensures
        // The frame's cross-frame invariants are re-established, so the next
        // frame can run under the same preconditions.
        final(lights).wf(),
        final(lights).slots_dense(),
        final(device).wf(),
        entries_gpu_wf(final(lights).lights@, final(device).bufs()),
        final(lights_node).command_queue.commands@.len() == 0,
        final(bind_node).command_queue.commands@.len() == 0,
        final(bind_state).wf(
            final(device).bufs(),
            (old(lights).capacity * 96) as usize,
        ),
        final(pass_node).slices_wf(*final(device)),
        // The registered set is untouched: same identities in order.
        final(lights).capacity == old(lights).capacity,
        final(lights).retired@ == old(lights).retired@,
        final(lights).lights@.len() == old(lights).lights@.len(),
        forall|j: int|
            0 <= j < old(lights).lights@.len() ==> (#[trigger] final(lights).lights@[j]).id == old(
                lights,
            ).lights@[j].id,
        // Every light still in the scene carries its fresh matrix and
        // position, its device buffer holds the matrix bytes, and its
        // command list covers the shadow-casting renderables.
        forall|j: int|
            0 <= j < final(lights).lights@.len() && scene_has(
                scene@,
                (#[trigger] final(lights).lights@[j]).id,
            ) ==> {
                let l = final(lights).lights@[j].light;
                let sl = spec_scene_entry(scene@, final(lights).lights@[j].id);
                &&& l.pos == sl.translation
                &&& l.view_proj.cols() == spec_view_proj(sl)
                &&& l.bindings.view_proj is Some
                &&& final(device).bufs()[l.bindings.view_proj.unwrap().buffer as int].data
                    == crate::bind_node::words_le_bytes(l.view_proj.cols())
                &&& l.draw.render_commands@ == spec_light_commands(
                    pipeline,
                    l.bindings.view_proj.unwrap(),
                    renderables@,
                )
            },
        // Each slotted light's depth slice records its pass and sits in the
        // array texture at its slot.
        final(pass_node).textures@.len() == old(pass_node).num_textures,
        forall|j: int|
            0 <= j < final(lights).active_count() ==> final(device).texs()[(#[trigger]
            final(pass_node).textures@[j]) as int].1[0] == Some(
                (F32_ONE_BITS, final(lights).lights@[j].light.draw.render_commands@),
            ),
        match array_texture {
            Some(arr) => forall|i: int|
                0 <= i < old(pass_node).num_textures ==> final(device).texs()[arr as int].1[i]
                    == final(device).texs()[(#[trigger] final(pass_node).textures@[i]) as int].1[0],
            None => true,
        },
        // The shared uniform buffer holds every active light's packed
        // uniform behind the published binding.
        final(bind_state).light_buffer is Some,
        final(lights).active_count() > 0 ==> {
            let l = final(bind_state).light_buffer.unwrap() as int;
            final(device).bufs()[l].data.take(96 * final(lights).active_count())
                == spec_packed_bytes(*final(lights), final(lights).active_count())
        },
        *final(render_resource_bindings) == (RenderResourceBindings {
            shadow_lights: Some(
                BufferBinding {
                    buffer: final(bind_state).light_buffer.unwrap(),
                    range_start: 0,
                    range_end: (old(lights).capacity * 96) as usize,
                    dynamic_index: None,
                },
            ),
            ..*old(render_resource_bindings)
        }),
{
    let ghost cap = lights.capacity as int;
    let ghost bsize = (lights.capacity * 96) as usize;
    let ghost es0 = lights.lights@;
    let ghost d0 = device.bufs();

    // Reindex: dense slots for this frame, before every other stage.
    bind_node.prepare(lights);
    let ghost es1 = lights.lights@;
    proof {
        assert forall|j: int| 0 <= j < es1.len() implies entry_gpu_ok(
            (#[trigger] es1[j]).light,
            device.bufs(),
        ) by {
            assert(reslotted(es0[j], es1[j], if j < cap {
                Some(j as usize)
            } else {
                None::<usize>
            }));
            assert(entry_gpu_ok(es0[j].light, d0));
        }
        assert forall|j1: int, j2: int|
            0 <= j1 < es1.len() && 0 <= j2 < es1.len() && j1 != j2 implies distinct_light_bufs(
            (#[trigger] es1[j1]).light,
            (#[trigger] es1[j2]).light,
        ) by {
            assert(reslotted(es0[j1], es1[j1], if j1 < cap {
                Some(j1 as usize)
            } else {
                None::<usize>
            }));
            assert(reslotted(es0[j2], es1[j2], if j2 < cap {
                Some(j2 as usize)
            } else {
                None::<usize>
            }));
            assert(distinct_light_bufs(es0[j1].light, es0[j2].light));
        }
    }

    // Matrix computation and upload, through each light's staging buffer.
    upload_lights_frame(lights_node, lights, scene, device);
    let ghost es2 = lights.lights@;
    let ghost d2 = device.bufs();
    proof {
        // slots stay dense: the upload never touches a slot
        assert forall|j: int|
            0 <= j < es2.len() implies (#[trigger] es2[j]).light.texture_index == (if j < cap {
            Some(j as usize)
        } else {
            None::<usize>
        }) by {
            assert(processed_entry(es1[j], es2[j], scene@));
        }
        assert(lights.slots_dense());
        // the bind stage's shared buffers belong to no light, so they are
        // untouched: a light's buffer either keeps its matrix-sized
        // description from the frame's start or is fresh, past the old end
        assert(96 * cap >= 96);
        match bind_state.staging_buffer {
            Some(sb) => {
                assert(d0[sb as int].info == spec_staging_info(bsize));
                assert forall|j: int| 0 <= j < es2.len() implies {
                    let n = (#[trigger] es2[j]).light;
                    &&& n.staging_buffer != Some(sb)
                    &&& (scene_has(scene@, es2[j].id)
                        ==> n.bindings.view_proj.unwrap().buffer != sb)
                } by {
                    assert(processed_entry(es1[j], es2[j], scene@));
                    assert(entry_gpu_ok(es1[j].light, d0));
                    assert(es1[j].id == es2[j].id);
                }
                assert(device.bufs()[sb as int] == d0[sb as int]);
            },
            None => {
            },
        }
        match bind_state.light_buffer {
            Some(lb) => {
                assert(d0[lb as int].info == spec_device_info(bsize));
                assert forall|j: int| 0 <= j < es2.len() implies {
                    let n = (#[trigger] es2[j]).light;
                    &&& n.staging_buffer != Some(lb)
                    &&& (scene_has(scene@, es2[j].id)
                        ==> n.bindings.view_proj.unwrap().buffer != lb)
                } by {
                    assert(processed_entry(es1[j], es2[j], scene@));
                    assert(entry_gpu_ok(es1[j].light, d0));
                    assert(es1[j].id == es2[j].id);
                }
                assert(device.bufs()[lb as int] == d0[lb as int]);
            },
            None => {
            },
        }
        assert(bind_state.wf(device.bufs(), bsize));
        assert(pass_node.slices_wf(*device));
    }

    // Command recording: each light's list is rebuilt from the scene.
    shadow_pass_system(pipeline, lights, renderables);
    let ghost es3 = lights.lights@;
    proof {
        assert forall|j: int| 0 <= j < es3.len() implies entry_gpu_ok(
            (#[trigger] es3[j]).light,
            device.bufs(),
        ) by {
            assert(entry_gpu_ok(es2[j].light, device.bufs()));
        }
        assert forall|j1: int, j2: int|
            0 <= j1 < es3.len() && 0 <= j2 < es3.len() && j1 != j2 implies distinct_light_bufs(
            (#[trigger] es3[j1]).light,
            (#[trigger] es3[j2]).light,
        ) by {
            assert(distinct_light_bufs(es2[j1].light, es2[j2].light));
        }
        assert(lights.slots_dense());
    }

    // Pass execution: depth slices rendered and copied into the array.
    pass_node.update(lights, device, array_texture);
    proof {
        assert(device.bufs() == d2);
        assert(bind_state.wf(device.bufs(), bsize));
    }

    // Uniform packing into the shared buffer behind the published binding.
    let ghost pre_state = *bind_state;
    bind_lights_frame(bind_state, render_resource_bindings, lights, device, bind_node);
    proof {
        let sbf = bind_state.staging_buffer.unwrap() as int;
        let lbf = bind_state.light_buffer.unwrap() as int;
        // a per-light buffer identity is below the pre-bind device end; the
        // two shared identities either predate the frame with the shared
        // descriptions, or are fresh, past that end
        assert forall|j: int| 0 <= j < es3.len() implies {
            let l = (#[trigger] es3[j]).light;
            &&& (l.staging_buffer is Some ==> l.staging_buffer.unwrap() as int != sbf
                && l.staging_buffer.unwrap() as int != lbf)
            &&& (l.bindings.view_proj is Some ==> l.bindings.view_proj.unwrap().buffer as int
                != sbf && l.bindings.view_proj.unwrap().buffer as int != lbf)
        } by {
            assert(entry_gpu_ok(es3[j].light, d2));
            match pre_state.staging_buffer {
                Some(sb) => {
                    assert(sbf == sb as int);
                    assert(d2[sbf].info == spec_staging_info(bsize));
                },
                None => {
                    assert(sbf >= d2.len());
                },
            }
            match pre_state.light_buffer {
                Some(lb) => {
                    assert(lbf == lb as int);
                    assert(d2[lbf].info == spec_device_info(bsize));
                },
                None => {
                    assert(lbf >= d2.len());
                },
            }
            match es3[j].light.staging_buffer {
                Some(st) => {
                    assert(d2[st as int].info == crate::lights_node::spec_mat_staging_info());
                },
                None => {
                },
            }
            match es3[j].light.bindings.view_proj {
                Some(bb) => {
                    assert(d2[bb.buffer as int].info
                        == crate::lights_node::spec_mat_device_info());
                },
                None => {
                },
            }
        }
        // so the bind step left every per-light buffer untouched
        assert forall|j: int| 0 <= j < es3.len() implies entry_gpu_ok(
            (#[trigger] es3[j]).light,
            device.bufs(),
        ) && {
            let l = es3[j].light;
            l.bindings.view_proj is Some ==> device.bufs()[
                l.bindings.view_proj.unwrap().buffer as int
            ] == d2[l.bindings.view_proj.unwrap().buffer as int]
        } by {
            assert(entry_gpu_ok(es3[j].light, d2));
            match es3[j].light.staging_buffer {
                Some(st) => {
                    assert(device.bufs()[st as int] == d2[st as int]);
                },
                None => {
                },
            }
            match es3[j].light.bindings.view_proj {
                Some(bb) => {
                    assert(device.bufs()[bb.buffer as int] == d2[bb.buffer as int]);
                },
                None => {
                },
            }
        }
        assert forall|j1: int, j2: int|
            0 <= j1 < es3.len() && 0 <= j2 < es3.len() && j1 != j2 implies distinct_light_bufs(
            (#[trigger] es3[j1]).light,
            (#[trigger] es3[j2]).light,
        ) by {}
    }
}

} // verus!
