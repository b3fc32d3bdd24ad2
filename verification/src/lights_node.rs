use vstd::prelude::*;
use crate::LightId;
use crate::bind_node::{lemma_words_le_bytes_len, push_words_le, words_le_bytes};
use crate::draw::BufferBinding;
use crate::fbits::{Mat4Bits, Vec3Bits};
use crate::glam_calls::{mat4_mul, mat4_mul_bits};
use crate::gpu::{BufView, BufferInfo, BufferMapMode, BufferUsage, CommandQueue, GpuCommand,
    RenderResources, command_valid};
use crate::light::Light;
use crate::registry::{LightEntry, ShadowLight, ShadowLights};

verus! {

// The lights node: once per frame, for every registered light still present
// in the scene, it recomputes the light's view-projection matrix, writes the
// matrix into the light's staging buffer — both buffers created lazily on
// first use — and enqueues the staging-to-device copy. A light whose scene
// data is gone this frame is skipped, not an error.

/// Bytes of one column-major 4x4 matrix of 32-bit scalars.
pub const MATRIX_SIZE: usize = 64;

/// What the scene hands the lights node for one light: its identity, its
/// light data, its world translation, and its projection configuration if
/// it has one.
pub struct SceneLightData<L: Light> {
    pub id: LightId,
    pub light: L,
    pub translation: Vec3Bits,
    pub config: Option<L::Config>,
}

/// The scene query yields each entity once.
pub open spec fn scene_ids_unique<L: Light>(scene: Seq<SceneLightData<L>>) -> bool {
    forall|i: int, j: int| 0 <= i < j < scene.len() ==> scene[i].id != scene[j].id
}

pub open spec fn scene_has<L: Light>(scene: Seq<SceneLightData<L>>, id: LightId) -> bool {
    exists|k: int| 0 <= k < scene.len() && scene[k].id == id
}

/// The scene entry of a present identity.
pub open spec fn spec_scene_entry<L: Light>(
    scene: Seq<SceneLightData<L>>,
    id: LightId,
) -> SceneLightData<L>
    recommends
        scene_has(scene, id),
{
    scene[choose|k: int| 0 <= k < scene.len() && scene[k].id == id]
}

/// The view-projection a light's scene data yields: projection times view.
pub open spec fn spec_view_proj<L: Light>(sl: SceneLightData<L>) -> Seq<u32> {
    let proj = match sl.config {
        Some(c) => sl.light.spec_proj_matrix(Some(&c)),
        None => sl.light.spec_proj_matrix(None),
    };
    mat4_mul_bits(proj, sl.light.spec_view_matrix())
}

/// The creation-time description of a light's staging buffer.
pub open spec fn spec_mat_staging_info() -> BufferInfo {
    BufferInfo {
        size: MATRIX_SIZE,
        buffer_usage: BufferUsage {
            map_write: true,
            copy_src: true,
            copy_dst: false,
            uniform: false,
        },
        mapped_at_creation: true,
    }
}

/// The creation-time description of a light's device-resident
/// view-projection buffer.
pub open spec fn spec_mat_device_info() -> BufferInfo {
    BufferInfo {
        size: MATRIX_SIZE,
        buffer_usage: BufferUsage {
            map_write: false,
            copy_src: false,
            copy_dst: true,
            uniform: true,
        },
        mapped_at_creation: false,
    }
}

/// A light's buffers, where they exist, are live, unmapped between frames,
/// matrix-sized with their creation-time descriptions, and distinct from
/// each other.
pub open spec fn entry_gpu_ok(l: ShadowLight, bufs: Seq<BufView>) -> bool {
    &&& match l.staging_buffer {
        Some(s) => s < bufs.len() && bufs[s as int].alive && !bufs[s as int].mapped && bufs[
            s as int
        ].info == spec_mat_staging_info(),
        None => true,
    }
    &&& match l.bindings.view_proj {
        Some(bb) => bb.buffer < bufs.len() && bufs[bb.buffer as int].alive && !bufs[
            bb.buffer as int
        ].mapped && bufs[bb.buffer as int].info == spec_mat_device_info() && bb.range_start == 0
            && bb.range_end == MATRIX_SIZE && bb.dynamic_index == Some(0u32),
        None => true,
    }
    &&& (l.staging_buffer is Some && l.bindings.view_proj is Some ==> l.staging_buffer.unwrap()
        != l.bindings.view_proj.unwrap().buffer)
}

/// Two lights never share a buffer: the registry owns each light's buffers
/// exclusively.
pub open spec fn distinct_light_bufs(a: ShadowLight, b: ShadowLight) -> bool {
    &&& (a.staging_buffer is Some && b.staging_buffer is Some ==> a.staging_buffer.unwrap()
        != b.staging_buffer.unwrap())
    &&& (a.bindings.view_proj is Some && b.bindings.view_proj is Some
        ==> a.bindings.view_proj.unwrap().buffer != b.bindings.view_proj.unwrap().buffer)
    &&& (a.staging_buffer is Some && b.bindings.view_proj is Some ==> a.staging_buffer.unwrap()
        != b.bindings.view_proj.unwrap().buffer)
}

/// The per-light buffer ownership discipline over a set of entries.
pub open spec fn entries_gpu_wf(es: Seq<LightEntry>, bufs: Seq<BufView>) -> bool {
    &&& forall|j: int| 0 <= j < es.len() ==> entry_gpu_ok((#[trigger] es[j]).light, bufs)
    &&& forall|j1: int, j2: int|
        0 <= j1 < es.len() && 0 <= j2 < es.len() && j1 != j2 ==> distinct_light_bufs(
            (#[trigger] es[j1]).light,
            (#[trigger] es[j2]).light,
        )
}

/// Lays a matrix out as its 64 little-endian bytes.
pub fn mat4_le_bytes(m: &Mat4Bits) -> (r: Vec<u8>)
    ensures
        r@ == words_le_bytes(m.cols()),
        r@.len() == MATRIX_SIZE,
{
    let mut ws: Vec<u32> = Vec::new();
    let mut k: usize = 0;
    while k < 16
        invariant
            k <= 16,
            ws@ == m.m@.take(k as int),
        decreases 16 - k,
    {
        ws.push(m.m[k]);
        proof {
            assert(m.m@.take(k + 1 as int) =~= m.m@.take(k as int).push(m.m@[k as int]));
        }
        k = k + 1;
    }
    proof {
        assert(m.m@.take(16) =~= m.m@);
    }
    let mut out: Vec<u8> = Vec::new();
    push_words_le(&mut out, &ws);
    proof {
        lemma_words_le_bytes_len(m.cols());
    }
    out
}

/// The staging-to-device copy a light's upload enqueues.
pub open spec fn copy_of(l: ShadowLight) -> GpuCommand {
    GpuCommand::CopyBufferToBuffer {
        src: l.staging_buffer.unwrap(),
        src_offset: 0,
        dst: l.bindings.view_proj.unwrap().buffer,
        dst_offset: 0,
        size: MATRIX_SIZE,
    }
}

/// Stores a light's freshly computed matrix and position, writes the matrix
/// through the light's staging buffer — creating staging and device buffers
/// on first use — and enqueues the copy into the device buffer.
pub fn upload_view_proj(
    light: &mut ShadowLight,
    view_proj: Mat4Bits,
    translation: Vec3Bits,
    device: &mut RenderResources,
    queue: &mut CommandQueue,
)
    requires
        old(device).wf(),
        entry_gpu_ok(*old(light), old(device).bufs()),
    ensures
        final(device).wf(),
        entry_gpu_ok(*final(light), final(device).bufs()),
        // The light's new state.
        final(light).pos == translation,
        final(light).view_proj == view_proj,
        final(light).texture_index == old(light).texture_index,
        final(light).draw == old(light).draw,
        final(light).staging_buffer is Some,
        final(light).bindings.view_proj is Some,
        old(light).staging_buffer is Some ==> final(light).staging_buffer == old(
            light,
        ).staging_buffer,
        old(light).bindings.view_proj is Some ==> final(light).bindings == old(light).bindings,
        final(light).bindings.shadow_lights == old(light).bindings.shadow_lights,
        final(light).bindings.directional_light_texture == old(
            light,
        ).bindings.directional_light_texture,
        final(light).bindings.directional_light_sampler == old(
            light,
        ).bindings.directional_light_sampler,
        // Fresh buffers take identities at or past the old device end.
        old(light).staging_buffer is None ==> final(light).staging_buffer.unwrap() >= old(
            device,
        ).bufs().len(),
        old(light).bindings.view_proj is None ==> final(light).bindings.view_proj.unwrap().buffer
            >= old(device).bufs().len(),
        // The staging buffer ends the frame holding exactly the matrix bytes.
        final(device).bufs()[final(light).staging_buffer.unwrap() as int].data == words_le_bytes(
            view_proj.cols(),
        ),
        // Exactly one copy is enqueued, from this light's staging buffer to
        // its device buffer, and it is legal on the device as left.
        final(queue).commands@ == old(queue).commands@.push(copy_of(*final(light))),
        command_valid(final(device).bufs(), copy_of(*final(light))),
        // Every buffer but this light's staging is untouched.
        final(device).bufs().len() >= old(device).bufs().len(),
        forall|id: int|
            0 <= id < old(device).bufs().len() && Some(id as usize) != final(light).staging_buffer
                ==> final(device).bufs()[id] == old(device).bufs()[id],
        final(device).texs() == old(device).texs(),
{
    let staging: usize = match light.staging_buffer {
        Some(s) => {
            device.map_buffer(s, BufferMapMode::Write);
            s
        },
        None => {
            let s = device.create_buffer(
                BufferInfo {
                    size: MATRIX_SIZE,
                    buffer_usage: BufferUsage {
                        map_write: true,
                        copy_src: true,
                        copy_dst: false,
                        uniform: false,
                    },
                    mapped_at_creation: true,
                },
            );
            light.staging_buffer = Some(s);
            s
        },
    };
    let buffer: usize = match light.bindings.view_proj {
        Some(bb) => bb.buffer,
        None => {
            let b = device.create_buffer(
                BufferInfo {
                    size: MATRIX_SIZE,
                    buffer_usage: BufferUsage {
                        map_write: false,
                        copy_src: false,
                        copy_dst: true,
                        uniform: true,
                    },
                    mapped_at_creation: false,
                },
            );
            light.bindings.view_proj = Some(
                BufferBinding {
                    buffer: b,
                    range_start: 0,
                    range_end: MATRIX_SIZE,
                    dynamic_index: Some(0u32),
                },
            );
            b
        },
    };
    light.pos = translation;
    light.view_proj = view_proj;
    let bytes = mat4_le_bytes(&view_proj);
    device.write_mapped_buffer(staging, 0, &bytes);
    device.unmap_buffer(staging);
    queue.copy_buffer_to_buffer(staging, 0, buffer, 0, MATRIX_SIZE);
    proof {
        assert(device.bufs()[staging as int].data =~= words_le_bytes(view_proj.cols()));
    }
}

/// The first scene entry carrying the given identity.
pub fn find_scene<L: Light>(scene: &Vec<SceneLightData<L>>, id: LightId) -> (r: Option<usize>)
    ensures
        match r {
            Some(k) => k < scene@.len() && scene@[k as int].id == id,
            None => !scene_has(scene@, id),
        },
{
    let mut k: usize = 0;
    while k < scene.len()
        invariant
            k <= scene@.len(),
            forall|i: int| 0 <= i < k ==> scene@[i].id != id,
        decreases scene@.len() - k,
    {
        if scene[k].id == id {
            return Some(k);
        }
        k = k + 1;
    }
    None
}

/// The copies a prepare pass enqueues: one per registered light found in the
/// scene, in registration order.
pub open spec fn spec_upload_cmds<L: Light>(
    es: Seq<LightEntry>,
    scene: Seq<SceneLightData<L>>,
) -> Seq<GpuCommand>
    decreases es.len(),
{
    if es.len() == 0 {
        Seq::empty()
    } else {
        spec_upload_cmds(es.drop_last(), scene) + if scene_has(scene, es.last().id) {
            seq![copy_of(es.last().light)]
        } else {
            Seq::<GpuCommand>::empty()
        }
    }
}

/// How one registry entry relates across a prepare pass: refreshed from its
/// scene data when the scene still has the light, untouched otherwise.
pub open spec fn processed_entry<L: Light>(
    o: LightEntry,
    n: LightEntry,
    scene: Seq<SceneLightData<L>>,
) -> bool {
    if scene_has(scene, o.id) {
        &&& n.id == o.id
        &&& n.light.texture_index == o.light.texture_index
        &&& n.light.draw == o.light.draw
        &&& n.light.pos == spec_scene_entry(scene, o.id).translation
        &&& n.light.view_proj.cols() == spec_view_proj(spec_scene_entry(scene, o.id))
        &&& n.light.staging_buffer is Some
        &&& n.light.bindings.view_proj is Some
        &&& (o.light.staging_buffer is Some ==> n.light.staging_buffer == o.light.staging_buffer)
        &&& (o.light.bindings.view_proj is Some ==> n.light.bindings.view_proj
            == o.light.bindings.view_proj)
        &&& n.light.bindings.shadow_lights == o.light.bindings.shadow_lights
        &&& n.light.bindings.directional_light_texture
            == o.light.bindings.directional_light_texture
        &&& n.light.bindings.directional_light_sampler
            == o.light.bindings.directional_light_sampler
    } else {
        n == o
    }
}

/// The per-frame node that recomputes and uploads every light's
/// view-projection matrix, and later executes the queued copies.
#[derive(Debug)]
pub struct LightsNode {
    pub command_queue: CommandQueue,
}

impl Default for LightsNode {
    fn default() -> (r: Self)
        ensures
            r.command_queue.commands@ == Seq::<GpuCommand>::empty(),
    {
        LightsNode { command_queue: CommandQueue::new() }
    }
}

impl LightsNode {
    /// For each registered light still present in the scene: computes
    /// projection times view from the scene data, stores the matrix and the
    /// world position on the light, writes the matrix through the light's
    /// staging buffer — created on first use together with the device
    /// buffer — and enqueues the staging-to-device copy. Lights the scene no
    /// longer has are left untouched. Every other buffer of the device is
    /// left as it was.
    pub fn prepare<L: Light>(
        &mut self,
        lights: &mut ShadowLights,
        scene: &Vec<SceneLightData<L>>,
        device: &mut RenderResources,
    )
        requires
            old(lights).wf(),
            scene_ids_unique(scene@),
            entries_gpu_wf(old(lights).lights@, old(device).bufs()),
            old(device).wf(),
        ensures
            final(lights).wf(),
            final(device).wf(),
            final(device).texs() == old(device).texs(),
            final(lights).capacity == old(lights).capacity,
            final(lights).retired@ == old(lights).retired@,
            final(lights).lights@.len() == old(lights).lights@.len(),
            entries_gpu_wf(final(lights).lights@, final(device).bufs()),
            forall|j: int|
                0 <= j < old(lights).lights@.len() ==> processed_entry(
                    old(lights).lights@[j],
                    #[trigger] final(lights).lights@[j],
                    scene@,
                ),
            final(self).command_queue.commands@ == old(self).command_queue.commands@
                + spec_upload_cmds(final(lights).lights@, scene@),
            // Each refreshed light's staging buffer ends the frame holding
            // its freshly computed matrix bytes.
            forall|j: int|
                0 <= j < final(lights).lights@.len() && scene_has(
                    scene@,
                    #[trigger] final(lights).lights@[j].id,
                ) ==> {
                    let l = final(lights).lights@[j].light;
                    final(device).bufs()[l.staging_buffer.unwrap() as int].data == words_le_bytes(
                        l.view_proj.cols(),
                    )
                },
            // A buffer created this frame takes an identity at or past the
            // old device end.
            forall|j: int|
                0 <= j < old(lights).lights@.len() && scene_has(
                    scene@,
                    (#[trigger] old(lights).lights@[j]).id,
                ) ==> {
                    let o = old(lights).lights@[j].light;
                    let n = final(lights).lights@[j].light;
                    &&& (o.staging_buffer is None ==> n.staging_buffer.unwrap() >= old(
                        device,
                    ).bufs().len())
                    &&& (o.bindings.view_proj is None ==> n.bindings.view_proj.unwrap().buffer
                        >= old(device).bufs().len())
                },
            // Buffers no light's staging occupies are untouched.
            final(device).bufs().len() >= old(device).bufs().len(),
            forall|id: int|
                0 <= id < old(device).bufs().len() && (forall|j: int|
                    0 <= j < final(lights).lights@.len() ==> (#[trigger] final(
                        lights).lights@[j]).light.staging_buffer != Some(id as usize))
                    ==> final(device).bufs()[id] == old(device).bufs()[id],
            // Every enqueued copy is legal on the device as left.
            forall|k: int|
                old(self).command_queue.commands@.len() <= k
                    < final(self).command_queue.commands@.len() ==> command_valid(
                    final(device).bufs(),
                    #[trigger] final(self).command_queue.commands@[k],
                ),
    {
        let ghost orig = lights.lights@;
        let ghost d0 = device.bufs();
        let ghost q0 = self.command_queue.commands@;
        let mut out: Vec<LightEntry> = Vec::new();
        proof {
            assert(out@ + lights.lights@ =~= orig);
            assert(spec_upload_cmds(out@, scene@) =~= Seq::<GpuCommand>::empty());
            assert(self.command_queue.commands@ =~= q0 + spec_upload_cmds(out@, scene@));
        }
        while lights.lights.len() > 0
            invariant
                scene_ids_unique(scene@),
                out@.len() + lights.lights@.len() == orig.len(),
                lights.lights@ =~= orig.skip(out@.len() as int),
                lights.capacity == old(lights).capacity,
                lights.retired@ == old(lights).retired@,
                device.wf(),
                device.texs() == old(device).texs(),
                device.bufs().len() >= d0.len(),
                entries_gpu_wf(out@ + lights.lights@, device.bufs()),
                forall|j: int|
                    0 <= j < out@.len() ==> processed_entry(orig[j], #[trigger] out@[j], scene@),
                forall|j: int|
                    0 <= j < out@.len() && scene_has(scene@, #[trigger] out@[j].id)
                        ==> device.bufs()[out@[j].light.staging_buffer.unwrap() as int].data
                        == words_le_bytes(out@[j].light.view_proj.cols()),
                forall|j: int|
                    0 <= j < out@.len() && scene_has(scene@, (#[trigger] orig[j]).id) ==> {
                        let o = orig[j].light;
                        let n = out@[j].light;
                        &&& (o.staging_buffer is None ==> n.staging_buffer.unwrap() >= d0.len())
                        &&& (o.bindings.view_proj is None ==> n.bindings.view_proj.unwrap().buffer
                            >= d0.len())
                    },
                forall|id: int|
                    0 <= id < d0.len() && (forall|j: int|
                        0 <= j < out@.len() ==> (#[trigger] out@[j]).light.staging_buffer != Some(
                            id as usize,
                        )) ==> device.bufs()[id] == d0[id],
                self.command_queue.commands@ == q0 + spec_upload_cmds(out@, scene@),
                forall|k: int|
                    q0.len() <= k < self.command_queue.commands@.len() ==> command_valid(
                        device.bufs(),
                        #[trigger] self.command_queue.commands@[k],
                    ),
            decreases lights.lights@.len(),
        {
            let ghost pre_combined = out@ + lights.lights@;
            let ghost pre_bufs = device.bufs();
            let ghost pre_q = self.command_queue.commands@;
            let mut e = lights.lights.remove(0);
            proof {
                assert(pre_combined[out@.len() as int] == e);
                assert(entry_gpu_ok(e.light, device.bufs()));
            }
            let found = find_scene(scene, e.id);
            match found {
                Some(k) => {
                    let sl = &scene[k];
                    let proj = sl.light.proj_matrix(sl.config.as_ref());
                    let view = sl.light.view_matrix();
                    let view_proj = mat4_mul(&proj, &view);
                    proof {
                        let w = choose|w: int|
                            0 <= w < scene@.len() && scene@[w].id == e.id;
                        assert(w == k);
                        assert(spec_scene_entry(scene@, e.id) == scene@[k as int]);
                        assert(view_proj.cols() == spec_view_proj(scene@[k as int]));
                    }
                    upload_view_proj(
                        &mut e.light,
                        view_proj,
                        sl.translation,
                        device,
                        &mut self.command_queue,
                    );
                },
                None => {
                },
            }
            let ghost e_new = e;
            let ghost out_before = out@;
            out.push(e);
            proof {
                let m = out@.len() - 1;
                assert(out@[m] == e_new);
                assert(out@.drop_last() =~= out_before);
                // suffix untouched
                assert(lights.lights@ =~= orig.skip(out@.len() as int));
                // the new combined sequence
                let combined = out@ + lights.lights@;
                assert(combined =~= pre_combined.update(m, e_new));
                // ownership discipline is preserved
                assert forall|j: int|
                    0 <= j < combined.len() implies entry_gpu_ok(
                    (#[trigger] combined[j]).light,
                    device.bufs(),
                ) by {
                    if j != m {
                        assert(combined[j] == pre_combined[j]);
                        assert(entry_gpu_ok(pre_combined[j].light, pre_bufs));
                        if scene_has(scene@, e_new.id) {
                            match pre_combined[j].light.staging_buffer {
                                Some(s) => {
                                    assert(distinct_light_bufs(
                                        pre_combined[j].light,
                                        pre_combined[m].light,
                                    ));
                                    assert(device.bufs()[s as int] == pre_bufs[s as int]);
                                },
                                None => {
                                },
                            }
                            match pre_combined[j].light.bindings.view_proj {
                                Some(bb) => {
                                    assert(device.bufs()[bb.buffer as int] == pre_bufs[
                                        bb.buffer as int
                                    ]);
                                },
                                None => {
                                },
                            }
                        }
                    }
                }
                assert forall|j1: int, j2: int|
                    0 <= j1 < combined.len() && 0 <= j2 < combined.len() && j1 != j2
                    implies distinct_light_bufs(
                    (#[trigger] combined[j1]).light,
                    (#[trigger] combined[j2]).light,
                ) by {
                    if j1 != m && j2 != m {
                        assert(distinct_light_bufs(
                            pre_combined[j1].light,
                            pre_combined[j2].light,
                        ));
                    } else {
                        let other = if j1 == m {
                            j2
                        } else {
                            j1
                        };
                        assert(distinct_light_bufs(
                            pre_combined[other].light,
                            pre_combined[m].light,
                        ));
                        assert(entry_gpu_ok(pre_combined[other].light, pre_bufs));
                    }
                }
                // staging contents of earlier lights survive this upload
                assert forall|j: int|
                    0 <= j < out@.len() && scene_has(scene@, #[trigger] out@[j].id)
                    implies device.bufs()[out@[j].light.staging_buffer.unwrap() as int].data
                    == words_le_bytes(out@[j].light.view_proj.cols()) by {
                    if j < m {
                        assert(out@[j] == out_before[j]);
                        assert(out_before[j] == pre_combined[j]);
                        let s = out_before[j].light.staging_buffer.unwrap();
                        assert(entry_gpu_ok(pre_combined[j].light, pre_bufs));
                        if scene_has(scene@, e_new.id) {
                            match pre_combined[m].light.staging_buffer {
                                Some(olds) => {
                                    assert(distinct_light_bufs(
                                        pre_combined[j].light,
                                        pre_combined[m].light,
                                    ));
                                    assert(e_new.light.staging_buffer == Some(olds));
                                    assert(s != olds);
                                },
                                None => {
                                    assert(e_new.light.staging_buffer.unwrap()
                                        >= pre_bufs.len());
                                },
                            }
                            assert(device.bufs()[s as int] == pre_bufs[s as int]);
                        }
                    }
                }
                // buffers no staging occupies stay as the frame found them
                assert forall|id: int|
                    0 <= id < d0.len() && (forall|j: int|
                        0 <= j < out@.len() ==> (#[trigger] out@[j]).light.staging_buffer != Some(
                            id as usize,
                        )) implies device.bufs()[id] == d0[id] by {
                    assert forall|j: int|
                        0 <= j < out_before.len() implies (#[trigger] out_before[j]).light.staging_buffer
                        != Some(id as usize) by {
                        assert(out@[j] == out_before[j]);
                    }
                    assert(pre_bufs[id] == d0[id]);
                    assert(out@[m].light.staging_buffer != Some(id as usize));
                    if scene_has(scene@, e_new.id) {
                        assert(device.bufs()[id] == pre_bufs[id]);
                    }
                }
                // queue bookkeeping
                assert(spec_upload_cmds(out@, scene@) =~= spec_upload_cmds(out_before, scene@)
                    + if scene_has(scene@, e_new.id) {
                    seq![copy_of(e_new.light)]
                } else {
                    Seq::<GpuCommand>::empty()
                });
                assert(self.command_queue.commands@ =~= q0 + spec_upload_cmds(out@, scene@));
                // earlier copies stay legal: nothing a copy's legality reads
                // changed, and the new copy is legal by construction
                assert forall|k: int|
                    q0.len() <= k < self.command_queue.commands@.len() implies command_valid(
                    device.bufs(),
                    #[trigger] self.command_queue.commands@[k],
                ) by {
                    if k < pre_q.len() {
                        assert(self.command_queue.commands@[k] == pre_q[k]);
                        assert(command_valid(pre_bufs, pre_q[k]));
                        match pre_q[k] {
                            GpuCommand::CopyBufferToBuffer { src, src_offset, dst, dst_offset, size } => {
                                if scene_has(scene@, e_new.id) {
                                    let es = e_new.light.staging_buffer.unwrap() as int;
                                    assert(entry_gpu_ok(e_new.light, device.bufs()));
                                    if src == es {
                                        assert(device.bufs()[src as int].alive);
                                        assert(!device.bufs()[src as int].mapped);
                                        assert(device.bufs()[src as int].info == pre_bufs[src as int].info);
                                    } else {
                                        assert(device.bufs()[src as int] == pre_bufs[src as int]);
                                    }
                                    if dst == es {
                                        assert(device.bufs()[dst as int].alive);
                                        assert(!device.bufs()[dst as int].mapped);
                                        assert(device.bufs()[dst as int].info == pre_bufs[dst as int].info);
                                    } else {
                                        assert(device.bufs()[dst as int] == pre_bufs[dst as int]);
                                    }
                                }
                            },
                        }
                    } else {
                        assert(self.command_queue.commands@[k] == copy_of(e_new.light));
                    }
                }
            }
        }
        lights.lights = out;
        proof {
            assert(lights.lights@ + Seq::<LightEntry>::empty() =~= lights.lights@);
            assert(entries_gpu_wf(lights.lights@, device.bufs()));
            assert forall|i2: int, j2: int|
                0 <= i2 < j2 < lights.lights@.len() implies lights.lights@[i2].id
                != lights.lights@[j2].id by {
                assert(processed_entry(orig[i2], lights.lights@[i2], scene@));
                assert(processed_entry(orig[j2], lights.lights@[j2], scene@));
            }
        }
    }

    /// Executes every queued staging-to-device copy, first queued first,
    /// leaving the queue empty.
    pub fn update(&mut self, device: &mut RenderResources)
        requires
            old(device).wf(),
            crate::gpu::commands_valid(old(device).bufs(), old(self).command_queue.commands@),
        ensures
            final(device).wf(),
            final(device).bufs() =~= crate::gpu::apply_commands(
                old(device).bufs(),
                old(self).command_queue.commands@,
            ),
            final(device).texs() == old(device).texs(),
            final(self).command_queue.commands@ == Seq::<GpuCommand>::empty(),
    {
        self.command_queue.execute(device);
    }
}

/// Running a prepare pass's upload copies lands every present light's matrix
/// bytes in its device-resident buffer, and touches no other buffer.
pub proof fn lemma_apply_upload_cmds<L: Light>(
    es: Seq<LightEntry>,
    scene: Seq<SceneLightData<L>>,
    bufs: Seq<crate::gpu::BufView>,
)
    requires
        crate::gpu::views_wf(bufs),
        entries_gpu_wf(es, bufs),
        forall|j: int|
            0 <= j < es.len() && scene_has(scene, (#[trigger] es[j]).id) ==> {
                let l = es[j].light;
                &&& l.staging_buffer is Some
                &&& l.bindings.view_proj is Some
                &&& bufs[l.staging_buffer.unwrap() as int].data == words_le_bytes(
                    l.view_proj.cols(),
                )
            },
    ensures
        ({
            let out = crate::gpu::apply_commands(bufs, spec_upload_cmds(es, scene));
            &&& crate::gpu::same_shape(bufs, out)
            &&& forall|j: int|
                0 <= j < es.len() && scene_has(scene, (#[trigger] es[j]).id) ==> out[
                    es[j].light.bindings.view_proj.unwrap().buffer as int
                ].data == words_le_bytes(es[j].light.view_proj.cols())
            &&& forall|id: int|
                0 <= id < bufs.len() && (forall|j: int|
                    0 <= j < es.len() && scene_has(scene, (#[trigger] es[j]).id)
                        ==> es[j].light.bindings.view_proj.unwrap().buffer != id) ==> out[id]
                    == bufs[id]
        }),
    decreases es.len(),
{
    let out = crate::gpu::apply_commands(bufs, spec_upload_cmds(es, scene));
    if es.len() == 0 {
        assert(spec_upload_cmds(es, scene) =~= Seq::<GpuCommand>::empty());
    } else {
        let pre = es.drop_last();
        let m = es.len() - 1;
        assert forall|j: int|
            0 <= j < pre.len() && scene_has(scene, (#[trigger] pre[j]).id) implies {
            let l = pre[j].light;
            &&& l.staging_buffer is Some
            &&& l.bindings.view_proj is Some
            &&& bufs[l.staging_buffer.unwrap() as int].data == words_le_bytes(l.view_proj.cols())
        } by {
            assert(pre[j] == es[j]);
        }
        assert forall|j: int| 0 <= j < pre.len() implies entry_gpu_ok(
            (#[trigger] pre[j]).light,
            bufs,
        ) by {
            assert(pre[j] == es[j]);
        }
        assert forall|j1: int, j2: int|
            0 <= j1 < pre.len() && 0 <= j2 < pre.len() && j1 != j2 implies distinct_light_bufs(
            (#[trigger] pre[j1]).light,
            (#[trigger] pre[j2]).light,
        ) by {
            assert(pre[j1] == es[j1]);
            assert(pre[j2] == es[j2]);
        }
        lemma_apply_upload_cmds(pre, scene, bufs);
        let out1 = crate::gpu::apply_commands(bufs, spec_upload_cmds(pre, scene));
        let tail = if scene_has(scene, es.last().id) {
            seq![copy_of(es.last().light)]
        } else {
            Seq::<GpuCommand>::empty()
        };
        crate::gpu::lemma_apply_commands_concat(bufs, spec_upload_cmds(pre, scene), tail);
        if !scene_has(scene, es.last().id) {
            assert(out == crate::gpu::apply_commands(out1, tail));
            assert(tail.len() == 0);
            assert(out == out1);
            assert forall|j: int|
                0 <= j < es.len() && scene_has(scene, (#[trigger] es[j]).id) implies out[
                es[j].light.bindings.view_proj.unwrap().buffer as int
            ].data == words_le_bytes(es[j].light.view_proj.cols()) by {
                assert(j < m);
                assert(pre[j] == es[j]);
            }
        } else {
            let l = es.last().light;
            let s = l.staging_buffer.unwrap() as int;
            let d = l.bindings.view_proj.unwrap().buffer as int;
            let c = copy_of(l);
            assert(out == crate::gpu::apply_commands(out1, tail));
            assert(tail[0] == c);
            assert(tail.drop_first() =~= Seq::<GpuCommand>::empty());
            assert(crate::gpu::apply_commands(
                crate::gpu::apply_command(out1, c),
                tail.drop_first(),
            ) == crate::gpu::apply_command(out1, c));
            assert(out == crate::gpu::apply_command(out1, c));
            // the staging source still holds the matrix bytes
            assert forall|j: int|
                0 <= j < pre.len() && scene_has(scene, (#[trigger] pre[j]).id)
                implies pre[j].light.bindings.view_proj.unwrap().buffer != s as usize by {
                assert(distinct_light_bufs(es[m].light, es[j].light));
            }
            assert(out1[s] == bufs[s]);
            lemma_words_le_bytes_len(l.view_proj.cols());
            assert(bufs[s].data.len() == 64);
            // the destination is matrix-sized
            assert(bufs[d].info == spec_mat_device_info());
            assert(bufs[d].data.len() == 64);
            assert(out1[d].data.len() == 64);
            let chunk = out1[s].data.subrange(0, 64);
            assert(chunk =~= out1[s].data);
            assert(crate::gpu::splice_bytes(out1[d].data, 0, chunk) =~= chunk);
            assert(out[d].data == words_le_bytes(l.view_proj.cols()));
            // earlier lights' device buffers are untouched by this copy
            assert forall|j: int|
                0 <= j < es.len() && scene_has(scene, (#[trigger] es[j]).id) implies out[
                es[j].light.bindings.view_proj.unwrap().buffer as int
            ].data == words_le_bytes(es[j].light.view_proj.cols()) by {
                if j < m {
                    assert(pre[j] == es[j]);
                    assert(distinct_light_bufs(es[j].light, es[m].light));
                    let dj = es[j].light.bindings.view_proj.unwrap().buffer as int;
                    assert(dj != d);
                    assert(out[dj] == out1[dj]);
                }
            }
            assert forall|id: int|
                0 <= id < bufs.len() && (forall|j: int|
                    0 <= j < es.len() && scene_has(scene, (#[trigger] es[j]).id)
                        ==> es[j].light.bindings.view_proj.unwrap().buffer != id)
                implies out[id] == bufs[id] by {
                assert(es[m].light.bindings.view_proj.unwrap().buffer != id);
                assert(id != d);
                assert forall|j: int|
                    0 <= j < pre.len() && scene_has(scene, (#[trigger] pre[j]).id)
                    implies pre[j].light.bindings.view_proj.unwrap().buffer != id by {
                    assert(pre[j] == es[j]);
                }
                assert(out1[id] == bufs[id]);
                assert(out[id] == out1[id]);
            }
        }
    }
}

/// One whole matrix-upload step of a frame: computes and stores every
/// present light's view-projection, then executes the queued copies, so
/// every present light's device-resident buffer ends the frame holding
/// exactly its freshly computed matrix bytes.
pub fn upload_lights_frame<L: Light>(
    node: &mut LightsNode,
    lights: &mut ShadowLights,
    scene: &Vec<SceneLightData<L>>,
    device: &mut RenderResources,
)
    requires
        old(node).command_queue.commands@.len() == 0,
        old(lights).wf(),
        scene_ids_unique(scene@),
        entries_gpu_wf(old(lights).lights@, old(device).bufs()),
        old(device).wf(),
    ensures
        final(lights).wf(),
        final(device).wf(),
        final(device).texs() == old(device).texs(),
        final(node).command_queue.commands@.len() == 0,
        final(lights).capacity == old(lights).capacity,
        final(lights).retired@ == old(lights).retired@,
        final(lights).lights@.len() == old(lights).lights@.len(),
        entries_gpu_wf(final(lights).lights@, final(device).bufs()),
        forall|j: int|
            0 <= j < old(lights).lights@.len() ==> processed_entry(
                old(lights).lights@[j],
                #[trigger] final(lights).lights@[j],
                scene@,
            ),
        // Each present light's device buffer holds its matrix bytes.
        forall|j: int|
            0 <= j < final(lights).lights@.len() && scene_has(
                scene@,
                (#[trigger] final(lights).lights@[j]).id,
            ) ==> {
                let l = final(lights).lights@[j].light;
                final(device).bufs()[l.bindings.view_proj.unwrap().buffer as int].data
                    == words_le_bytes(l.view_proj.cols())
            },
        // A buffer created this frame takes an identity at or past the old
        // device end.
        forall|j: int|
            0 <= j < old(lights).lights@.len() && scene_has(
                scene@,
                (#[trigger] old(lights).lights@[j]).id,
            ) ==> {
                let o = old(lights).lights@[j].light;
                let n = final(lights).lights@[j].light;
                &&& (o.staging_buffer is None ==> n.staging_buffer.unwrap() >= old(
                    device,
                ).bufs().len())
                &&& (o.bindings.view_proj is None ==> n.bindings.view_proj.unwrap().buffer >= old(
                    device,
                ).bufs().len())
            },
        // A buffer owned by no light's staging and by no present light's
        // view-projection binding is untouched.
        final(device).bufs().len() >= old(device).bufs().len(),
        forall|id: int|
            0 <= id < old(device).bufs().len() && (forall|j: int|
                0 <= j < final(lights).lights@.len() ==> {
                    let n = (#[trigger] final(lights).lights@[j]).light;
                    &&& n.staging_buffer != Some(id as usize)
                    &&& (scene_has(scene@, final(lights).lights@[j].id)
                        ==> n.bindings.view_proj.unwrap().buffer != id as usize)
                }) ==> final(device).bufs()[id] == old(device).bufs()[id],
{
    node.prepare(lights, scene, device);
    proof {
        crate::gpu::lemma_wf_views(*device);
        assert forall|k: int|
            0 <= k < node.command_queue.commands@.len() implies command_valid(
            device.bufs(),
            #[trigger] node.command_queue.commands@[k],
        ) by {}
        crate::gpu::lemma_commands_valid_from_pointwise(
            device.bufs(),
            node.command_queue.commands@,
        );
    }
    let ghost mid_bufs = device.bufs();
    let ghost es = lights.lights@;
    node.update(device);
    proof {
        lemma_apply_upload_cmds(es, scene@, mid_bufs);
        assert(device.bufs() =~= crate::gpu::apply_commands(
            mid_bufs,
            spec_upload_cmds(es, scene@),
        ));
        assert forall|id: int|
            0 <= id < old(device).bufs().len() && (forall|j: int|
                0 <= j < lights.lights@.len() ==> {
                    let n = (#[trigger] lights.lights@[j]).light;
                    &&& n.staging_buffer != Some(id as usize)
                    &&& (scene_has(scene@, lights.lights@[j].id)
                        ==> n.bindings.view_proj.unwrap().buffer != id as usize)
                }) implies device.bufs()[id] == old(device).bufs()[id] by {
            assert(mid_bufs[id] == old(device).bufs()[id]);
            assert forall|j: int|
                0 <= j < es.len() && scene_has(scene@, (#[trigger] es[j]).id)
                implies es[j].light.bindings.view_proj.unwrap().buffer != id by {}
            assert(device.bufs()[id] == mid_bufs[id]);
        }
        assert(crate::gpu::same_shape(mid_bufs, device.bufs()));
        assert forall|j: int| 0 <= j < lights.lights@.len() implies entry_gpu_ok(
            (#[trigger] lights.lights@[j]).light,
            device.bufs(),
        ) by {
            assert(entry_gpu_ok(lights.lights@[j].light, mid_bufs));
            match lights.lights@[j].light.staging_buffer {
                Some(s) => {
                    assert(device.bufs()[s as int].info == mid_bufs[s as int].info);
                },
                None => {
                },
            }
            match lights.lights@[j].light.bindings.view_proj {
                Some(bb) => {
                    assert(device.bufs()[bb.buffer as int].info == mid_bufs[bb.buffer as int].info);
                },
                None => {
                },
            }
        }
    }
}

/// The ownership discipline over the retired lights awaiting release:
/// buffers live and pairwise distinct, both among themselves and from every
/// registered light's.
pub open spec fn retired_gpu_wf(s: ShadowLights, bufs: Seq<BufView>) -> bool {
    &&& forall|j: int| 0 <= j < s.retired@.len() ==> entry_gpu_ok(#[trigger] s.retired@[j], bufs)
    &&& forall|j1: int, j2: int|
        0 <= j1 < s.retired@.len() && 0 <= j2 < s.retired@.len() && j1 != j2
            ==> distinct_light_bufs(#[trigger] s.retired@[j1], #[trigger] s.retired@[j2])
    &&& forall|j1: int, j2: int|
        0 <= j1 < s.retired@.len() && 0 <= j2 < s.lights@.len() ==> distinct_light_bufs(
            #[trigger] s.retired@[j1],
            (#[trigger] s.lights@[j2]).light,
        )
}

/// Destroys the buffers of every retired light and empties the retired
/// list. A light's GPU release is deferred to here: the queue must have been
/// executed, so no queued copy can still reference a retired buffer.
pub fn release_retired_lights(
    lights: &mut ShadowLights,
    device: &mut RenderResources,
    queue: &CommandQueue,
)
    requires
        old(device).wf(),
        queue.commands@.len() == 0,
        retired_gpu_wf(*old(lights), old(device).bufs()),
    ensures
        final(device).wf(),
        final(device).texs() == old(device).texs(),
        final(device).bufs().len() == old(device).bufs().len(),
        final(lights).retired@.len() == 0,
        final(lights).lights@ == old(lights).lights@,
        final(lights).capacity == old(lights).capacity,
        // Every retired buffer is released.
        forall|j: int|
            0 <= j < old(lights).retired@.len() ==> {
                let l = #[trigger] old(lights).retired@[j];
                &&& (l.staging_buffer is Some ==> final(device).bufs()[l.staging_buffer.unwrap() as int]
                    == (BufView { alive: false, ..old(device).bufs()[l.staging_buffer.unwrap() as int] }))
                &&& (l.bindings.view_proj is Some ==> final(device).bufs()[
                    l.bindings.view_proj.unwrap().buffer as int
                ] == (BufView {
                    alive: false,
                    ..old(device).bufs()[l.bindings.view_proj.unwrap().buffer as int]
                }))
            },
        // Every other buffer is untouched.
        forall|id: int|
            0 <= id < old(device).bufs().len() && (forall|j: int|
                0 <= j < old(lights).retired@.len() ==> {
                    let l = #[trigger] old(lights).retired@[j];
                    &&& l.staging_buffer != Some(id as usize)
                    &&& (l.bindings.view_proj is Some ==> l.bindings.view_proj.unwrap().buffer
                        != id as usize)
                }) ==> final(device).bufs()[id] == old(device).bufs()[id],
{
    let ghost orig = lights.retired@;
    let ghost d0 = device.bufs();
    while lights.retired.len() > 0
        invariant
            orig == old(lights).retired@,
            d0 == old(device).bufs(),
            retired_gpu_wf(*old(lights), d0),
            forall|j1: int, j2: int|
                0 <= j1 < orig.len() && 0 <= j2 < orig.len() && j1 != j2 ==> distinct_light_bufs(
                    #[trigger] orig[j1],
                    #[trigger] orig[j2],
                ),
            lights.retired@.len() <= orig.len(),
            lights.retired@ =~= orig.take(lights.retired@.len() as int),
            lights.lights@ == old(lights).lights@,
            lights.capacity == old(lights).capacity,
            device.wf(),
            device.texs() == old(device).texs(),
            device.bufs().len() == d0.len(),
            // still-retired lights' buffers are untouched so far
            forall|j: int|
                0 <= j < lights.retired@.len() ==> entry_gpu_ok(
                    #[trigger] lights.retired@[j],
                    device.bufs(),
                ),
            forall|j1: int, j2: int|
                0 <= j1 < lights.retired@.len() && 0 <= j2 < lights.retired@.len() && j1 != j2
                    ==> distinct_light_bufs(
                    #[trigger] lights.retired@[j1],
                    #[trigger] lights.retired@[j2],
                ),
            // released lights' buffers are dead
            forall|j: int|
                lights.retired@.len() <= j < orig.len() ==> {
                    let l = #[trigger] orig[j];
                    &&& (l.staging_buffer is Some ==> device.bufs()[l.staging_buffer.unwrap() as int]
                        == (BufView { alive: false, ..d0[l.staging_buffer.unwrap() as int] }))
                    &&& (l.bindings.view_proj is Some ==> device.bufs()[
                        l.bindings.view_proj.unwrap().buffer as int
                    ] == (BufView {
                        alive: false,
                        ..d0[l.bindings.view_proj.unwrap().buffer as int]
                    }))
                },
            // everything else untouched
            forall|id: int|
                0 <= id < d0.len() && (forall|j: int|
                    lights.retired@.len() <= j < orig.len() ==> {
                        let l = #[trigger] orig[j];
                        &&& l.staging_buffer != Some(id as usize)
                        &&& (l.bindings.view_proj is Some
                            ==> l.bindings.view_proj.unwrap().buffer != id as usize)
                    }) ==> device.bufs()[id] == d0[id],
        decreases lights.retired@.len(),
    {
        let ghost pre_retired = lights.retired@;
        let ghost pre_bufs = device.bufs();
        let l = match lights.retired.pop() {
            Some(l) => l,
            None => {
                proof {
                    assert(false);
                }
                return ;
            },
        };
        let ghost m = pre_retired.len() - 1;
        proof {
            assert(pre_retired =~= orig.take(pre_retired.len() as int));
            assert(orig.take(pre_retired.len() as int)[m] == orig[m]);
            assert(l == pre_retired.last());
            assert(l == orig[m]);
            assert(lights.retired@ =~= pre_retired.drop_last());
            assert forall|i: int| 0 <= i < m implies pre_retired.drop_last()[i] == orig[i] by {
                assert(orig.take(pre_retired.len() as int)[i] == orig[i]);
            }
            assert(lights.retired@ =~= orig.take(lights.retired@.len() as int));
            assert(entry_gpu_ok(l, pre_bufs));
            // the buffers of the light being released are still as the
            // function found them: every light released so far owned others
            assert forall|j: int|
                pre_retired.len() <= j < orig.len() implies {
                let lr = #[trigger] orig[j];
                &&& lr.staging_buffer != l.staging_buffer || l.staging_buffer is None
                &&& (lr.bindings.view_proj is Some && l.staging_buffer is Some
                    ==> lr.bindings.view_proj.unwrap().buffer != l.staging_buffer.unwrap())
                &&& (lr.staging_buffer is Some && l.bindings.view_proj is Some
                    ==> lr.staging_buffer.unwrap() != l.bindings.view_proj.unwrap().buffer)
                &&& (lr.bindings.view_proj is Some && l.bindings.view_proj is Some
                    ==> lr.bindings.view_proj.unwrap().buffer
                    != l.bindings.view_proj.unwrap().buffer)
            } by {
                assert(distinct_light_bufs(orig[j], orig[m]));
                assert(distinct_light_bufs(orig[m], orig[j]));
            }
            match l.staging_buffer {
                Some(s) => {
                    assert(pre_bufs[s as int] == d0[s as int]);
                },
                None => {
                },
            }
            match l.bindings.view_proj {
                Some(bb) => {
                    assert(pre_bufs[bb.buffer as int] == d0[bb.buffer as int]);
                },
                None => {
                },
            }
        }
        match l.staging_buffer {
            Some(s) => {
                device.destroy_buffer(s);
            },
            None => {
            },
        }
        match l.bindings.view_proj {
            Some(bb) => {
                device.destroy_buffer(bb.buffer);
            },
            None => {
            },
        }
        proof {
            // the just-released light's buffers are dead, everything this
            // iteration left alone keeps its prior state
            match l.staging_buffer {
                Some(s) => {
                    assert(device.bufs()[s as int] == (BufView {
                        alive: false,
                        ..d0[s as int]
                    }));
                },
                None => {
                },
            }
            match l.bindings.view_proj {
                Some(bb) => {
                    assert(device.bufs()[bb.buffer as int] == (BufView {
                        alive: false,
                        ..d0[bb.buffer as int]
                    }));
                },
                None => {
                },
            }
            assert forall|j: int|
                lights.retired@.len() <= j < orig.len() implies {
                let lr = #[trigger] orig[j];
                &&& (lr.staging_buffer is Some ==> device.bufs()[lr.staging_buffer.unwrap() as int]
                    == (BufView { alive: false, ..d0[lr.staging_buffer.unwrap() as int] }))
                &&& (lr.bindings.view_proj is Some ==> device.bufs()[
                    lr.bindings.view_proj.unwrap().buffer as int
                ] == (BufView {
                    alive: false,
                    ..d0[lr.bindings.view_proj.unwrap().buffer as int]
                }))
            } by {
                if j != m {
                    assert(old(lights).retired@[j] == orig[j]);
                    assert(entry_gpu_ok(orig[j], d0));
                    assert(distinct_light_bufs(orig[j], orig[m]));
                    assert(distinct_light_bufs(orig[m], orig[j]));
                    match orig[j].staging_buffer {
                        Some(s2) => {
                            assert(device.bufs()[s2 as int] == pre_bufs[s2 as int]);
                        },
                        None => {
                        },
                    }
                    match orig[j].bindings.view_proj {
                        Some(bb2) => {
                            assert(device.bufs()[bb2.buffer as int] == pre_bufs[bb2.buffer as int]);
                        },
                        None => {
                        },
                    }
                }
            }
            assert forall|j: int|
                0 <= j < lights.retired@.len() implies entry_gpu_ok(
                #[trigger] lights.retired@[j],
                device.bufs(),
            ) by {
                assert(lights.retired@[j] == pre_retired[j]);
                assert(distinct_light_bufs(pre_retired[j], pre_retired[m]));
                assert(entry_gpu_ok(pre_retired[j], pre_bufs));
                match pre_retired[j].staging_buffer {
                    Some(s2) => {
                        assert(device.bufs()[s2 as int] == pre_bufs[s2 as int]);
                    },
                    None => {
                    },
                }
                match pre_retired[j].bindings.view_proj {
                    Some(bb2) => {
                        assert(device.bufs()[bb2.buffer as int] == pre_bufs[bb2.buffer as int]);
                    },
                    None => {
                    },
                }
            }
        }
    }
    proof {
        assert(lights.retired@ =~= Seq::<ShadowLight>::empty());
    }
}

} // verus!
