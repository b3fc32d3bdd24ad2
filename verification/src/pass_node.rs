use vstd::prelude::*;
use crate::draw::{BufferBinding, Draw, PipelineHandle, PipelineSpecialization, RenderCommand,
    RenderResourceBindings, SamplerId, TextureId};
use crate::fbits::F32_ONE_BITS;
use crate::gpu::{Extent3d, RenderResources, TextureDescriptor, TextureDimension, TextureFormat,
    TextureUsage};
use crate::registry::{LightEntry, ShadowLights};
use crate::scene::{MeshInfo, Renderable};

verus! {

// The draw command recorder and the shadow pass executor. The recorder
// rebuilds each light's command list every frame from the shadow-casting
// renderables; a light records nothing until its view-projection buffer
// exists, so a light added this frame draws from the next frame on. The
// executor renders each slotted light's list into its depth slice and copies
// every slice into the shared array texture at its slot.

/// How the depth pipeline is specialized to one mesh: its topology and
/// vertex layout, single-sampled, with the view-projection and transform
/// bound dynamically.
pub open spec fn spec_specialization(m: MeshInfo) -> PipelineSpecialization {
    PipelineSpecialization {
        topology: m.topology,
        vertex_layout: m.vertex_layout,
        sample_count: 1,
        dynamic_view_proj: true,
        dynamic_transform: true,
    }
}

/// The commands one mesh contributes: the specialized pipeline, the light's
/// bindings, the mesh's index and vertex buffers where present, and an
/// indexed or plain draw sized to the mesh.
pub open spec fn spec_mesh_commands(
    pipeline: PipelineHandle,
    binding: BufferBinding,
    m: MeshInfo,
) -> Seq<RenderCommand> {
    let head = seq![
        RenderCommand::SetPipeline { pipeline, specialization: spec_specialization(m) },
        RenderCommand::SetBindGroup {
            index: 0,
            buffer: binding.buffer,
            dynamic_index: binding.dynamic_index,
        },
    ];
    let with_ib = if m.index_buffer is Some && m.indices is Some {
        head.push(
            RenderCommand::SetIndexBuffer {
                buffer: m.index_buffer.unwrap(),
                offset: 0,
                index_format: m.indices.unwrap().format,
            },
        )
    } else {
        head
    };
    let with_vb = if m.vertex_buffer is Some {
        with_ib.push(
            RenderCommand::SetVertexBuffer { slot: 0, buffer: m.vertex_buffer.unwrap(), offset: 0 },
        )
    } else {
        with_ib
    };
    with_vb.push(
        match m.indices {
            Some(ix) => RenderCommand::DrawIndexed {
                index_start: 0,
                index_end: ix.count,
                base_vertex: 0,
                instance_start: 0,
                instance_end: 1,
            },
            None => RenderCommand::Draw {
                vertex_start: 0,
                vertex_end: m.vertex_count,
                instance_start: 0,
                instance_end: 1,
            },
        },
    )
}

/// A light's whole command list: each shadow-casting renderable's commands,
/// in scene order; renderables whose mesh has not loaded are skipped.
pub open spec fn spec_light_commands(
    pipeline: PipelineHandle,
    binding: BufferBinding,
    rs: Seq<Renderable>,
) -> Seq<RenderCommand>
    decreases rs.len(),
{
    if rs.len() == 0 {
        Seq::empty()
    } else {
        spec_light_commands(pipeline, binding, rs.drop_last()) + if rs.last().spec_casts_shadows() {
            spec_mesh_commands(pipeline, binding, rs.last().mesh.unwrap())
        } else {
            Seq::<RenderCommand>::empty()
        }
    }
}

/// Appends one mesh's commands to a light's list.
pub fn record_mesh_commands(
    draw: &mut Draw,
    pipeline: PipelineHandle,
    binding: BufferBinding,
    m: MeshInfo,
)
    ensures
        final(draw).render_commands@ == old(draw).render_commands@ + spec_mesh_commands(
            pipeline,
            binding,
            m,
        ),
{
    draw.render_commands.push(
        RenderCommand::SetPipeline {
            pipeline,
            specialization: PipelineSpecialization {
                topology: m.topology,
                vertex_layout: m.vertex_layout,
                sample_count: 1,
                dynamic_view_proj: true,
                dynamic_transform: true,
            },
        },
    );
    draw.render_commands.push(
        RenderCommand::SetBindGroup {
            index: 0,
            buffer: binding.buffer,
            dynamic_index: binding.dynamic_index,
        },
    );
    match (m.index_buffer, m.indices) {
        (Some(ib), Some(ix)) => {
            draw.render_commands.push(
                RenderCommand::SetIndexBuffer { buffer: ib, offset: 0, index_format: ix.format },
            );
        },
        _ => {
        },
    }
    match m.vertex_buffer {
        Some(vb) => {
            draw.render_commands.push(
                RenderCommand::SetVertexBuffer { slot: 0, buffer: vb, offset: 0 },
            );
        },
        None => {
        },
    }
    match m.indices {
        Some(ix) => {
            draw.render_commands.push(
                RenderCommand::DrawIndexed {
                    index_start: 0,
                    index_end: ix.count,
                    base_vertex: 0,
                    instance_start: 0,
                    instance_end: 1,
                },
            );
        },
        None => {
            draw.render_commands.push(
                RenderCommand::Draw {
                    vertex_start: 0,
                    vertex_end: m.vertex_count,
                    instance_start: 0,
                    instance_end: 1,
                },
            );
        },
    }
    proof {
        assert(draw.render_commands@ =~= old(draw).render_commands@ + spec_mesh_commands(
            pipeline,
            binding,
            m,
        ));
    }
}

/// Rebuilds a light's whole command list from the scene.
pub fn record_light_commands(
    draw: &mut Draw,
    pipeline: PipelineHandle,
    binding: BufferBinding,
    renderables: &Vec<Renderable>,
)
    ensures
        final(draw).render_commands@ == spec_light_commands(pipeline, binding, renderables@),
{
    draw.render_commands = Vec::new();
    let mut i: usize = 0;
    while i < renderables.len()
        invariant
            i <= renderables@.len(),
            draw.render_commands@ == spec_light_commands(
                pipeline,
                binding,
                renderables@.take(i as int),
            ),
        decreases renderables@.len() - i,
    {
        let r = renderables[i];
        if r.casts_shadows() {
            match r.mesh {
                Some(m) => {
                    record_mesh_commands(draw, pipeline, binding, m);
                },
                None => {
                },
            }
        }
        proof {
            let t = renderables@.take(i + 1 as int);
            assert(t.drop_last() =~= renderables@.take(i as int));
            assert(t.last() == renderables@[i as int]);
        }
        i = i + 1;
    }
    proof {
        assert(renderables@.take(renderables@.len() as int) =~= renderables@);
    }
}

/// Rebuilds every light's draw-command list: for each registered light whose
/// view-projection binding already exists, one block of commands per
/// shadow-casting renderable; a light still waiting for its binding records
/// nothing this frame.
pub fn shadow_pass_system(
    pipeline: PipelineHandle,
    lights: &mut ShadowLights,
    renderables: &Vec<Renderable>,
)
    requires
        old(lights).wf(),
    ensures
        final(lights).wf(),
        final(lights).capacity == old(lights).capacity,
        final(lights).retired@ == old(lights).retired@,
        final(lights).lights@.len() == old(lights).lights@.len(),
        forall|j: int|
            0 <= j < old(lights).lights@.len() ==> {
                let o = old(lights).lights@[j];
                let n = #[trigger] final(lights).lights@[j];
                &&& n.id == o.id
                &&& n.light.staging_buffer == o.light.staging_buffer
                &&& n.light.texture_index == o.light.texture_index
                &&& n.light.pos == o.light.pos
                &&& n.light.view_proj == o.light.view_proj
                &&& n.light.bindings == o.light.bindings
                &&& n.light.draw.render_commands@ == (match o.light.bindings.view_proj {
                    Some(bb) => spec_light_commands(pipeline, bb, renderables@),
                    None => Seq::<RenderCommand>::empty(),
                })
            },
{
    let ghost orig = lights.lights@;
    let mut out: Vec<LightEntry> = Vec::new();
    while lights.lights.len() > 0
        invariant
            out@.len() + lights.lights@.len() == orig.len(),
            lights.lights@ =~= orig.skip(out@.len() as int),
            lights.capacity == old(lights).capacity,
            lights.retired@ == old(lights).retired@,
            forall|j: int|
                0 <= j < out@.len() ==> {
                    let o = orig[j];
                    let n = #[trigger] out@[j];
                    &&& n.id == o.id
                    &&& n.light.staging_buffer == o.light.staging_buffer
                    &&& n.light.texture_index == o.light.texture_index
                    &&& n.light.pos == o.light.pos
                    &&& n.light.view_proj == o.light.view_proj
                    &&& n.light.bindings == o.light.bindings
                    &&& n.light.draw.render_commands@ == (match o.light.bindings.view_proj {
                        Some(bb) => spec_light_commands(pipeline, bb, renderables@),
                        None => Seq::<RenderCommand>::empty(),
                    })
                },
        decreases lights.lights@.len(),
    {
        let mut e = lights.lights.remove(0);
        proof {
            assert(e == orig[out@.len() as int]);
        }
        match e.light.bindings.view_proj {
            Some(bb) => {
                record_light_commands(&mut e.light.draw, pipeline, bb, renderables);
            },
            None => {
                e.light.draw.render_commands = Vec::new();
            },
        }
        out.push(e);
        proof {
            assert(lights.lights@ =~= orig.skip(out@.len() as int));
        }
    }
    lights.lights = out;
    proof {
        assert forall|i2: int, j2: int|
            0 <= i2 < j2 < lights.lights@.len() implies lights.lights@[i2].id
            != lights.lights@[j2].id by {
            assert(lights.lights@[i2].id == orig[i2].id);
            assert(lights.lights@[j2].id == orig[j2].id);
        }
    }
}

/// What a render-graph node consumes through a slot.
#[derive(Clone, Copy, Debug, PartialEq, Eq, Structural)]
pub enum RenderResourceType {
    Buffer,
    Texture,
    Sampler,
}

#[derive(Clone, Copy, Debug, PartialEq, Eq, Structural)]
pub struct ResourceSlotInfo {
    pub resource_type: RenderResourceType,
}

/// The descriptor of one depth slice the executor renders into.
pub open spec fn spec_slice_desc(extent: Extent3d) -> TextureDescriptor {
    TextureDescriptor {
        size: extent,
        sample_count: 1,
        mip_level_count: 1,
        dimension: TextureDimension::D2,
        format: TextureFormat::Depth32Float,
        usage: TextureUsage {
            output_attachment: true,
            sampled: false,
            copy_src: true,
            copy_dst: false,
        },
    }
}

/// The shadow pass executor: renders each slotted light's depth slice and
/// copies every slice into the shared array texture.
#[derive(Debug)]
pub struct ShadowPassNode {
    /// How many depth slices the pass keeps: the registry capacity.
    pub num_textures: u32,
    /// The per-slot depth slice textures, created lazily up to
    /// `num_textures`.
    pub textures: Vec<TextureId>,
    /// The size of one slice: the configured resolution, one layer deep.
    pub extent: Extent3d,
}

impl ShadowPassNode {
    pub fn new(textures: u32, size: u32) -> (r: Self)
        ensures
            r.num_textures == textures,
            r.textures@.len() == 0,
            r.extent == (Extent3d { width: size, height: size, depth: 1 }),
    {
        ShadowPassNode {
            num_textures: textures,
            textures: Vec::new(),
            extent: Extent3d::new(size, size, 1),
        }
    }

    /// The one slot this node consumes: the shared depth texture array.
    pub fn input(&self) -> (r: Vec<ResourceSlotInfo>)
        ensures
            r@ == seq![ResourceSlotInfo { resource_type: RenderResourceType::Texture }],
    {
        let mut v: Vec<ResourceSlotInfo> = Vec::new();
        v.push(ResourceSlotInfo { resource_type: RenderResourceType::Texture });
        proof {
            assert(v@ =~= seq![ResourceSlotInfo { resource_type: RenderResourceType::Texture }]);
        }
        v
    }

    /// Publishes the depth array texture and its sampler under the bindings
    /// the main pass samples, once the host has created them.
    pub fn prepare(
        &self,
        bindings: &mut RenderResourceBindings,
        depth_asset: Option<(TextureId, SamplerId)>,
    )
        ensures
            match depth_asset {
                Some((t, s)) => *final(bindings) == (RenderResourceBindings {
                    directional_light_texture: Some(t),
                    directional_light_sampler: Some(s),
                    ..*old(bindings)
                }),
                None => *final(bindings) == *old(bindings),
            },
    {
        match depth_asset {
            Some((t, s)) => {
                bindings.directional_light_texture = Some(t);
                bindings.directional_light_sampler = Some(s);
            },
            None => {
            },
        }
    }

    /// The node's slice textures all exist on the device with the slice
    /// descriptor, one layer each, pairwise distinct, and never more than
    /// the slot count.
    pub open spec fn slices_wf(self, device: RenderResources) -> bool {
        &&& self.textures@.len() <= self.num_textures
        &&& self.extent.depth == 1
        &&& forall|i: int|
            0 <= i < self.textures@.len() ==> (#[trigger] self.textures@[i]) < device.texs().len()
                && device.texs()[self.textures@[i] as int].0 == spec_slice_desc(self.extent)
        &&& forall|i: int, j: int|
            0 <= i < j < self.textures@.len() ==> self.textures@[i] != self.textures@[j]
    }

    /// Renders every slotted light: creates any slice texture still missing,
    /// opens a depth-only pass per active light against its slot's slice —
    /// clearing depth to one, no stencil — replaying that light's command
    /// list verbatim, then copies every slice into the shared array texture
    /// at its slot, whether a light rendered into it this frame or not.
    pub fn update(
        &mut self,
        lights: &ShadowLights,
        device: &mut RenderResources,
        input_texture: Option<TextureId>,
    )
        requires
            lights.wf(),
            lights.slots_dense(),
            lights.capacity <= old(self).num_textures,
            old(self).slices_wf(*old(device)),
            old(device).wf(),
            match input_texture {
                Some(arr) => arr < old(device).texs().len() && old(device).texs()[
                    arr as int
                ].0.usage.copy_dst
                    && old(device).texs()[arr as int].1.len() >= old(self).num_textures,
                None => true,
            },
        ensures
            final(device).wf(),
            final(self).slices_wf(*final(device)),
            final(self).num_textures == old(self).num_textures,
            final(self).extent == old(self).extent,
            final(device).bufs() == old(device).bufs(),
            // Slices are topped up to the slot count, keeping old identities.
            final(self).textures@.len() == old(self).num_textures,
            forall|i: int|
                0 <= i < old(self).textures@.len() ==> final(self).textures@[i]
                    == old(self).textures@[i],
            // Each active light's slice holds its pass: depth cleared to one
            // and its command list replayed verbatim.
            forall|j: int|
                0 <= j < lights.active_count() ==> final(device).texs()[(#[trigger]
                final(self).textures@[j]) as int].1[0] == Some(
                    (F32_ONE_BITS, lights.lights@[j].light.draw.render_commands@),
                ),
            // Slices beyond the active lights keep what they held.
            forall|i: int|
                lights.active_count() <= i < old(self).num_textures ==> final(device).texs()[(
                #[trigger] final(self).textures@[i]) as int].1[0] == (if i < old(self).textures@.len() {
                    old(device).texs()[old(self).textures@[i] as int].1[0]
                } else {
                    None
                }),
            // Every slice is copied into the array at its slot; the array's
            // further layers and its descriptor stay as they were.
            match input_texture {
                Some(arr) => {
                    &&& forall|i: int|
                        0 <= i < old(self).num_textures ==> final(device).texs()[arr as int].1[i]
                            == final(device).texs()[(#[trigger] final(self).textures@[i]) as int].1[0]
                    &&& forall|i: int|
                        old(self).num_textures <= i < old(device).texs()[arr as int].1.len()
                            ==> final(device).texs()[arr as int].1[i] == old(device).texs()[
                            arr as int
                        ].1[i]
                    &&& final(device).texs()[arr as int].0 == old(device).texs()[arr as int].0
                },
                None => true,
            },
            // Every other texture is untouched.
            forall|t: int|
                0 <= t < old(device).texs().len() && (match input_texture {
                    Some(arr) => t != arr,
                    None => true,
                }) && (forall|i: int|
                    0 <= i < final(self).textures@.len() ==> (#[trigger]
                    final(self).textures@[i]) as int != t) ==> final(device).texs()[t]
                    == old(device).texs()[t],
    {
        let ghost t0 = device.texs();
        let ghost old_slices = self.textures@;
        // Top the slice textures up to the slot count.
        while self.textures.len() < self.num_textures as usize
            invariant
                lights.capacity <= self.num_textures,
                self.num_textures == old(self).num_textures,
                self.extent == old(self).extent,
                device.wf(),
                device.bufs() == old(device).bufs(),
                self.slices_wf(*device),
                old_slices.len() <= self.textures@.len(),
                forall|i: int| 0 <= i < old_slices.len() ==> self.textures@[i] == old_slices[i],
                device.texs().len() >= t0.len(),
                forall|t: int| 0 <= t < t0.len() ==> device.texs()[t] == t0[t],
                forall|i: int|
                    old_slices.len() <= i < self.textures@.len() ==> (#[trigger] self.textures@[i])
                        >= t0.len() && device.texs()[self.textures@[i] as int].1 =~= seq![
                        None::<(u32, Seq<RenderCommand>)>,
                    ],
            decreases self.num_textures - self.textures@.len(),
        {
            let id = device.create_texture(
                TextureDescriptor {
                    size: self.extent,
                    sample_count: 1,
                    mip_level_count: 1,
                    dimension: TextureDimension::D2,
                    format: TextureFormat::Depth32Float,
                    usage: TextureUsage {
                        output_attachment: true,
                        sampled: false,
                        copy_src: true,
                        copy_dst: false,
                    },
                },
            );
            proof {
                assert(Seq::new(
                    self.extent.depth as nat,
                    |i: int| None::<(u32, Seq<RenderCommand>)>,
                ) =~= seq![None::<(u32, Seq<RenderCommand>)>]);
            }
            self.textures.push(id);
        }
        let ghost slices = self.textures@;
        let ghost t1 = device.texs();
        // One depth-only pass per slotted light, replaying its commands.
        let n = if lights.lights.len() <= lights.capacity {
            lights.lights.len()
        } else {
            lights.capacity
        };
        let mut j: usize = 0;
        while j < n
            invariant
                j <= n,
                n == lights.active_count(),
                n <= lights.lights@.len(),
                n <= slices.len(),
                lights.wf(),
                self.num_textures == old(self).num_textures,
                self.extent == old(self).extent,
                self.textures@ == slices,
                device.wf(),
                device.bufs() == old(device).bufs(),
                self.slices_wf(*device),
                device.texs().len() == t1.len(),
                forall|t: int|
                    0 <= t < t1.len() && (forall|i: int|
                        0 <= i < j ==> (#[trigger] slices[i]) as int != t) ==> device.texs()[t]
                        == t1[t],
                forall|i: int|
                    0 <= i < j ==> device.texs()[(#[trigger] slices[i]) as int].1[0] == Some(
                        (F32_ONE_BITS, lights.lights@[i].light.draw.render_commands@),
                    ),
            decreases n - j,
        {
            let tex = self.textures[j];
            proof {
                assert(device.texs()[tex as int].0 == spec_slice_desc(self.extent));
                assert(device.textures@[tex as int].wf());
                assert(device.texs()[tex as int].1.len() == 1);
            }
            device.render_pass(
                tex,
                0,
                F32_ONE_BITS,
                &lights.lights[j].light.draw.render_commands,
            );
            proof {
                assert forall|i: int|
                    0 <= i < j + 1 implies device.texs()[(#[trigger] slices[i]) as int].1[0]
                    == Some((F32_ONE_BITS, lights.lights@[i].light.draw.render_commands@)) by {
                    if i < j {
                        assert(slices[i] != slices[j as int]);
                    }
                }
            }
            j = j + 1;
        }
        let ghost t2 = device.texs();
        // Copy every slice into the shared array texture at its slot.
        match input_texture {
            Some(arr) => {
                let mut i: usize = 0;
                while i < self.textures.len()
                    invariant
                        i <= self.textures@.len(),
                        self.textures@ == slices,
                        self.num_textures == old(self).num_textures,
                        self.extent == old(self).extent,
                        device.wf(),
                        device.bufs() == old(device).bufs(),
                        self.slices_wf(*device),
                        device.texs().len() == t2.len(),
                        arr < t2.len(),
                        t2[arr as int].0.usage.copy_dst,
                        t2[arr as int].1.len() >= self.textures@.len(),
                        device.texs()[arr as int].0 == t2[arr as int].0,
                        device.texs()[arr as int].1.len() == t2[arr as int].1.len(),
                        forall|t: int|
                            0 <= t < t2.len() && t != arr ==> device.texs()[t] == t2[t],
                        forall|k: int|
                            0 <= k < i ==> device.texs()[arr as int].1[k] == t2[(
                            #[trigger] slices[k]) as int].1[0],
                        forall|k: int|
                            i <= k < t2[arr as int].1.len() ==> device.texs()[arr as int].1[k]
                                == t2[arr as int].1[k],
                    decreases self.textures@.len() - i,
                {
                    let tex = self.textures[i];
                    proof {
                        assert(device.texs()[tex as int].0 == spec_slice_desc(self.extent));
                        assert(!spec_slice_desc(self.extent).usage.copy_dst);
                        assert(device.texs()[arr as int].0.usage.copy_dst);
                        assert(tex as int != arr as int);
                        assert(device.textures@[tex as int].wf());
                        assert(device.texs()[tex as int].1.len() == 1);
                    }
                    device.copy_texture_layer(tex, 0, arr, i);
                    i = i + 1;
                }
            },
            None => {
            },
        }
    }
}

} // verus!
