use vstd::prelude::*;
use crate::scene::{IndexFormat, PrimitiveTopology};

verus! {

// Identities of GPU objects. The model device hands them out densely, so an
// identity is an index into the device's tables.

pub type BufferId = usize;

pub type TextureId = usize;

pub type SamplerId = usize;

/// Stands for a pipeline descriptor held by the host's asset store.
pub type PipelineHandle = u64;

/// A binding of a buffer range, optionally at a dynamic uniform index.
#[derive(Clone, Copy, Debug, PartialEq, Eq, Structural)]
pub struct BufferBinding {
    pub buffer: BufferId,
    pub range_start: usize,
    pub range_end: usize,
    pub dynamic_index: Option<u32>,
}

/// The named render-resource bindings this pipeline reads and writes: the
/// per-light view-projection buffer, the packed all-lights uniform buffer,
/// and the shared depth texture array with its sampler.
#[derive(Clone, Copy, Debug, PartialEq, Eq, Structural)]
pub struct RenderResourceBindings {
    pub view_proj: Option<BufferBinding>,
    pub shadow_lights: Option<BufferBinding>,
    pub directional_light_texture: Option<TextureId>,
    pub directional_light_sampler: Option<SamplerId>,
}

impl RenderResourceBindings {
    pub open spec fn spec_default() -> RenderResourceBindings {
        RenderResourceBindings {
            view_proj: None,
            shadow_lights: None,
            directional_light_texture: None,
            directional_light_sampler: None,
        }
    }

    pub fn new() -> (r: RenderResourceBindings)
        ensures
            r == RenderResourceBindings::spec_default(),
    {
        RenderResourceBindings {
            view_proj: None,
            shadow_lights: None,
            directional_light_texture: None,
            directional_light_sampler: None,
        }
    }
}

impl Default for RenderResourceBindings {
    fn default() -> (r: Self)
        ensures
            r == RenderResourceBindings::spec_default(),
    {
        RenderResourceBindings::new()
    }
}

/// What the depth pipeline is specialized to for one mesh: its topology and
/// vertex layout, single-sampled, with the view-projection and transform
/// bound dynamically.
#[derive(Clone, Copy, Debug, PartialEq, Eq, Structural)]
pub struct PipelineSpecialization {
    pub topology: PrimitiveTopology,
    pub vertex_layout: u64,
    pub sample_count: u32,
    pub dynamic_view_proj: bool,
    pub dynamic_transform: bool,
}

/// One recorded draw command, replayed verbatim by the shadow pass.
#[derive(Clone, Copy, Debug, PartialEq, Eq, Structural)]
pub enum RenderCommand {
    SetPipeline { pipeline: PipelineHandle, specialization: PipelineSpecialization },
    SetBindGroup { index: u32, buffer: BufferId, dynamic_index: Option<u32> },
    SetVertexBuffer { slot: u32, buffer: BufferId, offset: usize },
    SetIndexBuffer { buffer: BufferId, offset: usize, index_format: IndexFormat },
    DrawIndexed {
        index_start: u32,
        index_end: u32,
        base_vertex: i32,
        instance_start: u32,
        instance_end: u32,
    },
    Draw { vertex_start: u32, vertex_end: u32, instance_start: u32, instance_end: u32 },
}

/// A light's ordered draw-command list, rebuilt every frame.
#[derive(Debug)]
pub struct Draw {
    pub render_commands: Vec<RenderCommand>,
}

impl Draw {
    pub fn new() -> (r: Draw)
        ensures
            r.render_commands@ == Seq::<RenderCommand>::empty(),
    {
        Draw { render_commands: Vec::new() }
    }
}

impl Default for Draw {
    fn default() -> (r: Self)
        ensures
            r.render_commands@ == Seq::<RenderCommand>::empty(),
    {
        Draw::new()
    }
}

/// Copies a command list, element for element.
pub fn copy_commands(src: &Vec<RenderCommand>) -> (r: Vec<RenderCommand>)
    ensures
        r@ == src@,
{
    let mut out: Vec<RenderCommand> = Vec::new();
    let mut i: usize = 0;
    while i < src.len()
        invariant
            i <= src.len(),
            out@ == src@.take(i as int),
        decreases src.len() - i,
    {
        out.push(src[i]);
        proof {
            assert(src@.take(i + 1 as int) =~= src@.take(i as int).push(src@[i as int]));
        }
        i = i + 1;
    }
    proof {
        assert(src@.take(src@.len() as int) =~= src@);
    }
    out
}

} // verus!
