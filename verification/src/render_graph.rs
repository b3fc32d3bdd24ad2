use vstd::prelude::*;
use crate::gpu::{Extent3d, TextureDescriptor, TextureDimension, TextureFormat, TextureUsage};

verus! {

// The render-graph wiring this pipeline asks its host for: its nodes, the
// ordering edges that keep the stages in their required order relative to
// the main pass, the shared depth texture, and the pipelines to create. The
// host's graph scheduler performs the wiring; this plan is what it must do.

/// The graph nodes this pipeline takes part in.
#[derive(Clone, Copy, Debug, PartialEq, Eq, Structural)]
pub enum GraphNode {
    /// Computes and uploads per-light matrices.
    DirectionalLightsNode,
    /// Renders the depth slices and fills the shared array texture.
    ShadowPassNode,
    /// Owns the shared depth texture array.
    DirectionalLightDepth,
    /// Packs the all-lights uniform buffer.
    ShadowLightsBindNode,
    /// The host's main lighting pass, which consumes texture and uniforms.
    MainPass,
}

/// One texture handed from a node's output slot to another's input slot.
#[derive(Clone, Copy, Debug, PartialEq, Eq, Structural)]
pub struct SlotEdge {
    pub from: GraphNode,
    pub to: GraphNode,
}

/// The depth-only pipeline the shadow pass renders with: front faces culled,
/// no fragment stage.
#[derive(Clone, Copy, Debug, PartialEq, Eq, Structural)]
pub struct ShadowPipelinePlan {
    pub cull_front: bool,
    pub has_fragment_stage: bool,
}

/// The shadow-aware main-pass pipeline, either replacing the host's default
/// or published under its own handle.
#[derive(Clone, Copy, Debug, PartialEq, Eq, Structural)]
pub struct PbrPipelinePlan {
    pub replaces_default: bool,
}

/// Everything the host must create and wire for the shadow pass.
#[derive(Debug, PartialEq, Eq)]
pub struct RenderGraphPlan {
    pub shadow_pipeline: ShadowPipelinePlan,
    pub pbr_pipeline: Option<PbrPipelinePlan>,
    /// The shared depth texture array: resolution by resolution, one layer
    /// per light slot, allocated once at configuration time.
    pub depth_texture: TextureDescriptor,
    pub nodes: Vec<GraphNode>,
    pub node_edges: Vec<(GraphNode, GraphNode)>,
    pub slot_edges: Vec<SlotEdge>,
}

/// A configuration the pipeline rejects at construction.
#[derive(Clone, Copy, Debug, PartialEq, Eq, Structural)]
pub enum ConfigError {
    InvalidResolution,
    InvalidCapacity,
}

/// The largest shadow-map resolution accepted: a common GPU limit on
/// texture dimensions.
pub const MAX_RESOLUTION: u32 = 16384;

/// The largest light capacity accepted: a common GPU limit on texture array
/// layers.
pub const MAX_LIGHT_CAPACITY: u32 = 2048;

/// A resolution the configuration accepts.
pub open spec fn spec_resolution_ok(resolution: u32) -> bool {
    1 <= resolution <= MAX_RESOLUTION
}

/// A light capacity the configuration accepts.
pub open spec fn spec_capacity_ok(capacity: u32) -> bool {
    1 <= capacity <= MAX_LIGHT_CAPACITY
}

/// The shared depth array's descriptor for a configuration.
pub open spec fn spec_depth_texture_desc(resolution: u32, capacity: u32) -> TextureDescriptor {
    TextureDescriptor {
        size: Extent3d { width: resolution, height: resolution, depth: capacity },
        sample_count: 1,
        mip_level_count: 1,
        dimension: TextureDimension::D2,
        format: TextureFormat::Depth32Float,
        usage: TextureUsage {
            output_attachment: true,
            sampled: true,
            copy_src: false,
            copy_dst: true,
        },
    }
}

/// The ordering edges for a configuration: the lights node feeds the shadow
/// pass; when the plan connects to the main pass, both the bind node and the
/// shadow pass must run before it.
pub open spec fn spec_node_edges(connect_to_main_pass: bool) -> Seq<(GraphNode, GraphNode)> {
    seq![(GraphNode::DirectionalLightsNode, GraphNode::ShadowPassNode)] + if connect_to_main_pass {
        seq![
            (GraphNode::ShadowLightsBindNode, GraphNode::MainPass),
            (GraphNode::ShadowPassNode, GraphNode::MainPass),
        ]
    } else {
        Seq::<(GraphNode, GraphNode)>::empty()
    }
}

/// Builds the render-graph plan for a configuration: the pipelines to
/// create, the depth array texture sized resolution by resolution by
/// capacity, the four nodes, the depth texture's slot edge into the shadow
/// pass, and the ordering edges. Rejects a zero or oversized resolution or
/// capacity.
pub fn add_render_graph(plugin: &crate::ShadowPlugin) -> (r: Result<RenderGraphPlan, ConfigError>)
    ensures
        !spec_resolution_ok(plugin.directional_light_resolution) ==> r == Err::<
            RenderGraphPlan,
            ConfigError,
        >(ConfigError::InvalidResolution),
        spec_resolution_ok(plugin.directional_light_resolution) && !spec_capacity_ok(
            plugin.max_directional_lights,
        ) ==> r == Err::<RenderGraphPlan, ConfigError>(ConfigError::InvalidCapacity),
        spec_resolution_ok(plugin.directional_light_resolution) && spec_capacity_ok(
            plugin.max_directional_lights,
        ) ==> r is Ok && {
            let p = r.unwrap();
            &&& p.shadow_pipeline == (ShadowPipelinePlan {
                cull_front: true,
                has_fragment_stage: false,
            })
            &&& p.pbr_pipeline == (if plugin.create_pbr_pipeline {
                Some(PbrPipelinePlan { replaces_default: plugin.replace_pbr_pipeline })
            } else {
                None::<PbrPipelinePlan>
            })
            &&& p.depth_texture == spec_depth_texture_desc(
                plugin.directional_light_resolution,
                plugin.max_directional_lights,
            )
            &&& p.nodes@ == seq![
                GraphNode::DirectionalLightsNode,
                GraphNode::ShadowPassNode,
                GraphNode::DirectionalLightDepth,
                GraphNode::ShadowLightsBindNode,
            ]
            &&& p.node_edges@ == spec_node_edges(plugin.connect_to_main_pass)
            &&& p.slot_edges@ == seq![
                SlotEdge { from: GraphNode::DirectionalLightDepth, to: GraphNode::ShadowPassNode },
            ]
        },
{
    if plugin.directional_light_resolution == 0 || plugin.directional_light_resolution
        > MAX_RESOLUTION {
        return Err(ConfigError::InvalidResolution);
    }
    if plugin.max_directional_lights == 0 || plugin.max_directional_lights > MAX_LIGHT_CAPACITY {
        return Err(ConfigError::InvalidCapacity);
    }

    let mut nodes: Vec<GraphNode> = Vec::new();
    nodes.push(GraphNode::DirectionalLightsNode);
    nodes.push(GraphNode::ShadowPassNode);
    nodes.push(GraphNode::DirectionalLightDepth);
    nodes.push(GraphNode::ShadowLightsBindNode);

    let mut node_edges: Vec<(GraphNode, GraphNode)> = Vec::new();
    node_edges.push((GraphNode::DirectionalLightsNode, GraphNode::ShadowPassNode));
    if plugin.connect_to_main_pass {
        node_edges.push((GraphNode::ShadowLightsBindNode, GraphNode::MainPass));
        node_edges.push((GraphNode::ShadowPassNode, GraphNode::MainPass));
    }

    let mut slot_edges: Vec<SlotEdge> = Vec::new();
    slot_edges.push(SlotEdge { from: GraphNode::DirectionalLightDepth, to: GraphNode::ShadowPassNode });

    let plan = RenderGraphPlan {
        shadow_pipeline: ShadowPipelinePlan { cull_front: true, has_fragment_stage: false },
        pbr_pipeline: if plugin.create_pbr_pipeline {
            Some(PbrPipelinePlan { replaces_default: plugin.replace_pbr_pipeline })
        } else {
            None
        },
        depth_texture: TextureDescriptor {
            size: Extent3d {
                width: plugin.directional_light_resolution,
                height: plugin.directional_light_resolution,
                depth: plugin.max_directional_lights,
            },
            sample_count: 1,
            mip_level_count: 1,
            dimension: TextureDimension::D2,
            format: TextureFormat::Depth32Float,
            usage: TextureUsage {
                output_attachment: true,
                sampled: true,
                copy_src: false,
                copy_dst: true,
            },
        },
        nodes,
        node_edges,
        slot_edges,
    };
    proof {
        assert(plan.nodes@ =~= seq![
            GraphNode::DirectionalLightsNode,
            GraphNode::ShadowPassNode,
            GraphNode::DirectionalLightDepth,
            GraphNode::ShadowLightsBindNode,
        ]);
        assert(plan.node_edges@ =~= spec_node_edges(plugin.connect_to_main_pass));
        assert(plan.slot_edges@ =~= seq![
            SlotEdge { from: GraphNode::DirectionalLightDepth, to: GraphNode::ShadowPassNode },
        ]);
    }
    Ok(plan)
}

} // verus!
