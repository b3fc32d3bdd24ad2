use vstd::prelude::*;

pub mod bind_node;
pub mod bounds;
pub mod draw;
pub mod fbits;
pub mod frame;
pub mod glam_calls;
pub mod gpu;
pub mod light;
pub mod lights_node;
pub mod pass_node;
pub mod registry;
pub mod render_graph;
pub mod scene;

use bind_node::{ShadowLightsBindNode, ShadowLightsSystemState};
use lights_node::LightsNode;
use pass_node::ShadowPassNode;
use registry::ShadowLights;
use render_graph::{ConfigError, RenderGraphPlan, add_render_graph, spec_capacity_ok,
    spec_resolution_ok};

verus! {

// A depth-only shadow pass for a real-time renderer: a registry of
// shadow-casting lights with dense texture slots, per-light light-space
// matrices with optional automatic scene fitting, a double-buffered upload
// discipline onto a modeled GPU, per-light draw-command recording and
// replay, and the packed uniform buffer the main lighting pass samples.

/// A light identity that remains stable across frames.
pub type LightId = u64;

/// The pipeline's configuration surface.
#[derive(Clone, Copy, Debug, PartialEq, Eq, Structural)]
pub struct ShadowPlugin {
    /// Resolution of directional light shadow maps.
    pub directional_light_resolution: u32,
    /// If true, the shadow-aware main-pass pipeline replaces the host's
    /// default; if false it is published under its own handle.
    pub replace_pbr_pipeline: bool,
    /// If false, no shadow-aware main-pass pipeline is created at all.
    pub create_pbr_pipeline: bool,
    /// If false, the shadow pass is not ordered before the main pass.
    pub connect_to_main_pass: bool,
    /// If true, each directional light's orthographic bounds are refitted to
    /// the scene's bounding volume every frame; if false the per-light
    /// configuration is used as set.
    pub automatic_projection_bounds: bool,
    /// How many lights render concurrently: the depth array's layer count.
    pub max_directional_lights: u32,
}

impl ShadowPlugin {
    pub open spec fn spec_default() -> ShadowPlugin {
        ShadowPlugin {
            directional_light_resolution: 4096,
            replace_pbr_pipeline: true,
            create_pbr_pipeline: true,
            connect_to_main_pass: true,
            automatic_projection_bounds: false,
            max_directional_lights: 1,
        }
    }
}

impl Default for ShadowPlugin {
    fn default() -> (r: Self)
        ensures
            r == ShadowPlugin::spec_default(),
    {
        ShadowPlugin {
            directional_light_resolution: 4096,
            replace_pbr_pipeline: true,
            create_pbr_pipeline: true,
            connect_to_main_pass: true,
            automatic_projection_bounds: false,
            max_directional_lights: 1,
        }
    }
}

/// Everything a host wires up for the shadow pass: the graph plan, the empty
/// light registry sized to capacity, the three per-frame nodes with empty
/// queues, and the bind stage's cross-frame state.
#[derive(Debug)]
pub struct ShadowPluginSetup {
    pub graph: RenderGraphPlan,
    pub lights: ShadowLights,
    pub lights_node: LightsNode,
    pub bind_node: ShadowLightsBindNode,
    pub bind_state: ShadowLightsSystemState,
    pub pass_node: ShadowPassNode,
    /// Whether the host must also schedule the bounds-attach and
    /// bounds-write-back stages before each frame.
    pub automatic_projection_bounds: bool,
}

impl ShadowPlugin {
    /// Validates the configuration and builds the whole setup: the graph
    /// plan, an empty registry of the configured capacity, the per-frame
    /// nodes and the shadow pass sized to resolution and capacity.
    pub fn build(&self) -> (r: Result<ShadowPluginSetup, ConfigError>)
        ensures
            !spec_resolution_ok(self.directional_light_resolution) ==> r is Err && r.unwrap_err()
                == ConfigError::InvalidResolution,
            spec_resolution_ok(self.directional_light_resolution) && !spec_capacity_ok(
                self.max_directional_lights,
            ) ==> r is Err && r.unwrap_err() == ConfigError::InvalidCapacity,
            spec_resolution_ok(self.directional_light_resolution) && spec_capacity_ok(
                self.max_directional_lights,
            ) ==> r is Ok && {
                let s = r.unwrap();
                &&& s.lights.wf()
                &&& s.lights.capacity == self.max_directional_lights
                &&& s.lights.lights@.len() == 0
                &&& s.lights.retired@.len() == 0
                &&& s.lights_node.command_queue.commands@.len() == 0
                &&& s.bind_node.command_queue.commands@.len() == 0
                &&& s.bind_state.staging_buffer is None
                &&& s.bind_state.light_buffer is None
                &&& s.pass_node.num_textures == self.max_directional_lights
                &&& s.pass_node.textures@.len() == 0
                &&& s.pass_node.extent == (gpu::Extent3d {
                    width: self.directional_light_resolution,
                    height: self.directional_light_resolution,
                    depth: 1,
                })
                &&& s.automatic_projection_bounds == self.automatic_projection_bounds
            },
    {
        let graph = match add_render_graph(self) {
            Ok(g) => g,
            Err(e) => {
                return Err(e);
            },
        };
        let capacity = self.max_directional_lights;
        Ok(
            ShadowPluginSetup {
                graph,
                lights: ShadowLights::new(capacity as usize),
                lights_node: LightsNode::default(),
                bind_node: ShadowLightsBindNode::default(),
                bind_state: ShadowLightsSystemState::default(),
                pass_node: ShadowPassNode::new(capacity, self.directional_light_resolution),
                automatic_projection_bounds: self.automatic_projection_bounds,
            },
        )
    }
}

} // verus!
