use shadow_maps::registry::{shadow_lights_register_system, shadow_lights_remove_system,
    ShadowLight, ShadowLights};
use shadow_maps::render_graph::{add_render_graph, ConfigError, GraphNode};
use shadow_maps::ShadowPlugin;
use shadow_maps::draw::RenderResourceBindings;
use shadow_maps::pass_node::{RenderResourceType, ShadowPassNode};

#[test]
fn register_reindex_yields_dense_slots() {
    let mut lights = ShadowLights::new(4);
    lights.add(10);
    lights.add(20);
    lights.add(30);
    lights.reindex();
    assert_eq!(lights.lights[0].light.texture_index, Some(0));
    assert_eq!(lights.lights[1].light.texture_index, Some(1));
    assert_eq!(lights.lights[2].light.texture_index, Some(2));
    let active = lights.active_lights();
    assert_eq!(active, vec![10, 20, 30]);
}

#[test]
fn register_is_idempotent() {
    let mut lights = ShadowLights::new(4);
    lights.add(5);
    lights.add(5);
    lights.add(5);
    assert_eq!(lights.lights.len(), 1);
    assert_eq!(lights.lights[0].id, 5);
}

#[test]
fn unregister_then_reindex_closes_the_gap() {
    let mut lights = ShadowLights::new(4);
    lights.add(1);
    lights.add(2);
    lights.add(3);
    lights.reindex();
    lights.remove(2);
    lights.reindex();
    let active = lights.active_lights();
    assert_eq!(active, vec![1, 3]);
    assert_eq!(lights.lights[0].light.texture_index, Some(0));
    assert_eq!(lights.lights[1].light.texture_index, Some(1));
    // the removed light's state awaits deferred release
    assert_eq!(lights.retired.len(), 1);
}

#[test]
fn unregister_absent_identity_is_a_no_op() {
    let mut lights = ShadowLights::new(2);
    lights.add(1);
    lights.add(2);
    lights.reindex();
    lights.remove(99);
    assert_eq!(lights.lights.len(), 2);
    assert_eq!(lights.lights[0].id, 1);
    assert_eq!(lights.lights[1].id, 2);
    assert_eq!(lights.lights[0].light.texture_index, Some(0));
    assert_eq!(lights.lights[1].light.texture_index, Some(1));
    assert_eq!(lights.retired.len(), 0);
}

#[test]
fn lights_over_capacity_get_no_slot() {
    // Three lights over capacity two: exactly two dense slots, one excluded.
    let mut lights = ShadowLights::new(2);
    lights.add(7);
    lights.add(8);
    lights.add(9);
    lights.reindex();
    assert_eq!(lights.lights[0].light.texture_index, Some(0));
    assert_eq!(lights.lights[1].light.texture_index, Some(1));
    assert_eq!(lights.lights[2].light.texture_index, None);
    assert_eq!(lights.active_lights(), vec![7, 8]);
}

#[test]
fn excess_light_gains_a_slot_when_capacity_frees() {
    let mut lights = ShadowLights::new(2);
    lights.add(7);
    lights.add(8);
    lights.add(9);
    lights.reindex();
    assert_eq!(lights.lights[2].light.texture_index, None);
    lights.remove(7);
    lights.reindex();
    assert_eq!(lights.active_lights(), vec![8, 9]);
    assert_eq!(lights.lights[0].light.texture_index, Some(0));
    assert_eq!(lights.lights[1].light.texture_index, Some(1));
}

#[test]
fn register_system_adds_each_new_identity_once() {
    let mut lights = ShadowLights::new(8);
    lights.add(2);
    shadow_lights_register_system(&mut lights, &vec![1, 2, 3, 1]);
    let mut ids: Vec<u64> = lights.lights.iter().map(|e| e.id).collect();
    ids.sort();
    assert_eq!(ids, vec![1, 2, 3]);
}

#[test]
fn remove_system_drops_each_named_identity() {
    let mut lights = ShadowLights::new(8);
    shadow_lights_register_system(&mut lights, &vec![1, 2, 3, 4]);
    shadow_lights_remove_system(&mut lights, &vec![2, 4, 99]);
    let mut ids: Vec<u64> = lights.lights.iter().map(|e| e.id).collect();
    ids.sort();
    assert_eq!(ids, vec![1, 3]);
}

#[test]
fn fresh_light_state_is_default() {
    let l = ShadowLight::default();
    assert!(l.staging_buffer.is_none());
    assert!(l.texture_index.is_none());
    assert!(l.draw.render_commands.is_empty());
    assert!(l.bindings.view_proj.is_none());
}

#[test]
fn plugin_default_configuration() {
    let p = ShadowPlugin::default();
    assert_eq!(p.directional_light_resolution, 4096);
    assert!(p.replace_pbr_pipeline);
    assert!(p.create_pbr_pipeline);
    assert!(p.connect_to_main_pass);
    assert!(!p.automatic_projection_bounds);
    assert_eq!(p.max_directional_lights, 1);
}

#[test]
fn zero_resolution_is_rejected() {
    let p = ShadowPlugin { directional_light_resolution: 0, ..ShadowPlugin::default() };
    assert_eq!(add_render_graph(&p).unwrap_err(), ConfigError::InvalidResolution);
    assert!(p.build().is_err());
}

#[test]
fn oversized_resolution_is_rejected() {
    let p = ShadowPlugin { directional_light_resolution: 1 << 20, ..ShadowPlugin::default() };
    assert_eq!(add_render_graph(&p).unwrap_err(), ConfigError::InvalidResolution);
}

#[test]
fn zero_capacity_is_rejected() {
    let p = ShadowPlugin { max_directional_lights: 0, ..ShadowPlugin::default() };
    assert_eq!(add_render_graph(&p).unwrap_err(), ConfigError::InvalidCapacity);
}

#[test]
fn oversized_capacity_is_rejected() {
    let p = ShadowPlugin { max_directional_lights: 1 << 16, ..ShadowPlugin::default() };
    assert_eq!(add_render_graph(&p).unwrap_err(), ConfigError::InvalidCapacity);
}

#[test]
fn plan_wires_the_graph() {
    let p = ShadowPlugin { max_directional_lights: 3, ..ShadowPlugin::default() };
    let plan = add_render_graph(&p).unwrap();
    assert!(plan.shadow_pipeline.cull_front);
    assert!(!plan.shadow_pipeline.has_fragment_stage);
    assert!(plan.pbr_pipeline.unwrap().replaces_default);
    assert_eq!(plan.depth_texture.size.width, 4096);
    assert_eq!(plan.depth_texture.size.height, 4096);
    assert_eq!(plan.depth_texture.size.depth, 3);
    assert_eq!(plan.nodes.len(), 4);
    assert_eq!(plan.slot_edges.len(), 1);
    assert_eq!(plan.slot_edges[0].from, GraphNode::DirectionalLightDepth);
    assert_eq!(plan.slot_edges[0].to, GraphNode::ShadowPassNode);
    assert_eq!(
        plan.node_edges,
        vec![
            (GraphNode::DirectionalLightsNode, GraphNode::ShadowPassNode),
            (GraphNode::ShadowLightsBindNode, GraphNode::MainPass),
            (GraphNode::ShadowPassNode, GraphNode::MainPass),
        ]
    );
}

#[test]
fn plan_without_main_pass_connection_has_one_edge() {
    let p = ShadowPlugin { connect_to_main_pass: false, ..ShadowPlugin::default() };
    let plan = add_render_graph(&p).unwrap();
    assert_eq!(plan.node_edges.len(), 1);
}

#[test]
fn plan_can_skip_the_pbr_pipeline() {
    let p = ShadowPlugin { create_pbr_pipeline: false, ..ShadowPlugin::default() };
    let plan = add_render_graph(&p).unwrap();
    assert!(plan.pbr_pipeline.is_none());
}

#[test]
fn build_sizes_everything_to_the_configuration() {
    let p = ShadowPlugin {
        directional_light_resolution: 512,
        max_directional_lights: 5,
        ..ShadowPlugin::default()
    };
    let setup = p.build().unwrap();
    assert_eq!(setup.lights.capacity, 5);
    assert_eq!(setup.pass_node.num_textures, 5);
    assert_eq!(setup.pass_node.extent.width, 512);
    assert_eq!(setup.pass_node.extent.height, 512);
    assert_eq!(setup.pass_node.extent.depth, 1);
    assert!(!setup.automatic_projection_bounds);
}

#[test]
fn shadowless_marker_reflects_into_renderables() {
    let _marker = shadow_maps::scene::Shadowless::default();
    let r = shadow_maps::scene::Renderable { shadowless: true, mesh: None, bounding_sphere: None };
    assert!(!r.casts_shadows());
}

#[test]
fn pass_node_prepare_publishes_the_depth_bindings() {
    let node = ShadowPassNode::new(1, 32);
    let mut bindings = RenderResourceBindings::new();
    node.prepare(&mut bindings, None);
    assert!(bindings.directional_light_texture.is_none());
    node.prepare(&mut bindings, Some((4, 5)));
    assert_eq!(bindings.directional_light_texture, Some(4));
    assert_eq!(bindings.directional_light_sampler, Some(5));
}

#[test]
fn pass_node_consumes_one_texture_slot() {
    let node = ShadowPassNode::new(1, 32);
    let slots = node.input();
    assert_eq!(slots.len(), 1);
    assert_eq!(slots[0].resource_type, RenderResourceType::Texture);
}
