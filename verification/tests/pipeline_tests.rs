use shadow_maps::bind_node::{read_u32_le, shadow_lights_bind_system, ShadowLightsBindNode,
    ShadowLightsSystemState, UNIFORM_SIZE};
use shadow_maps::bounds::add_bounding_spheres;
use shadow_maps::draw::{RenderCommand, RenderResourceBindings};
use shadow_maps::fbits::Vec3Bits;
use shadow_maps::gpu::{CommandQueue, RenderResources};
use shadow_maps::light::{DirectionalLight, Light, ShadowDirectionalLight};
use shadow_maps::lights_node::{release_retired_lights, LightsNode, SceneLightData, MATRIX_SIZE};
use shadow_maps::pass_node::{shadow_pass_system, ShadowPassNode};
use shadow_maps::registry::ShadowLights;
use shadow_maps::scene::{IndexFormat, IndexInfo, MeshInfo, PrimitiveTopology, Renderable, Sphere};

fn v3(x: f32, y: f32, z: f32) -> Vec3Bits {
    Vec3Bits { x: x.to_bits(), y: y.to_bits(), z: z.to_bits() }
}

fn expected_view_proj(dir: glam::Vec3, config: Option<(f32, f32, f32, f32, f32, f32)>) -> [u32; 16] {
    let (l, r, b, t, n, f) = config.unwrap_or((-25.0, 25.0, -25.0, 25.0, -500.0, 500.0));
    let proj = glam::Mat4::orthographic_rh(l, r, b, t, n, f);
    let up = if dir.x == 0.0 && dir.z == 0.0 {
        glam::Vec3::new(0.0, 0.0, -1.0)
    } else {
        glam::Vec3::Y
    };
    let view = glam::Mat4::look_at_rh(-40.0 * dir, glam::Vec3::ZERO, up);
    proj.mul_mat4(&view).to_cols_array().map(f32::to_bits)
}

fn mesh(indexed: bool) -> MeshInfo {
    MeshInfo {
        topology: PrimitiveTopology::TriangleList,
        vertex_layout: 11,
        vertex_count: 36,
        indices: if indexed {
            Some(IndexInfo { count: 12, format: IndexFormat::Uint32 })
        } else {
            None
        },
        index_buffer: if indexed { Some(100) } else { None },
        vertex_buffer: Some(101),
        bound: Sphere { center: v3(0.0, 0.0, 0.0), radius: 1.0f32.to_bits() },
    }
}

#[test]
fn packed_buffer_reads_back_each_slot() {
    // Two lights packed into the shared buffer: reading a slot back yields
    // the slot index, the position and the view-projection last computed.
    let dir_a = glam::Vec3::new(1.0, -1.0, 0.0);
    let dir_b = glam::Vec3::new(0.25, -1.0, 0.5);
    let mut lights = ShadowLights::new(4);
    lights.add(7);
    lights.add(8);
    lights.reindex();

    let mut device = RenderResources::new();
    let mut node = LightsNode::default();
    let scene = vec![
        SceneLightData {
            id: 7,
            light: DirectionalLight::new(v3(dir_a.x, dir_a.y, dir_a.z)),
            translation: v3(1.0, 2.0, 3.0),
            config: None,
        },
        SceneLightData {
            id: 8,
            light: DirectionalLight::new(v3(dir_b.x, dir_b.y, dir_b.z)),
            translation: v3(-4.0, 5.0, -6.0),
            config: None,
        },
    ];
    node.prepare(&mut lights, &scene, &mut device);
    node.update(&mut device);

    let mut state = ShadowLightsSystemState::default();
    let mut bindings = RenderResourceBindings::new();
    let mut bind_node = ShadowLightsBindNode::default();
    shadow_lights_bind_system(
        &mut state,
        &mut bindings,
        &lights,
        &mut device,
        &mut bind_node.command_queue,
    );
    bind_node.update(&mut device);

    let light_buffer = state.light_buffer.unwrap();
    let bytes = device.read_buffer_bytes(light_buffer, 0, 2 * UNIFORM_SIZE);

    let expected = [
        (0u32, [1.0f32, 2.0, 3.0], expected_view_proj(dir_a, None)),
        (1u32, [-4.0f32, 5.0, -6.0], expected_view_proj(dir_b, None)),
    ];
    for (slot, (want_slot, want_pos, want_vp)) in expected.iter().enumerate() {
        let base = slot * UNIFORM_SIZE;
        for k in 0..4 {
            assert_eq!(read_u32_le(&bytes, base + 4 * k), *want_slot);
        }
        for (k, p) in want_pos.iter().enumerate() {
            assert_eq!(read_u32_le(&bytes, base + 16 + 4 * k), p.to_bits());
        }
        assert_eq!(read_u32_le(&bytes, base + 28), 0.0f32.to_bits());
        for k in 0..16 {
            assert_eq!(read_u32_le(&bytes, base + 32 + 4 * k), want_vp[k]);
        }
    }

    // decoding a slot yields the packed uniform back
    let u0 = shadow_maps::bind_node::read_back_uniform(&bytes, 0);
    assert_eq!(u0.texture_index, [0, 0, 0, 0]);
    assert_eq!(u0.pos, [1.0f32.to_bits(), 2.0f32.to_bits(), 3.0f32.to_bits(), 0]);
    assert_eq!(u0.view_proj, expected_view_proj(dir_a, None));
    let u1 = shadow_maps::bind_node::read_back_uniform(&bytes, 1);
    assert_eq!(u1.texture_index, [1, 1, 1, 1]);

    // the binding the main pass samples covers the whole capacity
    let binding = bindings.shadow_lights.unwrap();
    assert_eq!(binding.buffer, light_buffer);
    assert_eq!(binding.range_start, 0);
    assert_eq!(binding.range_end, 4 * UNIFORM_SIZE);
}

#[test]
fn per_light_buffer_holds_the_matrix_after_upload() {
    let dir = glam::Vec3::new(0.5, -1.0, 0.25);
    let mut lights = ShadowLights::new(2);
    lights.add(3);
    lights.reindex();
    let mut device = RenderResources::new();
    let mut node = LightsNode::default();
    let scene = vec![SceneLightData {
        id: 3,
        light: DirectionalLight::new(v3(dir.x, dir.y, dir.z)),
        translation: v3(0.0, 0.0, 0.0),
        config: Some(ShadowDirectionalLight::default()),
    }];
    node.prepare(&mut lights, &scene, &mut device);
    node.update(&mut device);

    let binding = lights.lights[0].light.bindings.view_proj.unwrap();
    let bytes = device.read_buffer_bytes(binding.buffer, 0, MATRIX_SIZE);
    let want = expected_view_proj(dir, Some((-25.0, 25.0, -25.0, 25.0, -500.0, 500.0)));
    for k in 0..16 {
        assert_eq!(read_u32_le(&bytes, 4 * k), want[k]);
    }
    assert_eq!(lights.lights[0].light.view_proj.m, want);
}

#[test]
fn light_missing_from_scene_is_skipped() {
    let mut lights = ShadowLights::new(2);
    lights.add(3);
    lights.add(4);
    lights.reindex();
    let mut device = RenderResources::new();
    let mut node = LightsNode::default();
    let scene = vec![SceneLightData {
        id: 4,
        light: DirectionalLight::new(v3(0.0, -1.0, 0.1)),
        translation: v3(9.0, 9.0, 9.0),
        config: None,
    }];
    node.prepare(&mut lights, &scene, &mut device);
    assert!(lights.lights[0].light.staging_buffer.is_none());
    assert!(lights.lights[1].light.staging_buffer.is_some());
}

#[test]
fn zero_lights_upload_performs_no_copy_and_still_binds() {
    // Zero lights: the staging write and the copy are skipped, the shared
    // binding is still published, and the array texture stays unwritten.
    let lights = ShadowLights::new(2);
    let mut device = RenderResources::new();
    let mut state = ShadowLightsSystemState::default();
    let mut bindings = RenderResourceBindings::new();
    let mut queue = CommandQueue::new();
    shadow_lights_bind_system(&mut state, &mut bindings, &lights, &mut device, &mut queue);
    assert!(queue.commands.is_empty());
    assert!(bindings.shadow_lights.is_some());
    // both shared buffers exist, sized to capacity
    assert_eq!(device.buffers.len(), 2);
    assert_eq!(device.buffers[0].info.size, 2 * UNIFORM_SIZE);
    assert!(device.buffers[0].data.iter().all(|b| *b == 0));

    // the array texture stays allocated but unwritten
    let mut pass = ShadowPassNode::new(2, 64);
    let arr = device.create_texture(shadow_maps::gpu::TextureDescriptor {
        size: shadow_maps::gpu::Extent3d { width: 64, height: 64, depth: 2 },
        sample_count: 1,
        mip_level_count: 1,
        dimension: shadow_maps::gpu::TextureDimension::D2,
        format: shadow_maps::gpu::TextureFormat::Depth32Float,
        usage: shadow_maps::gpu::TextureUsage {
            output_attachment: true,
            sampled: true,
            copy_src: false,
            copy_dst: true,
        },
    });
    pass.update(&lights, &mut device, Some(arr));
    assert_eq!(device.textures[arr].layers.len(), 2);
    assert!(device.textures[arr].layers.iter().all(|l| l.is_none()));
}

#[test]
fn recorder_emits_indexed_draws_for_indexed_meshes() {
    let mut lights = ShadowLights::new(2);
    lights.add(1);
    lights.reindex();
    // give the light its view-projection binding by running an upload frame
    let mut device = RenderResources::new();
    let mut node = LightsNode::default();
    let scene = vec![SceneLightData {
        id: 1,
        light: DirectionalLight::new(v3(0.1, -1.0, 0.0)),
        translation: v3(0.0, 0.0, 0.0),
        config: None,
    }];
    node.prepare(&mut lights, &scene, &mut device);

    let renderables = vec![
        Renderable { shadowless: false, mesh: Some(mesh(true)), bounding_sphere: None },
        Renderable { shadowless: true, mesh: Some(mesh(false)), bounding_sphere: None },
        Renderable { shadowless: false, mesh: None, bounding_sphere: None },
        Renderable { shadowless: false, mesh: Some(mesh(false)), bounding_sphere: None },
    ];
    shadow_pass_system(77, &mut lights, &renderables);
    let cmds = &lights.lights[0].light.draw.render_commands;
    // first renderable: pipeline, bind group, index buffer, vertex buffer,
    // indexed draw; shadowless and unloaded ones are skipped; last: plain draw
    assert_eq!(cmds.len(), 5 + 4);
    assert!(matches!(cmds[0], RenderCommand::SetPipeline { pipeline: 77, .. }));
    assert!(matches!(cmds[1], RenderCommand::SetBindGroup { .. }));
    assert!(matches!(
        cmds[2],
        RenderCommand::SetIndexBuffer { buffer: 100, index_format: IndexFormat::Uint32, .. }
    ));
    assert!(matches!(cmds[3], RenderCommand::SetVertexBuffer { buffer: 101, .. }));
    assert!(matches!(
        cmds[4],
        RenderCommand::DrawIndexed { index_start: 0, index_end: 12, instance_end: 1, .. }
    ));
    assert!(matches!(
        cmds[8],
        RenderCommand::Draw { vertex_start: 0, vertex_end: 36, instance_end: 1, .. }
    ));
}

#[test]
fn light_without_binding_records_no_draws() {
    // A light added this frame has no view-projection buffer yet, so it
    // contributes no draws until next frame.
    let mut lights = ShadowLights::new(2);
    lights.add(1);
    lights.reindex();
    let renderables = vec![Renderable {
        shadowless: false,
        mesh: Some(mesh(true)),
        bounding_sphere: None,
    }];
    shadow_pass_system(77, &mut lights, &renderables);
    assert!(lights.lights[0].light.draw.render_commands.is_empty());
}

#[test]
fn executor_renders_slices_and_fills_the_array() {
    let mut lights = ShadowLights::new(2);
    lights.add(1);
    lights.reindex();
    let mut device = RenderResources::new();
    let mut node = LightsNode::default();
    let scene = vec![SceneLightData {
        id: 1,
        light: DirectionalLight::new(v3(0.2, -1.0, 0.0)),
        translation: v3(0.0, 0.0, 0.0),
        config: None,
    }];
    node.prepare(&mut lights, &scene, &mut device);
    node.update(&mut device);
    let renderables = vec![Renderable {
        shadowless: false,
        mesh: Some(mesh(false)),
        bounding_sphere: None,
    }];
    shadow_pass_system(5, &mut lights, &renderables);

    let arr = device.create_texture(shadow_maps::gpu::TextureDescriptor {
        size: shadow_maps::gpu::Extent3d { width: 32, height: 32, depth: 2 },
        sample_count: 1,
        mip_level_count: 1,
        dimension: shadow_maps::gpu::TextureDimension::D2,
        format: shadow_maps::gpu::TextureFormat::Depth32Float,
        usage: shadow_maps::gpu::TextureUsage {
            output_attachment: true,
            sampled: true,
            copy_src: false,
            copy_dst: true,
        },
    });
    let mut pass = ShadowPassNode::new(2, 32);
    pass.update(&lights, &mut device, Some(arr));

    assert_eq!(pass.textures.len(), 2);
    // slot 0 was rendered: cleared to depth one, commands replayed verbatim
    let slice0 = &device.textures[pass.textures[0]].layers[0];
    let rec = slice0.as_ref().unwrap();
    assert_eq!(rec.clear_depth, 1.0f32.to_bits());
    assert_eq!(rec.commands.len(), lights.lights[0].light.draw.render_commands.len());
    // the array holds slot 0's pass and nothing at slot 1
    let arr_rec = device.textures[arr].layers[0].as_ref().unwrap();
    assert_eq!(arr_rec.clear_depth, 1.0f32.to_bits());
    assert_eq!(arr_rec.commands.len(), rec.commands.len());
    assert!(device.textures[arr].layers[1].is_none());
}

#[test]
fn retired_lights_release_their_buffers_once_the_queue_is_empty() {
    let mut lights = ShadowLights::new(2);
    lights.add(1);
    lights.reindex();
    let mut device = RenderResources::new();
    let mut node = LightsNode::default();
    let scene = vec![SceneLightData {
        id: 1,
        light: DirectionalLight::new(v3(0.3, -1.0, 0.0)),
        translation: v3(0.0, 0.0, 0.0),
        config: None,
    }];
    node.prepare(&mut lights, &scene, &mut device);
    node.update(&mut device);
    let staging = lights.lights[0].light.staging_buffer.unwrap();
    let vp_buffer = lights.lights[0].light.bindings.view_proj.unwrap().buffer;

    lights.remove(1);
    assert_eq!(lights.retired.len(), 1);
    assert!(device.buffers[staging].alive);

    release_retired_lights(&mut lights, &mut device, &node.command_queue);
    assert!(lights.retired.is_empty());
    assert!(!device.buffers[staging].alive);
    assert!(!device.buffers[vp_buffer].alive);
}

#[test]
fn bounding_spheres_attach_only_to_eligible_triangle_meshes() {
    let tri = mesh(true);
    let mut line_mesh = mesh(false);
    line_mesh.topology = PrimitiveTopology::LineList;
    let already = Sphere { center: v3(5.0, 5.0, 5.0), radius: 9.0f32.to_bits() };
    let mut renderables = vec![
        Renderable { shadowless: false, mesh: Some(tri), bounding_sphere: None },
        Renderable { shadowless: true, mesh: Some(tri), bounding_sphere: None },
        Renderable { shadowless: false, mesh: Some(line_mesh), bounding_sphere: None },
        Renderable { shadowless: false, mesh: None, bounding_sphere: None },
        Renderable { shadowless: false, mesh: Some(tri), bounding_sphere: Some(already) },
    ];
    add_bounding_spheres(&mut renderables);
    assert_eq!(renderables[0].bounding_sphere, Some(tri.bound));
    assert_eq!(renderables[1].bounding_sphere, None);
    assert_eq!(renderables[2].bounding_sphere, None);
    assert_eq!(renderables[3].bounding_sphere, None);
    assert_eq!(renderables[4].bounding_sphere, Some(already));
}

#[test]
fn word_round_trip_through_bytes() {
    let mut bytes: Vec<u8> = Vec::new();
    for x in [0u32, 1, 0xDEAD_BEEF, u32::MAX, 0x0102_0304] {
        shadow_maps::bind_node::push_u32_le(&mut bytes, x);
    }
    assert_eq!(bytes.len(), 20);
    assert_eq!(&bytes[0..4], &[0, 0, 0, 0]);
    assert_eq!(&bytes[4..8], &[1, 0, 0, 0]);
    assert_eq!(&bytes[16..20], &[0x04, 0x03, 0x02, 0x01]);
    assert_eq!(read_u32_le(&bytes, 8), 0xDEAD_BEEF);
    assert_eq!(read_u32_le(&bytes, 12), u32::MAX);
}

#[test]
fn frame_helpers_land_matrices_and_uniforms_on_the_device() {
    let dir = glam::Vec3::new(0.6, -1.0, -0.3);
    let mut lights = ShadowLights::new(2);
    lights.add(42);
    lights.reindex();
    let mut device = RenderResources::new();
    let mut node = LightsNode::default();
    let scene = vec![SceneLightData {
        id: 42,
        light: DirectionalLight::new(v3(dir.x, dir.y, dir.z)),
        translation: v3(7.0, 8.0, 9.0),
        config: None,
    }];
    shadow_maps::lights_node::upload_lights_frame(&mut node, &mut lights, &scene, &mut device);

    // the device-resident per-light buffer holds the matrix
    let want = expected_view_proj(dir, None);
    let vp_buffer = lights.lights[0].light.bindings.view_proj.unwrap().buffer;
    let bytes = device.read_buffer_bytes(vp_buffer, 0, MATRIX_SIZE);
    for k in 0..16 {
        assert_eq!(read_u32_le(&bytes, 4 * k), want[k]);
    }

    // and the bind step lands the packed uniform in the shared buffer
    let mut state = ShadowLightsSystemState::default();
    let mut bindings = RenderResourceBindings::new();
    let mut bind_node = ShadowLightsBindNode::default();
    shadow_maps::bind_node::bind_lights_frame(
        &mut state,
        &mut bindings,
        &lights,
        &mut device,
        &mut bind_node,
    );
    let shared = state.light_buffer.unwrap();
    let packed = device.read_buffer_bytes(shared, 0, UNIFORM_SIZE);
    assert_eq!(read_u32_le(&packed, 0), 0);
    assert_eq!(read_u32_le(&packed, 16), 7.0f32.to_bits());
    assert_eq!(read_u32_le(&packed, 20), 8.0f32.to_bits());
    assert_eq!(read_u32_le(&packed, 24), 9.0f32.to_bits());
    for k in 0..16 {
        assert_eq!(read_u32_le(&packed, 32 + 4 * k), want[k]);
    }
}

#[test]
fn frames_chain_and_follow_the_scene() {
    let plugin = shadow_maps::ShadowPlugin {
        directional_light_resolution: 64,
        max_directional_lights: 2,
        ..shadow_maps::ShadowPlugin::default()
    };
    let mut setup = plugin.build().unwrap();
    let mut device = RenderResources::new();
    let mut bindings = RenderResourceBindings::new();
    let arr = device.create_texture(setup.graph.depth_texture);

    setup.lights.add(1);
    setup.lights.add(2);
    setup.lights.add(3);
    let scene = vec![
        SceneLightData {
            id: 1,
            light: DirectionalLight::new(v3(0.5, -1.0, 0.0)),
            translation: v3(1.0, 1.0, 1.0),
            config: None,
        },
        SceneLightData {
            id: 2,
            light: DirectionalLight::new(v3(0.0, -1.0, 0.5)),
            translation: v3(2.0, 2.0, 2.0),
            config: None,
        },
        SceneLightData {
            id: 3,
            light: DirectionalLight::new(v3(-0.5, -1.0, 0.0)),
            translation: v3(3.0, 3.0, 3.0),
            config: None,
        },
    ];
    let renderables = vec![Renderable {
        shadowless: false,
        mesh: Some(mesh(true)),
        bounding_sphere: None,
    }];

    shadow_maps::frame::run_shadow_frame(
        &mut setup.lights,
        &mut setup.lights_node,
        &mut setup.bind_node,
        &mut setup.bind_state,
        &mut setup.pass_node,
        &mut bindings,
        &scene,
        &renderables,
        9,
        Some(arr),
        &mut device,
    );
    // three registered, two slots: the third light is excluded this frame
    assert_eq!(setup.lights.active_lights(), vec![1, 2]);
    assert_eq!(setup.lights.lights[2].light.texture_index, None);
    // both slices rendered and copied into the array
    assert!(device.textures[arr].layers[0].is_some());
    assert!(device.textures[arr].layers[1].is_some());

    // next frame: the first light leaves the scene and the registry
    setup.lights.remove(1);
    let scene2: Vec<SceneLightData<DirectionalLight>> =
        scene.into_iter().filter(|s| s.id != 1).collect();
    shadow_maps::frame::run_shadow_frame(
        &mut setup.lights,
        &mut setup.lights_node,
        &mut setup.bind_node,
        &mut setup.bind_state,
        &mut setup.pass_node,
        &mut bindings,
        &scene2,
        &renderables,
        9,
        Some(arr),
        &mut device,
    );
    // capacity freed: the remaining two lights hold the dense slots
    assert_eq!(setup.lights.active_lights(), vec![2, 3]);
    // slot 0 now belongs to light 2: the packed buffer says so
    let shared = setup.bind_state.light_buffer.unwrap();
    let bytes = device.read_buffer_bytes(shared, 0, 2 * UNIFORM_SIZE);
    assert_eq!(read_u32_le(&bytes, 0), 0);
    assert_eq!(read_u32_le(&bytes, 16), 2.0f32.to_bits());
    assert_eq!(read_u32_le(&bytes, UNIFORM_SIZE), 1);
    assert_eq!(read_u32_le(&bytes, UNIFORM_SIZE + 16), 3.0f32.to_bits());
}
