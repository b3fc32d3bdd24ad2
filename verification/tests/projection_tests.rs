use shadow_maps::bounds::{scene_bounding_box, update_scene_bounding_box, BoundingBox};
use shadow_maps::fbits::{Mat4Bits, Vec3Bits, Vec4Bits, F32_MAX_BITS, F32_MIN_BITS, F32_ONE_BITS};
use shadow_maps::glam_calls::{mat4_mul, mat4_mul_vec4, orthographic_rh, vec3_add, vec3_cmplt,
    vec3_mul, vec3_sub};
use shadow_maps::light::{DirectionalLight, Light, ShadowDirectionalLight, EYE_DISTANCE_BITS,
    FAR_DEFAULT_BITS, HALF_SIZE_BITS, NEAR_DEFAULT_BITS, NEG_HALF_SIZE_BITS};
use shadow_maps::scene::Sphere;

fn v3(x: f32, y: f32, z: f32) -> Vec3Bits {
    Vec3Bits { x: x.to_bits(), y: y.to_bits(), z: z.to_bits() }
}

fn mat_of(m: glam::Mat4) -> [u32; 16] {
    m.to_cols_array().map(f32::to_bits)
}

fn f(bits: u32) -> f32 {
    f32::from_bits(bits)
}

#[test]
fn named_constants_hold_their_values() {
    assert_eq!(HALF_SIZE_BITS, 25.0f32.to_bits());
    assert_eq!(NEG_HALF_SIZE_BITS, (-25.0f32).to_bits());
    assert_eq!(FAR_DEFAULT_BITS, 500.0f32.to_bits());
    assert_eq!(NEAR_DEFAULT_BITS, (-500.0f32).to_bits());
    assert_eq!(EYE_DISTANCE_BITS, (-40.0f32).to_bits());
    assert_eq!(F32_MAX_BITS, f32::MAX.to_bits());
    assert_eq!(F32_MIN_BITS, f32::MIN.to_bits());
    assert_eq!(F32_ONE_BITS, 1.0f32.to_bits());
}

#[test]
fn default_bounds_are_documented() {
    let d = ShadowDirectionalLight::default();
    assert_eq!(f(d.left), -25.0);
    assert_eq!(f(d.right), 25.0);
    assert_eq!(f(d.bottom), -25.0);
    assert_eq!(f(d.top), 25.0);
    assert_eq!(f(d.near), -500.0);
    assert_eq!(f(d.far), 500.0);
}

#[test]
fn proj_matrix_uses_exactly_the_explicit_bounds() {
    // One directional light, auto-fit off, explicit bounds.
    let light = DirectionalLight::new(v3(0.3, -1.0, 0.2));
    let config = ShadowDirectionalLight {
        left: (-25.0f32).to_bits(),
        right: 25.0f32.to_bits(),
        bottom: (-25.0f32).to_bits(),
        top: 25.0f32.to_bits(),
        near: (-500.0f32).to_bits(),
        far: 500.0f32.to_bits(),
    };
    let m = light.proj_matrix(Some(&config));
    let expected = mat_of(glam::Mat4::orthographic_rh(-25.0, 25.0, -25.0, 25.0, -500.0, 500.0));
    assert_eq!(m.m, expected);
}

#[test]
fn proj_matrix_without_config_uses_defaults() {
    let light = DirectionalLight::new(v3(0.0, -1.0, 0.3));
    let m = light.proj_matrix(None);
    let expected = mat_of(glam::Mat4::orthographic_rh(-25.0, 25.0, -25.0, 25.0, -500.0, 500.0));
    assert_eq!(m.m, expected);
}

#[test]
fn orthographic_wrapper_matches_glam() {
    let m = orthographic_rh(
        (-3.0f32).to_bits(),
        5.0f32.to_bits(),
        (-7.0f32).to_bits(),
        11.0f32.to_bits(),
        (-13.0f32).to_bits(),
        17.0f32.to_bits(),
    );
    let expected = mat_of(glam::Mat4::orthographic_rh(-3.0, 5.0, -7.0, 11.0, -13.0, 17.0));
    assert_eq!(m.m, expected);
}

#[test]
fn view_matrix_matches_glam_look_at() {
    let dir = glam::Vec3::new(1.0, -2.0, 0.5);
    let light = DirectionalLight::new(v3(dir.x, dir.y, dir.z));
    let m = light.view_matrix();
    let expected = mat_of(glam::Mat4::look_at_rh(-40.0 * dir, glam::Vec3::ZERO, glam::Vec3::Y));
    assert_eq!(m.m, expected);
}

#[test]
fn vertical_light_view_is_finite() {
    // Straight-down light: world up would be parallel to the view direction,
    // so the view is built against negative Z instead and stays finite.
    let light = DirectionalLight::new(v3(0.0, -1.0, 0.0));
    let m = light.view_matrix();
    for b in m.m {
        assert!(f32::from_bits(b).is_finite());
    }
    let expected = mat_of(glam::Mat4::look_at_rh(
        glam::Vec3::new(0.0, 40.0, 0.0),
        glam::Vec3::ZERO,
        glam::Vec3::new(0.0, 0.0, -1.0),
    ));
    assert_eq!(m.m, expected);
}

#[test]
fn mat4_mul_matches_glam() {
    let a = glam::Mat4::orthographic_rh(-1.0, 1.0, -1.0, 1.0, 0.0, 10.0);
    let b = glam::Mat4::look_at_rh(glam::Vec3::new(3.0, 4.0, 5.0), glam::Vec3::ZERO, glam::Vec3::Y);
    let ab = mat4_mul(&Mat4Bits { m: mat_of(a) }, &Mat4Bits { m: mat_of(b) });
    assert_eq!(ab.m, mat_of(a.mul_mat4(&b)));
}

#[test]
fn mat4_mul_vec4_matches_glam() {
    let m = glam::Mat4::look_at_rh(glam::Vec3::new(1.0, 2.0, 3.0), glam::Vec3::ZERO, glam::Vec3::Y);
    let p = m.mul_vec4(glam::Vec4::new(4.0, 5.0, 6.0, 1.0));
    let r = mat4_mul_vec4(
        &Mat4Bits { m: mat_of(m) },
        Vec4Bits {
            x: 4.0f32.to_bits(),
            y: 5.0f32.to_bits(),
            z: 6.0f32.to_bits(),
            w: 1.0f32.to_bits(),
        },
    );
    assert_eq!([r.x, r.y, r.z, r.w], [p.x.to_bits(), p.y.to_bits(), p.z.to_bits(), p.w.to_bits()]);
}

#[test]
fn vec3_wrappers_match_glam() {
    let a = glam::Vec3::new(1.5, -2.25, 3.75);
    let b = glam::Vec3::new(-0.5, 4.0, 0.125);
    let ab = v3(a.x, a.y, a.z);
    let bb = v3(b.x, b.y, b.z);
    let sum = vec3_add(ab, bb);
    let diff = vec3_sub(ab, bb);
    let prod = vec3_mul(ab, bb);
    let s = a + b;
    let d = a - b;
    let p = a * b;
    assert_eq!([sum.x, sum.y, sum.z], [s.x.to_bits(), s.y.to_bits(), s.z.to_bits()]);
    assert_eq!([diff.x, diff.y, diff.z], [d.x.to_bits(), d.y.to_bits(), d.z.to_bits()]);
    assert_eq!([prod.x, prod.y, prod.z], [p.x.to_bits(), p.y.to_bits(), p.z.to_bits()]);
    let lt = vec3_cmplt(ab, bb);
    assert_eq!(lt, (a.x < b.x, a.y < b.y, a.z < b.z));
    let gt = shadow_maps::glam_calls::vec3_cmpgt(ab, bb);
    assert_eq!(gt, (a.x > b.x, a.y > b.y, a.z > b.z));
}

#[test]
fn empty_scene_box_is_the_saturated_initial_box() {
    let light = DirectionalLight::new(v3(0.4, -1.0, 0.0));
    let view = light.view_matrix();
    let bb = scene_bounding_box(&view, &Vec::new());
    let init = BoundingBox::min_max();
    assert_eq!(bb, init);
    assert_eq!(f(bb.min.x), f32::MAX);
    assert_eq!(f(bb.max.x), f32::MIN);
}

#[test]
fn empty_scene_leaves_documented_defaults() {
    // Aggregating over no spheres leaves a light's bounds at the defaults.
    let mut lights = vec![(
        DirectionalLight::new(v3(0.4, -1.0, 0.2)),
        ShadowDirectionalLight {
            left: 1.0f32.to_bits(),
            right: 2.0f32.to_bits(),
            bottom: 3.0f32.to_bits(),
            top: 4.0f32.to_bits(),
            near: 5.0f32.to_bits(),
            far: 6.0f32.to_bits(),
        },
    )];
    update_scene_bounding_box(&mut lights, &Vec::new());
    assert_eq!(lights[0].1, ShadowDirectionalLight::default());
}

#[test]
fn aggregated_near_is_at_most_far_after_flip() {
    // For a set of spheres, the fitted near plane sits before the far plane.
    let light = DirectionalLight::new(v3(0.3, -1.0, 0.4));
    let view = light.view_matrix();
    let spheres = vec![
        Sphere { center: v3(1.0, 2.0, 3.0), radius: 1.5f32.to_bits() },
        Sphere { center: v3(-4.0, 0.5, 7.0), radius: 2.0f32.to_bits() },
        Sphere { center: v3(10.0, -3.0, -6.0), radius: 0.25f32.to_bits() },
    ];
    let bb = scene_bounding_box(&view, &spheres);
    let near = -f(bb.max.z);
    let far = -f(bb.min.z);
    assert!(near <= far);
}

#[test]
fn two_spheres_under_a_vertical_light_fit_as_expected() {
    // One directional light, auto-fit on, spheres at the origin (radius 1)
    // and at x = 10 (radius 2), light pointing straight down.
    let spheres = vec![
        Sphere { center: v3(0.0, 0.0, 0.0), radius: 1.0f32.to_bits() },
        Sphere { center: v3(10.0, 0.0, 0.0), radius: 2.0f32.to_bits() },
    ];
    let light = DirectionalLight::new(v3(0.0, -1.0, 0.0));
    let view = light.view_matrix();
    let bb = scene_bounding_box(&view, &spheres);
    let left = f(bb.min.x);
    let right = f(bb.max.x);
    let near = -f(bb.max.z);
    let far = -f(bb.min.z);
    assert!(right >= 12.0, "right = {right}");
    assert!(left <= -1.0, "left = {left}");
    assert!(near <= far);
}

#[test]
fn transformed_center_is_not_handed_back_unchanged() {
    // The view-space transform must actually run: a point off the eye axis
    // lands somewhere else.
    let light = DirectionalLight::new(v3(0.0, -1.0, 0.0));
    let view = light.view_matrix();
    let p = mat4_mul_vec4(
        &view,
        Vec4Bits {
            x: 1.0f32.to_bits(),
            y: 2.0f32.to_bits(),
            z: 3.0f32.to_bits(),
            w: 1.0f32.to_bits(),
        },
    );
    assert_ne!([f(p.x), f(p.y), f(p.z)], [1.0, 2.0, 3.0]);
}

#[test]
fn identity_matrix_matches_glam_identity() {
    assert_eq!(Mat4Bits::identity().m, mat_of(glam::Mat4::IDENTITY));
}
