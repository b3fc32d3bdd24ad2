use vstd::prelude::*;
use crate::fbits::{F32_MAX_BITS, F32_MIN_BITS, F32_ONE_BITS, Mat4Bits, Vec3Bits, Vec4Bits,
    spec_neg_bits, neg_bits};
use crate::glam_calls::{mat4_mul_vec4, mat4_mul_vec4_bits, vec3_add, vec3_add_bits, vec3_cmpgt,
    vec3_cmpgt_bits, vec3_cmplt, vec3_cmplt_bits, vec3_sub, vec3_sub_bits};
use crate::light::{DirectionalLight, Light, ShadowDirectionalLight};
use crate::scene::{PrimitiveTopology, Renderable, Sphere};

verus! {

// The scene bounds aggregator, used when automatic projection fitting is on:
// every eligible renderable's bounding sphere is transformed into a light's
// view space and folded into an axis-aligned box, which is then written back
// into the light's orthographic bounds with the view axis flipped, since
// view space looks along negative Z.

/// A running axis-aligned box in a light's view space.
#[derive(Clone, Copy, Debug, PartialEq, Eq, Structural)]
pub struct BoundingBox {
    pub min: Vec3Bits,
    pub max: Vec3Bits,
}

impl BoundingBox {
    /// The empty box every aggregation starts from: the minimum saturated
    /// high and the maximum saturated low, so any point shrinks it.
    pub open spec fn spec_min_max() -> BoundingBox {
        BoundingBox {
            min: Vec3Bits::spec_splat(F32_MAX_BITS),
            max: Vec3Bits::spec_splat(F32_MIN_BITS),
        }
    }

    pub fn min_max() -> (r: BoundingBox)
        ensures
            r == BoundingBox::spec_min_max(),
    {
        BoundingBox { min: Vec3Bits::splat(F32_MAX_BITS), max: Vec3Bits::splat(F32_MIN_BITS) }
    }
}

/// The box grown by one sphere: the sphere's center is taken into view
/// space, and each box face moves out to the center offset by the radius
/// wherever that lies outside the box.
pub open spec fn spec_expand(b: BoundingBox, view: Seq<u32>, s: Sphere) -> BoundingBox {
    let p = mat4_mul_vec4_bits(view, s.center.x, s.center.y, s.center.z, F32_ONE_BITS);
    let lo = vec3_sub_bits(p[0], p[1], p[2], s.radius, s.radius, s.radius);
    let hi = vec3_add_bits(p[0], p[1], p[2], s.radius, s.radius, s.radius);
    let grow_lo = vec3_cmplt_bits(lo[0], lo[1], lo[2], b.min.x, b.min.y, b.min.z);
    let grow_hi = vec3_cmpgt_bits(hi[0], hi[1], hi[2], b.max.x, b.max.y, b.max.z);
    BoundingBox {
        min: Vec3Bits {
            x: if grow_lo.0 {
                lo[0]
            } else {
                b.min.x
            },
            y: if grow_lo.1 {
                lo[1]
            } else {
                b.min.y
            },
            z: if grow_lo.2 {
                lo[2]
            } else {
                b.min.z
            },
        },
        max: Vec3Bits {
            x: if grow_hi.0 {
                hi[0]
            } else {
                b.max.x
            },
            y: if grow_hi.1 {
                hi[1]
            } else {
                b.max.y
            },
            z: if grow_hi.2 {
                hi[2]
            } else {
                b.max.z
            },
        },
    }
}

/// The box enclosing a whole set of spheres in a light's view space, folded
/// sphere by sphere from the empty box.
pub open spec fn spec_aggregate(view: Seq<u32>, spheres: Seq<Sphere>) -> BoundingBox
    decreases spheres.len(),
{
    if spheres.len() == 0 {
        BoundingBox::spec_min_max()
    } else {
        spec_expand(spec_aggregate(view, spheres.drop_last()), view, spheres.last())
    }
}

/// Grows a box by one sphere.
pub fn expand_box(b: BoundingBox, view: &Mat4Bits, s: Sphere) -> (r: BoundingBox)
    ensures
        r == spec_expand(b, view.cols(), s),
{
    let p = mat4_mul_vec4(view, Vec4Bits::extend(s.center, F32_ONE_BITS));
    let rad = Vec3Bits::splat(s.radius);
    let pv = Vec3Bits { x: p.x, y: p.y, z: p.z };
    let lo = vec3_sub(pv, rad);
    let hi = vec3_add(pv, rad);
    let grow_lo = vec3_cmplt(lo, b.min);
    let grow_hi = vec3_cmpgt(hi, b.max);
    BoundingBox {
        min: Vec3Bits {
            x: if grow_lo.0 {
                lo.x
            } else {
                b.min.x
            },
            y: if grow_lo.1 {
                lo.y
            } else {
                b.min.y
            },
            z: if grow_lo.2 {
                lo.z
            } else {
                b.min.z
            },
        },
        max: Vec3Bits {
            x: if grow_hi.0 {
                hi.x
            } else {
                b.max.x
            },
            y: if grow_hi.1 {
                hi.y
            } else {
                b.max.y
            },
            z: if grow_hi.2 {
                hi.z
            } else {
                b.max.z
            },
        },
    }
}

/// The box enclosing the given spheres in the given view space.
pub fn scene_bounding_box(view: &Mat4Bits, spheres: &Vec<Sphere>) -> (r: BoundingBox)
    ensures
        r == spec_aggregate(view.cols(), spheres@),
{
    let mut bb = BoundingBox::min_max();
    let mut i: usize = 0;
    while i < spheres.len()
        invariant
            i <= spheres@.len(),
            bb == spec_aggregate(view.cols(), spheres@.take(i as int)),
        decreases spheres@.len() - i,
    {
        bb = expand_box(bb, view, spheres[i]);
        proof {
            let t = spheres@.take(i + 1 as int);
            assert(t.drop_last() =~= spheres@.take(i as int));
            assert(t.last() == spheres@[i as int]);
        }
        i = i + 1;
    }
    proof {
        assert(spheres@.take(spheres@.len() as int) =~= spheres@);
    }
    bb
}

/// A renderable whose sphere the aggregator folds in: it casts shadows and
/// carries a bounding sphere.
pub open spec fn spec_bounded(r: Renderable) -> bool {
    r.spec_casts_shadows() && r.bounding_sphere is Some
}

/// The world-space spheres the aggregator reads out of a scene, in scene
/// order.
pub open spec fn spec_scene_spheres(rs: Seq<Renderable>) -> Seq<Sphere>
    decreases rs.len(),
{
    if rs.len() == 0 {
        Seq::empty()
    } else {
        let pre = spec_scene_spheres(rs.drop_last());
        if spec_bounded(rs.last()) {
            pre.push(rs.last().bounding_sphere.unwrap())
        } else {
            pre
        }
    }
}

/// Collects the bounding spheres of every shadow-casting renderable.
pub fn scene_spheres(renderables: &Vec<Renderable>) -> (r: Vec<Sphere>)
    ensures
        r@ == spec_scene_spheres(renderables@),
{
    let mut out: Vec<Sphere> = Vec::new();
    let mut i: usize = 0;
    while i < renderables.len()
        invariant
            i <= renderables@.len(),
            out@ == spec_scene_spheres(renderables@.take(i as int)),
        decreases renderables@.len() - i,
    {
        let r = renderables[i];
        if r.casts_shadows() {
            match r.bounding_sphere {
                Some(s) => out.push(s),
                None => {
                },
            }
        }
        proof {
            let t = renderables@.take(i + 1 as int);
            assert(t.drop_last() =~= renderables@.take(i as int));
            assert(t.last() == renderables@[i as int]);
        }
        i = i + 1;
    }
    proof {
        assert(renderables@.take(renderables@.len() as int) =~= renderables@);
    }
    out
}

/// A renderable gets a bounding sphere attached when it casts shadows, has
/// none yet, and its mesh assembles triangle lists; other topologies are
/// skipped, not erroneous.
pub open spec fn spec_needs_bounding_sphere(r: Renderable) -> bool {
    &&& r.spec_casts_shadows()
    &&& r.bounding_sphere is None
    &&& r.mesh.unwrap().topology == PrimitiveTopology::TriangleList
}

/// Attaches each eligible renderable's mesh-derived bounding sphere to it;
/// everything else is left as it stands.
pub fn add_bounding_spheres(renderables: &mut Vec<Renderable>)
    ensures
        final(renderables)@.len() == old(renderables)@.len(),
        forall|j: int|
            0 <= j < old(renderables)@.len() ==> final(renderables)@[j] == (if
            spec_needs_bounding_sphere(old(renderables)@[j]) {
                Renderable {
                    bounding_sphere: Some(old(renderables)@[j].mesh.unwrap().bound),
                    ..old(renderables)@[j]
                }
            } else {
                old(renderables)@[j]
            }),
{
    let mut i: usize = 0;
    while i < renderables.len()
        invariant
            i <= renderables@.len(),
            renderables@.len() == old(renderables)@.len(),
            forall|j: int|
                i <= j < renderables@.len() ==> renderables@[j] == old(renderables)@[j],
            forall|j: int|
                0 <= j < i ==> renderables@[j] == (if spec_needs_bounding_sphere(
                    old(renderables)@[j],
                ) {
                    Renderable {
                        bounding_sphere: Some(old(renderables)@[j].mesh.unwrap().bound),
                        ..old(renderables)@[j]
                    }
                } else {
                    old(renderables)@[j]
                }),
        decreases renderables@.len() - i,
    {
        let r = renderables[i];
        if r.casts_shadows() && r.bounding_sphere.is_none() {
            match r.mesh {
                Some(m) => {
                    if m.topology == PrimitiveTopology::TriangleList {
                        renderables[i] = Renderable { bounding_sphere: Some(m.bound), ..r };
                    }
                },
                None => {
                },
            }
        }
        i = i + 1;
    }
}

/// The projection bounds a light's configuration holds after fitting: the
/// aggregated box, with near and far flipped in sign, because view-space
/// positive Z is behind the eye; an empty scene leaves the documented
/// defaults.
pub open spec fn spec_fitted(view: Seq<u32>, spheres: Seq<Sphere>) -> ShadowDirectionalLight {
    if spheres.len() == 0 {
        ShadowDirectionalLight::spec_default()
    } else {
        let bb = spec_aggregate(view, spheres);
        ShadowDirectionalLight {
            left: bb.min.x,
            right: bb.max.x,
            bottom: bb.min.y,
            top: bb.max.y,
            near: spec_neg_bits(bb.max.z),
            far: spec_neg_bits(bb.min.z),
        }
    }
}

/// An empty scene leaves a light's projection bounds at their documented
/// defaults.
pub proof fn lemma_empty_scene_keeps_defaults(view: Seq<u32>)
    ensures
        spec_fitted(view, Seq::<Sphere>::empty()) == ShadowDirectionalLight::spec_default(),
{
}

/// Rewrites every directional light's orthographic bounds to enclose the
/// scene: for each light, every shadow-casting renderable's bounding sphere
/// is folded into a box in that light's view space, and the box becomes the
/// light's projection bounds with the view axis flipped. Runs after world
/// transforms and bounds are final, before the projector consumes the
/// configuration.
pub fn update_scene_bounding_box(
    lights: &mut Vec<(DirectionalLight, ShadowDirectionalLight)>,
    renderables: &Vec<Renderable>,
)
    ensures
        final(lights)@.len() == old(lights)@.len(),
        forall|j: int|
            0 <= j < old(lights)@.len() ==> #[trigger] final(lights)@[j] == (
            old(lights)@[j].0,
            spec_fitted(
                old(lights)@[j].0.spec_view_matrix(),
                spec_scene_spheres(renderables@),
            ),
            ),
{
    let spheres = scene_spheres(renderables);
    let mut i: usize = 0;
    while i < lights.len()
        invariant
            i <= lights@.len(),
            lights@.len() == old(lights)@.len(),
            spheres@ == spec_scene_spheres(renderables@),
            forall|j: int| i <= j < lights@.len() ==> lights@[j] == old(lights)@[j],
            forall|j: int|
                0 <= j < i ==> #[trigger] lights@[j] == (
                old(lights)@[j].0,
                spec_fitted(
                    old(lights)@[j].0.spec_view_matrix(),
                    spec_scene_spheres(renderables@),
                ),
                ),
        decreases lights@.len() - i,
    {
        let (dir_light, _) = lights[i];
        let fitted = if spheres.len() == 0 {
            ShadowDirectionalLight::default()
        } else {
            let view = dir_light.view_matrix();
            let bb = scene_bounding_box(&view, &spheres);
            ShadowDirectionalLight {
                left: bb.min.x,
                right: bb.max.x,
                bottom: bb.min.y,
                top: bb.max.y,
                near: neg_bits(bb.max.z),
                far: neg_bits(bb.min.z),
            }
        };
        lights[i] = (dir_light, fitted);
        i = i + 1;
    }
}

} // verus!
