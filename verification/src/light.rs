use vstd::prelude::*;
use crate::fbits::{
    F32_NEG_ONE_BITS, F32_ONE_BITS, F32_ZERO_BITS, Mat4Bits, Vec3Bits, spec_is_zero_bits,
    is_zero_bits,
};
use crate::glam_calls::{look_at_rh, look_at_rh_bits, orthographic_rh, orthographic_rh_bits,
    vec3_mul, vec3_mul_bits};

verus! {

// The light-space projector: per light variant, a view matrix placing a
// virtual eye far along the negated light direction looking at the origin,
// and an orthographic projection built from explicit, auto-fitted or default
// bounds.

/// Bit pattern of `25.0_f32`, the default orthographic half-size.
pub const HALF_SIZE_BITS: u32 = 0x41C8_0000;

/// Bit pattern of `-25.0_f32`.
pub const NEG_HALF_SIZE_BITS: u32 = 0xC1C8_0000;

/// Bit pattern of `500.0_f32`, twenty half-sizes: the default far plane.
pub const FAR_DEFAULT_BITS: u32 = 0x43FA_0000;

/// Bit pattern of `-500.0_f32`: the default near plane.
pub const NEAR_DEFAULT_BITS: u32 = 0xC3FA_0000;

/// Bit pattern of `-40.0_f32`: how far along the negated direction the
/// virtual eye is placed.
pub const EYE_DISTANCE_BITS: u32 = 0xC220_0000;

/// A directional light's orthographic projection volume, either set by the
/// user or rewritten every frame by the scene bounds aggregator.
#[derive(Clone, Copy, Debug, PartialEq, Eq, Structural)]
pub struct ShadowDirectionalLight {
    /// Left plane of projection.
    pub left: u32,
    /// Right plane of projection.
    pub right: u32,
    /// Bottom plane of projection.
    pub bottom: u32,
    /// Top plane of projection.
    pub top: u32,
    /// Near plane of projection.
    pub near: u32,
    /// Far plane of projection.
    pub far: u32,
}

impl ShadowDirectionalLight {
    /// The documented defaults: a cube of half-size 25 around the origin,
    /// stretched to 500 along the view axis.
    pub open spec fn spec_default() -> ShadowDirectionalLight {
        ShadowDirectionalLight {
            left: NEG_HALF_SIZE_BITS,
            right: HALF_SIZE_BITS,
            bottom: NEG_HALF_SIZE_BITS,
            top: HALF_SIZE_BITS,
            near: NEAR_DEFAULT_BITS,
            far: FAR_DEFAULT_BITS,
        }
    }
}

impl Default for ShadowDirectionalLight {
    fn default() -> (r: Self)
        ensures
            r == ShadowDirectionalLight::spec_default(),
    {
        ShadowDirectionalLight {
            left: NEG_HALF_SIZE_BITS,
            right: HALF_SIZE_BITS,
            bottom: NEG_HALF_SIZE_BITS,
            top: HALF_SIZE_BITS,
            near: NEAR_DEFAULT_BITS,
            far: FAR_DEFAULT_BITS,
        }
    }
}

/// A light variant the shadow pass can render: it knows its view matrix and
/// its projection matrix. New kinds of light extend the pipeline by
/// implementing this, never by changing the pipeline.
pub trait Light {
    /// The per-light projection configuration the variant understands.
    type Config;

    spec fn spec_proj_matrix(&self, config: Option<&Self::Config>) -> Seq<u32>;

    spec fn spec_view_matrix(&self) -> Seq<u32>;

    /// The projection matrix from the given configuration, or from the
    /// variant's defaults when none is given.
    fn proj_matrix(&self, config: Option<&Self::Config>) -> (m: Mat4Bits)
        ensures
            m.cols() == self.spec_proj_matrix(config),
    ;

    /// The world-to-view matrix of the light's virtual eye.
    fn view_matrix(&self) -> (m: Mat4Bits)
        ensures
            m.cols() == self.spec_view_matrix(),
    ;
}

/// A directional light: parallel rays along a direction.
#[derive(Clone, Copy, Debug, PartialEq, Eq, Structural)]
pub struct DirectionalLight {
    pub direction: Vec3Bits,
}

impl DirectionalLight {
    pub fn new(direction: Vec3Bits) -> (r: DirectionalLight)
        ensures
            r.direction == direction,
    {
        DirectionalLight { direction }
    }

    pub fn get_direction(&self) -> (r: Vec3Bits)
        ensures
            r == self.direction,
    {
        self.direction
    }

    /// A vertical direction is parallel to the world up axis: both
    /// horizontal components are zero.
    pub open spec fn spec_is_vertical(self) -> bool {
        spec_is_zero_bits(self.direction.x) && spec_is_zero_bits(self.direction.z)
    }

    /// The up direction handed to the view: world up, except for a vertical
    /// light, whose view would degenerate there; that one looks along
    /// negative world Z as its up.
    pub open spec fn spec_up(self) -> Vec3Bits {
        if self.spec_is_vertical() {
            Vec3Bits { x: F32_ZERO_BITS, y: F32_ZERO_BITS, z: F32_NEG_ONE_BITS }
        } else {
            Vec3Bits { x: F32_ZERO_BITS, y: F32_ONE_BITS, z: F32_ZERO_BITS }
        }
    }

    /// The virtual eye: the direction scaled by a fixed negative distance,
    /// so the eye sits behind the scene looking at the origin.
    pub open spec fn spec_eye(self) -> Seq<u32> {
        vec3_mul_bits(
            EYE_DISTANCE_BITS,
            EYE_DISTANCE_BITS,
            EYE_DISTANCE_BITS,
            self.direction.x,
            self.direction.y,
            self.direction.z,
        )
    }
}

impl Light for DirectionalLight {
    type Config = ShadowDirectionalLight;

    open spec fn spec_proj_matrix(&self, config: Option<&ShadowDirectionalLight>) -> Seq<u32> {
        let c = match config {
            Some(c) => *c,
            None => ShadowDirectionalLight::spec_default(),
        };
        orthographic_rh_bits(c.left, c.right, c.bottom, c.top, c.near, c.far)
    }

    open spec fn spec_view_matrix(&self) -> Seq<u32> {
        let eye = self.spec_eye();
        let up = self.spec_up();
        look_at_rh_bits(
            eye[0],
            eye[1],
            eye[2],
            F32_ZERO_BITS,
            F32_ZERO_BITS,
            F32_ZERO_BITS,
            up.x,
            up.y,
            up.z,
        )
    }

    fn proj_matrix(&self, config: Option<&ShadowDirectionalLight>) -> (m: Mat4Bits) {
        let c = match config {
            Some(c) => *c,
            None => ShadowDirectionalLight::default(),
        };
        orthographic_rh(c.left, c.right, c.bottom, c.top, c.near, c.far)
    }

    fn view_matrix(&self) -> (m: Mat4Bits) {
        let eye = vec3_mul(Vec3Bits::splat(EYE_DISTANCE_BITS), self.direction);
        let up = if is_zero_bits(self.direction.x) && is_zero_bits(self.direction.z) {
            Vec3Bits { x: F32_ZERO_BITS, y: F32_ZERO_BITS, z: F32_NEG_ONE_BITS }
        } else {
            Vec3Bits { x: F32_ZERO_BITS, y: F32_ONE_BITS, z: F32_ZERO_BITS }
        };
        look_at_rh(eye, Vec3Bits::zero(), up)
    }
}

} // verus!
