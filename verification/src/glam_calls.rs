use vstd::prelude::*;
use crate::fbits::{Mat4Bits, Vec3Bits, Vec4Bits};

verus! {

// Every floating-point computation of the pipeline is performed by glam, the
// math library, behind the functions of this module; operands and results
// cross the boundary as binary32 bit patterns, reinterpreted in place by
// bytemuck. Each result depends on the argument bits alone, so it is given a
// name that the callers' contracts speak of; nothing else is assumed of the
// arithmetic.

pub uninterp spec fn look_at_rh_bits(
    ex: u32, ey: u32, ez: u32,
    cx: u32, cy: u32, cz: u32,
    ux: u32, uy: u32, uz: u32,
) -> Seq<u32>;

/// Relies on glam's `Mat4::look_at_rh`: the right-handed view matrix for an
/// eye position, a focal point and an up direction; a pure function of those
/// nine scalars.
#[verifier::external_body]
pub fn look_at_rh(eye: Vec3Bits, center: Vec3Bits, up: Vec3Bits) -> (r: Mat4Bits)
    ensures
        r.cols() == look_at_rh_bits(
            eye.x, eye.y, eye.z,
            center.x, center.y, center.z,
            up.x, up.y, up.z,
        ),
{
    let m = glam::Mat4::look_at_rh(
        bytemuck::cast([eye.x, eye.y, eye.z]),
        bytemuck::cast([center.x, center.y, center.z]),
        bytemuck::cast([up.x, up.y, up.z]),
    );
    Mat4Bits { m: bytemuck::cast(m) }
}

pub uninterp spec fn orthographic_rh_bits(
    left: u32, right: u32, bottom: u32, top: u32, near: u32, far: u32,
) -> Seq<u32>;

/// Relies on glam's `Mat4::orthographic_rh`: the right-handed orthographic
/// projection matrix with `[0, 1]` depth range built from the six clip
/// planes; a pure function of those six scalars.
#[verifier::external_body]
pub fn orthographic_rh(left: u32, right: u32, bottom: u32, top: u32, near: u32, far: u32) -> (r:
    Mat4Bits)
    ensures
        r.cols() == orthographic_rh_bits(left, right, bottom, top, near, far),
{
    let m = glam::Mat4::orthographic_rh(
        bytemuck::cast(left),
        bytemuck::cast(right),
        bytemuck::cast(bottom),
        bytemuck::cast(top),
        bytemuck::cast(near),
        bytemuck::cast(far),
    );
    Mat4Bits { m: bytemuck::cast(m) }
}

pub uninterp spec fn mat4_mul_bits(a: Seq<u32>, b: Seq<u32>) -> Seq<u32>;

/// Relies on glam's `Mat4::mul_mat4`: the matrix product `a * b`; a pure
/// function of the two operands' elements.
#[verifier::external_body]
pub fn mat4_mul(a: &Mat4Bits, b: &Mat4Bits) -> (r: Mat4Bits)
    ensures
        r.cols() == mat4_mul_bits(a.cols(), b.cols()),
{
    let am: glam::Mat4 = bytemuck::cast(a.m);
    let bm: glam::Mat4 = bytemuck::cast(b.m);
    Mat4Bits { m: bytemuck::cast(am.mul_mat4(&bm)) }
}

pub uninterp spec fn mat4_mul_vec4_bits(m: Seq<u32>, x: u32, y: u32, z: u32, w: u32) -> Seq<u32>;

/// Relies on glam's `Mat4::mul_vec4`: the matrix applied to a 4D vector; a
/// pure function of the matrix elements and the vector's four scalars.
#[verifier::external_body]
pub fn mat4_mul_vec4(m: &Mat4Bits, v: Vec4Bits) -> (r: Vec4Bits)
    ensures
        r.as_seq() == mat4_mul_vec4_bits(m.cols(), v.x, v.y, v.z, v.w),
{
    let mm: glam::Mat4 = bytemuck::cast(m.m);
    let p = mm.mul_vec4(bytemuck::cast([v.x, v.y, v.z, v.w]));
    let out: [u32; 4] = bytemuck::cast(p);
    Vec4Bits { x: out[0], y: out[1], z: out[2], w: out[3] }
}

pub uninterp spec fn vec3_mul_bits(ax: u32, ay: u32, az: u32, bx: u32, by: u32, bz: u32) -> Seq<
    u32,
>;

/// Relies on glam's componentwise `Vec3` multiplication: every lane is the
/// IEEE-754 product of the operands' lanes; a pure function of the six
/// scalars.
#[verifier::external_body]
pub fn vec3_mul(a: Vec3Bits, b: Vec3Bits) -> (r: Vec3Bits)
    ensures
        r.as_seq() == vec3_mul_bits(a.x, a.y, a.z, b.x, b.y, b.z),
{
    let av: glam::Vec3 = bytemuck::cast([a.x, a.y, a.z]);
    let bv: glam::Vec3 = bytemuck::cast([b.x, b.y, b.z]);
    let out: [u32; 3] = bytemuck::cast(av * bv);
    Vec3Bits { x: out[0], y: out[1], z: out[2] }
}

pub uninterp spec fn vec3_add_bits(ax: u32, ay: u32, az: u32, bx: u32, by: u32, bz: u32) -> Seq<
    u32,
>;

/// Relies on glam's componentwise `Vec3` addition: every lane is the
/// IEEE-754 sum of the operands' lanes; a pure function of the six scalars.
#[verifier::external_body]
pub fn vec3_add(a: Vec3Bits, b: Vec3Bits) -> (r: Vec3Bits)
    ensures
        r.as_seq() == vec3_add_bits(a.x, a.y, a.z, b.x, b.y, b.z),
{
    let av: glam::Vec3 = bytemuck::cast([a.x, a.y, a.z]);
    let bv: glam::Vec3 = bytemuck::cast([b.x, b.y, b.z]);
    let out: [u32; 3] = bytemuck::cast(av + bv);
    Vec3Bits { x: out[0], y: out[1], z: out[2] }
}

pub uninterp spec fn vec3_sub_bits(ax: u32, ay: u32, az: u32, bx: u32, by: u32, bz: u32) -> Seq<
    u32,
>;

/// Relies on glam's componentwise `Vec3` subtraction: every lane is the
/// IEEE-754 difference of the operands' lanes; a pure function of the six
/// scalars.
#[verifier::external_body]
pub fn vec3_sub(a: Vec3Bits, b: Vec3Bits) -> (r: Vec3Bits)
    ensures
        r.as_seq() == vec3_sub_bits(a.x, a.y, a.z, b.x, b.y, b.z),
{
    let av: glam::Vec3 = bytemuck::cast([a.x, a.y, a.z]);
    let bv: glam::Vec3 = bytemuck::cast([b.x, b.y, b.z]);
    let out: [u32; 3] = bytemuck::cast(av - bv);
    Vec3Bits { x: out[0], y: out[1], z: out[2] }
}

pub uninterp spec fn vec3_cmplt_bits(ax: u32, ay: u32, az: u32, bx: u32, by: u32, bz: u32) -> (
    bool,
    bool,
    bool,
);

/// Relies on glam's `Vec3::cmplt`: the IEEE-754 ordered less-than comparison
/// of each lane, false wherever either operand is a NaN; a pure function of
/// the six scalars.
#[verifier::external_body]
pub fn vec3_cmplt(a: Vec3Bits, b: Vec3Bits) -> (r: (bool, bool, bool))
    ensures
        r == vec3_cmplt_bits(a.x, a.y, a.z, b.x, b.y, b.z),
{
    let av: glam::Vec3 = bytemuck::cast([a.x, a.y, a.z]);
    let bv: glam::Vec3 = bytemuck::cast([b.x, b.y, b.z]);
    let c = av.cmplt(bv);
    (c.x, c.y, c.z)
}

pub uninterp spec fn vec3_cmpgt_bits(ax: u32, ay: u32, az: u32, bx: u32, by: u32, bz: u32) -> (
    bool,
    bool,
    bool,
);

/// Relies on glam's `Vec3::cmpgt`: the IEEE-754 ordered greater-than
/// comparison of each lane, false wherever either operand is a NaN; a pure
/// function of the six scalars.
#[verifier::external_body]
pub fn vec3_cmpgt(a: Vec3Bits, b: Vec3Bits) -> (r: (bool, bool, bool))
    ensures
        r == vec3_cmpgt_bits(a.x, a.y, a.z, b.x, b.y, b.z),
{
    let av: glam::Vec3 = bytemuck::cast([a.x, a.y, a.z]);
    let bv: glam::Vec3 = bytemuck::cast([b.x, b.y, b.z]);
    let c = av.cmpgt(bv);
    (c.x, c.y, c.z)
}

} // verus!
