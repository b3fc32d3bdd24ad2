use vstd::prelude::*;

verus! {

// Scalars, vectors and matrices are carried as IEEE-754 binary32 bit
// patterns, so that the pipeline's bookkeeping can be reasoned about while
// the floating-point arithmetic itself stays with the math library.

/// Bit pattern of `1.0_f32`.
pub const F32_ONE_BITS: u32 = 0x3F80_0000;
/// Bit pattern of `-1.0_f32`.
pub const F32_NEG_ONE_BITS: u32 = 0xBF80_0000;
/// Bit pattern of `0.0_f32`.
pub const F32_ZERO_BITS: u32 = 0x0000_0000;
/// Bit pattern of `f32::MAX`, the largest finite value.
pub const F32_MAX_BITS: u32 = 0x7F7F_FFFF;
/// Bit pattern of `f32::MIN`, the most negative finite value.
pub const F32_MIN_BITS: u32 = 0xFF7F_FFFF;
/// The sign bit of a binary32 value.
pub const F32_SIGN_BIT: u32 = 0x8000_0000;
/// All bits of a binary32 value but the sign: exponent and mantissa.
pub const F32_MAGNITUDE_MASK: u32 = 0x7FFF_FFFF;

/// IEEE-754 negation of the carried value: the sign bit is flipped and
/// every other bit is kept, for zeros, infinities and NaNs alike.
pub open spec fn spec_neg_bits(a: u32) -> u32 {
    a ^ F32_SIGN_BIT
}

/// Negates a scalar carried as bits by flipping its sign bit.
pub fn neg_bits(a: u32) -> (r: u32)
    ensures
        r == spec_neg_bits(a),
{
    a ^ F32_SIGN_BIT
}

/// True exactly when the carried value is a zero (`+0.0` or `-0.0`):
/// every bit but the sign is clear.
pub open spec fn spec_is_zero_bits(a: u32) -> bool {
    a & F32_MAGNITUDE_MASK == 0
}

/// Tests whether a scalar carried as bits is a zero of either sign.
pub fn is_zero_bits(a: u32) -> (r: bool)
    ensures
        r == spec_is_zero_bits(a),
{
    a & F32_MAGNITUDE_MASK == 0
}

/// A three-component vector of binary32 bit patterns.
#[derive(Clone, Copy, Debug, PartialEq, Eq, Structural)]
pub struct Vec3Bits {
    pub x: u32,
    pub y: u32,
    pub z: u32,
}

impl Vec3Bits {
    pub open spec fn as_seq(self) -> Seq<u32> {
        seq![self.x, self.y, self.z]
    }

    pub open spec fn spec_splat(v: u32) -> Vec3Bits {
        Vec3Bits { x: v, y: v, z: v }
    }

    /// A vector with the same scalar in every component.
    pub fn splat(v: u32) -> (r: Vec3Bits)
        ensures
            r == Vec3Bits::spec_splat(v),
    {
        Vec3Bits { x: v, y: v, z: v }
    }

    pub open spec fn spec_zero() -> Vec3Bits {
        Vec3Bits::spec_splat(F32_ZERO_BITS)
    }

    /// The zero vector.
    pub fn zero() -> (r: Vec3Bits)
        ensures
            r == Vec3Bits::spec_zero(),
    {
        Vec3Bits { x: F32_ZERO_BITS, y: F32_ZERO_BITS, z: F32_ZERO_BITS }
    }
}

/// A four-component vector of binary32 bit patterns.
#[derive(Clone, Copy, Debug, PartialEq, Eq, Structural)]
pub struct Vec4Bits {
    pub x: u32,
    pub y: u32,
    pub z: u32,
    pub w: u32,
}

impl Vec4Bits {
    pub open spec fn as_seq(self) -> Seq<u32> {
        seq![self.x, self.y, self.z, self.w]
    }

    /// Extends a three-component vector with the given last component,
    /// as a point (`w == 1.0`) or a direction (`w == 0.0`).
    pub fn extend(v: Vec3Bits, w: u32) -> (r: Vec4Bits)
        ensures
            r == (Vec4Bits { x: v.x, y: v.y, z: v.z, w }),
    {
        Vec4Bits { x: v.x, y: v.y, z: v.z, w }
    }
}

/// A column-major 4x4 matrix of binary32 bit patterns: element `(row, col)`
/// sits at index `col * 4 + row`, as the math library lays its columns out.
#[derive(Clone, Copy, Debug, PartialEq, Eq)]
pub struct Mat4Bits {
    pub m: [u32; 16],
}

impl Mat4Bits {
    pub open spec fn cols(self) -> Seq<u32> {
        self.m@
    }

    /// The identity matrix's columns: ones on the diagonal, zeros elsewhere.
    pub open spec fn identity_cols() -> Seq<u32> {
        Seq::new(16, |i: int| if i == 0 || i == 5 || i == 10 || i == 15 {
            F32_ONE_BITS
        } else {
            F32_ZERO_BITS
        })
    }

    /// The identity matrix.
    pub fn identity() -> (r: Mat4Bits)
        ensures
            r.cols() == Mat4Bits::identity_cols(),
    {
        let o = F32_ONE_BITS;
        let z = F32_ZERO_BITS;
        let r = Mat4Bits { m: [o, z, z, z, z, o, z, z, z, z, o, z, z, z, z, o] };
        proof {
            assert(r.cols() =~= Mat4Bits::identity_cols());
        }
        r
    }
}

} // verus!
