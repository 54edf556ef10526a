//! Value types shared by every part of the simulator: entity identifiers and
//! spatial transforms.
//!
//! Floating-point components are carried as IEEE-754 binary32 bit patterns.
//! The kernel never does arithmetic on them; it stores, copies and hashes them,
//! and the bit pattern is exactly what the little-endian byte encoding of the
//! float is built from.

use vstd::prelude::*;

verus! {

/// Bit pattern of the binary32 value `0.0`.
pub const F32_ZERO_BITS: u32 = 0;

/// Bit pattern of the binary32 value `1.0`.
pub const F32_ONE_BITS: u32 = 0x3f80_0000;

/// Mask selecting the version nibble and the two variant bits of a UUID.
pub const UUID_FIXED_MASK: u128 = 0x0000_0000_0000_f000_c000_0000_0000_0000;

/// Value of the masked bits in every random (version 4, RFC 9562) UUID.
pub const UUID_V4_BITS: u128 = 0x0000_0000_0000_4000_8000_0000_0000_0000;

/// Unique identifier for an entity in the world.
///
/// The 128-bit value is the UUID read as a big-endian integer, so the integer
/// order of the field is the byte-wise order of the UUID.
#[derive(Clone, Copy, Debug, PartialEq, Eq, Hash, PartialOrd, Ord, Structural)]
pub struct EntityId(pub u128);

/// Draws a version 4 UUID with `uuid::Uuid::new_v4` and returns it as an
/// integer (`Uuid::as_u128`).
///
/// The value itself comes from the operating system's random source, so the
/// contract only states the bits that `new_v4` forces: the version nibble is 4
/// and the variant bits are `10`. The call panics if the operating system
/// cannot supply random bytes.
#[verifier::external_body]
fn random_uuid_v4() -> (bits: u128)
    ensures
        bits & UUID_FIXED_MASK == UUID_V4_BITS,
{
    uuid::Uuid::new_v4().as_u128()
}

impl EntityId {
    /// True when the identifier has the fixed bits of a random UUID.
    pub open spec fn is_v4(self) -> bool {
        self.0 & UUID_FIXED_MASK == UUID_V4_BITS
    }

    /// Allocates a fresh random identifier.
    pub fn new() -> (id: EntityId)
        ensures
            id.is_v4(),
    {
        EntityId(random_uuid_v4())
    }
}

impl Default for EntityId {
    fn default() -> (id: EntityId)
        ensures
            id.is_v4(),
    {
        EntityId::new()
    }
}

/// Three binary32 components, each held as its bit pattern.
#[derive(Clone, Copy, Debug, PartialEq, Eq, Structural)]
pub struct Vec3 {
    pub x: u32,
    pub y: u32,
    pub z: u32,
}

impl Vec3 {
    /// Builds a vector from three component bit patterns.
    pub fn new(x: u32, y: u32, z: u32) -> (v: Vec3)
        ensures
            v == (Vec3 { x, y, z }),
    {
        Vec3 { x, y, z }
    }

    /// The vector `(0.0, 0.0, 0.0)`.
    pub open spec fn spec_zero() -> Vec3 {
        Vec3 { x: F32_ZERO_BITS, y: F32_ZERO_BITS, z: F32_ZERO_BITS }
    }

    /// The vector `(1.0, 1.0, 1.0)`.
    pub open spec fn spec_one() -> Vec3 {
        Vec3 { x: F32_ONE_BITS, y: F32_ONE_BITS, z: F32_ONE_BITS }
    }

    /// The vector `(0.0, 0.0, 0.0)`.
    pub fn zero() -> (v: Vec3)
        ensures
            v == Vec3::spec_zero(),
    {
        Vec3 { x: F32_ZERO_BITS, y: F32_ZERO_BITS, z: F32_ZERO_BITS }
    }

    /// The vector `(1.0, 1.0, 1.0)`.
    pub fn one() -> (v: Vec3)
        ensures
            v == Vec3::spec_one(),
    {
        Vec3 { x: F32_ONE_BITS, y: F32_ONE_BITS, z: F32_ONE_BITS }
    }
}

/// A quaternion of four binary32 components, each held as its bit pattern.
#[derive(Clone, Copy, Debug, PartialEq, Eq, Structural)]
pub struct Quat {
    pub x: u32,
    pub y: u32,
    pub z: u32,
    pub w: u32,
}

impl Quat {
    /// Builds a quaternion from four component bit patterns.
    pub fn new(x: u32, y: u32, z: u32, w: u32) -> (q: Quat)
        ensures
            q == (Quat { x, y, z, w }),
    {
        Quat { x, y, z, w }
    }

    /// The identity rotation `(0.0, 0.0, 0.0, 1.0)`.
    pub open spec fn spec_identity() -> Quat {
        Quat { x: F32_ZERO_BITS, y: F32_ZERO_BITS, z: F32_ZERO_BITS, w: F32_ONE_BITS }
    }

    /// The identity rotation `(0.0, 0.0, 0.0, 1.0)`.
    pub fn identity() -> (q: Quat)
        ensures
            q == Quat::spec_identity(),
    {
        Quat { x: F32_ZERO_BITS, y: F32_ZERO_BITS, z: F32_ZERO_BITS, w: F32_ONE_BITS }
    }
}

/// Spatial transform: position, rotation, scale.
#[derive(Clone, Copy, Debug, PartialEq, Eq, Structural)]
pub struct Transform {
    pub position: Vec3,
    pub rotation: Quat,
    pub scale: Vec3,
}

impl Transform {
    /// The identity transform: at the origin, unrotated, unit scale.
    pub open spec fn spec_identity() -> Transform {
        Transform {
            position: Vec3::spec_zero(),
            rotation: Quat::spec_identity(),
            scale: Vec3::spec_one(),
        }
    }
}

impl Default for Transform {
    fn default() -> (t: Transform)
        ensures
            t == Transform::spec_identity(),
    {
        Transform { position: Vec3::zero(), rotation: Quat::identity(), scale: Vec3::one() }
    }
}

} // verus!
