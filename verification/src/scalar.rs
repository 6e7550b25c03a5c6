//! Binary32 scalars held by their bit patterns, and the small vectors made of them.

use vstd::prelude::*;

verus! {

/// Bit pattern of `0.0`.
pub const ZERO: u32 = 0;

/// Bit pattern of `0.5`.
pub const HALF: u32 = 0x3F00_0000;

/// Bit pattern of `1.0`.
pub const ONE: u32 = 0x3F80_0000;

/// Bit pattern of `-1.0`.
pub const NEG_ONE: u32 = 0xBF80_0000;

/// Bit pattern of `5.0`, the vertical velocity that a jump gives.
pub const JUMP_IMPULSE: u32 = 0x40A0_0000;

/// Bit pattern of `0.01`: a vertical speed below it counts as standing.
pub const JUMP_THRESHOLD: u32 = 0x3C23_D70A;

/// Every bit of a binary32 pattern but the sign.
pub const MAGNITUDE_MASK: u32 = 0x7FFF_FFFF;

/// Bit pattern of positive infinity; every larger magnitude is a NaN.
pub const INFINITY: u32 = 0x7F80_0000;

/// The pattern with the sign bit cleared: the bit pattern of the absolute value.
pub open spec fn magnitude(bits: u32) -> u32 {
    bits & MAGNITUDE_MASK
}

/// Whether the number with this bit pattern is smaller in absolute value than `0.01`.
///
/// Patterns of non-negative binary32 numbers are ordered as the numbers are, and
/// every NaN has a magnitude above that of infinity, so the comparison of the
/// magnitudes as integers is the comparison of the absolute values, false for NaN.
pub open spec fn is_near_zero(bits: u32) -> bool {
    magnitude(bits) < JUMP_THRESHOLD
}

/// The number that a pair of opposed keys stands for: `1.0` when only the positive
/// one is held, `-1.0` when only the negative one is, and `0.0` otherwise.
pub open spec fn axis_value(positive: bool, negative: bool) -> u32 {
    if positive && !negative {
        ONE
    } else if negative && !positive {
        NEG_ONE
    } else {
        ZERO
    }
}

/// Tests a vertical speed against the jump threshold.
pub fn near_zero(bits: u32) -> (near: bool)
    ensures
        near == is_near_zero(bits),
{
    (bits & MAGNITUDE_MASK) < JUMP_THRESHOLD
}

/// Turns a pair of opposed keys into one coordinate of a direction.
pub fn axis(positive: bool, negative: bool) -> (value: u32)
    ensures
        value == axis_value(positive, negative),
{
    if positive && !negative {
        ONE
    } else if negative && !positive {
        NEG_ONE
    } else {
        ZERO
    }
}

/// Both zeros stand, and so does every subnormal number.
pub proof fn zero_is_near_zero()
    ensures
        is_near_zero(ZERO),
        is_near_zero(0x8000_0000u32),
        forall|bits: u32| magnitude(bits) < 0x0080_0000u32 ==> is_near_zero(bits),
{
    assert(0u32 & 0x7FFF_FFFFu32 == 0u32) by (bit_vector);
    assert(0x8000_0000u32 & 0x7FFF_FFFFu32 == 0u32) by (bit_vector);
}

/// The sign never matters: a number stands exactly when its negation does.
pub proof fn near_zero_ignores_sign(bits: u32)
    ensures
        is_near_zero(bits) == is_near_zero(bits ^ 0x8000_0000u32),
{
    assert(bits & 0x7FFF_FFFFu32 == (bits ^ 0x8000_0000u32) & 0x7FFF_FFFFu32) by (bit_vector);
}

/// A body that has just jumped is not standing, whatever the sign of its speed;
/// neither is one whose vertical speed is infinite or not a number.
pub proof fn jump_impulse_is_not_near_zero()
    ensures
        !is_near_zero(JUMP_IMPULSE),
        forall|bits: u32| magnitude(bits) >= INFINITY ==> !is_near_zero(bits),
{
    assert(0x40A0_0000u32 & 0x7FFF_FFFFu32 == 0x40A0_0000u32) by (bit_vector);
}

/// A direction in the plane.
#[derive(Clone, Copy, Debug, PartialEq, Eq, Structural)]
pub struct Vector2 {
    pub x: u32,
    pub y: u32,
}

/// A position or a velocity in space. The third coordinate of a velocity is the
/// vertical one: it is the one that a jump sets.
#[derive(Clone, Copy, Debug, PartialEq, Eq, Structural)]
pub struct Vector3 {
    pub x: u32,
    pub y: u32,
    pub z: u32,
}

impl Vector2 {
    /// The vector with both coordinates `0.0`.
    pub fn zero() -> (v: Vector2)
        ensures
            v == (Vector2 { x: ZERO, y: ZERO }),
    {
        Vector2 { x: ZERO, y: ZERO }
    }

    /// The direction that four movement keys stand for.
    pub fn from_keys(right: bool, left: bool, up: bool, down: bool) -> (v: Vector2)
        ensures
            v == (Vector2 { x: axis_value(right, left), y: axis_value(up, down) }),
    {
        Vector2 { x: axis(right, left), y: axis(up, down) }
    }

    /// The vector in space with these two coordinates and the given third one.
    pub fn extend(self, z: u32) -> (v: Vector3)
        ensures
            v == (Vector3 { x: self.x, y: self.y, z }),
    {
        Vector3 { x: self.x, y: self.y, z }
    }
}

impl Vector3 {
    /// The vector with all coordinates `0.0`.
    pub fn zero() -> (v: Vector3)
        ensures
            v == (Vector3 { x: ZERO, y: ZERO, z: ZERO }),
    {
        Vector3 { x: ZERO, y: ZERO, z: ZERO }
    }

    /// The point at which a newly connected client's entity appears: `(0.0, 0.5, 0.0)`.
    pub fn spawn_point() -> (v: Vector3)
        ensures
            v == spawn_position(),
    {
        Vector3 { x: ZERO, y: HALF, z: ZERO }
    }
}

/// The point `(0.0, 0.5, 0.0)`.
pub open spec fn spawn_position() -> Vector3 {
    Vector3 { x: ZERO, y: HALF, z: ZERO }
}

} // verus!
