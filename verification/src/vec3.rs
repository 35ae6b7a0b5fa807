//! Signed 3D vectors and axis-aligned boxes.
//!
//! A [`BlockPos`] serves both as a position and as a size. A size may be
//! negative on any axis: the volume then extends in the negative direction
//! from its anchor. The cell count of a volume is always the product of the
//! absolute components.

use vstd::prelude::*;

verus! {

/// A position or size in 3D block space, one signed component per axis.
#[derive(Debug, Clone, Copy, PartialEq, Eq, Structural)]
pub struct BlockPos {
    pub x: i32,
    pub y: i32,
    pub z: i32,
}

/// An axis-aligned box given by its minimum corner and its (non-negative) size.
#[derive(Debug, Clone, Copy, PartialEq, Eq, Structural)]
pub struct Cuboid {
    pub origin: BlockPos,
    pub size: BlockPos,
}

/// The absolute value of a single component.
pub open spec fn abs1(v: int) -> int {
    if v < 0 {
        -v
    } else {
        v
    }
}

/// The unsigned cell count of a volume of size `s`: the product of the
/// absolute components.
pub open spec fn spec_volume(s: BlockPos) -> int {
    abs1(s.x as int) * abs1(s.y as int) * abs1(s.z as int)
}

impl BlockPos {
    /// Build a vector from its components.
    pub fn new(x: i32, y: i32, z: i32) -> (r: BlockPos)
        ensures
            r == (BlockPos { x, y, z }),
    {
        BlockPos { x, y, z }
    }

    /// Component-wise absolute value.
    pub fn abs(&self) -> (r: BlockPos)
        requires
            self.x > i32::MIN,
            self.y > i32::MIN,
            self.z > i32::MIN,
        ensures
            r.x == abs1(self.x as int),
            r.y == abs1(self.y as int),
            r.z == abs1(self.z as int),
    {
        BlockPos {
            x: if self.x < 0 {
                -self.x
            } else {
                self.x
            },
            y: if self.y < 0 {
                -self.y
            } else {
                self.y
            },
            z: if self.z < 0 {
                -self.z
            } else {
                self.z
            },
        }
    }

    /// The unsigned cell count of a volume of this size.
    pub fn volume(&self) -> (r: u64)
        requires
            self.x > i32::MIN,
            self.y > i32::MIN,
            self.z > i32::MIN,
            spec_volume(*self) <= u64::MAX,
        ensures
            r == spec_volume(*self),
    {
        let a = self.abs();
        let ax = a.x as u64;
        let ay = a.y as u64;
        let az = a.z as u64;
        proof {
            lemma_volume_partial_bound(ax as int, ay as int, az as int);
        }
        ax * ay * az
    }
}

/// The first partial product of a three-factor product stays within the
/// product's own bound (or within `2^62` when the last factor is zero).
proof fn lemma_volume_partial_bound(ax: int, ay: int, az: int)
    requires
        0 <= ax < 0x8000_0000,
        0 <= ay < 0x8000_0000,
        0 <= az,
        ax * ay * az <= u64::MAX,
    ensures
        ax * ay <= u64::MAX,
        ax * ay * az <= u64::MAX,
{
    assert(ax * ay < 0x8000_0000 * 0x8000_0000) by (nonlinear_arith)
        requires
            0 <= ax < 0x8000_0000,
            0 <= ay < 0x8000_0000,
    ;
}

} // verus!
