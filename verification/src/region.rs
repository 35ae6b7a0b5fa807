//! A region: one named, positioned, sized volume of block data.
//!
//! A region owns a deduplicated palette of distinct block values and a
//! dense array of palette indices, one per cell, addressed row-major by
//! local coordinates. It also owns its block entities (keyed by local
//! position), entities, and pending tick lists.
//!
//! Local coordinates are non-negative and relative to the region's minimum
//! global corner; the region's signed `size` may point in the negative
//! direction from its anchor `position`, which only moves that corner.

use crate::block_state::BlockState;
use crate::litematic::Litematic;
use crate::block_state::BlockStateModel;
use crate::entity::Entity;
use crate::entity::TileEntity;
use crate::error::Error;
use crate::error::RegionDecodeError;
use crate::packing;
use crate::schema;
use crate::schema::PendingBlockTick;
use crate::schema::PendingFluidTick;
use crate::vec3::abs1;
use crate::vec3::spec_volume;
use crate::vec3::BlockPos;
use std::ops::RangeInclusive;
use vstd::arithmetic::power2::pow2;
use vstd::prelude::*;

verus! {

/// One named region of a schematic.
///
/// The palette and the index array are owned exclusively by the region and
/// only reachable through its accessors, which preserve the region's
/// well-formedness: every stored index points into the palette and the
/// index array covers exactly the region's volume.
#[derive(Debug, Clone, PartialEq)]
pub struct Region {
    /// The name of this region.
    pub name: String,
    /// The anchor position of this region in the schematic's global space.
    pub position: BlockPos,
    /// The signed size of this region; negative components extend the
    /// volume in the negative direction from `position`.
    pub size: BlockPos,
    /// The block entities of this region, at most one per local position.
    pub block_entities: Vec<TileEntity>,
    /// The entities of this region.
    pub entities: Vec<Entity>,
    /// The pending block ticks of this region.
    pub pending_block_ticks: Vec<PendingBlockTick>,
    /// The pending fluid ticks of this region.
    pub pending_fluid_ticks: Vec<PendingFluidTick>,
    /// The ordered, deduplicated block values cells refer to. Index 0 is
    /// always the empty value. Mutate only through the block accessors,
    /// which keep the region well-formed.
    pub palette: Vec<BlockState>,
    /// One palette index per cell, in row-major linear order. Mutate only
    /// through the block accessors, which keep the region well-formed.
    pub blocks: Vec<usize>,
}

/// Whether a region geometry stays within the signed 32-bit budget of the
/// wire format: absolute values exist, the volume fits the format's 32-bit
/// count, and the global bounds arithmetic cannot leave the type's range.
pub open spec fn geometry_ok(position: BlockPos, size: BlockPos) -> bool {
    &&& size.x != i32::MIN && size.y != i32::MIN && size.z != i32::MIN
    &&& spec_volume(size) <= i32::MAX
    &&& i32::MIN < position.x + size.x < i32::MAX
    &&& i32::MIN < position.y + size.y < i32::MAX
    &&& i32::MIN < position.z + size.z < i32::MAX
}

/// The minimum global coordinate of an axis with anchor `p` and signed
/// extent `s`.
pub open spec fn spec_min_global(p: int, s: int) -> int {
    if p <= p + s + 1 {
        p
    } else {
        p + s + 1
    }
}

/// The maximum global coordinate of an axis with anchor `p` and signed
/// extent `s`.
pub open spec fn spec_max_global(p: int, s: int) -> int {
    if p >= p + s - 1 {
        p
    } else {
        p + s - 1
    }
}

impl Region {
    /// The palette: the ordered distinct block values cells refer to.
    pub open spec fn spec_palette(&self) -> Seq<BlockState> {
        self.palette@
    }

    /// The dense per-cell palette indices, in linear cell order.
    pub open spec fn spec_indices(&self) -> Seq<usize> {
        self.blocks@
    }

    /// Well-formedness: the geometry is in range, the palette is never
    /// empty, the index array covers exactly the volume, and every index
    /// points into the palette.
    pub open spec fn wf(&self) -> bool {
        &&& geometry_ok(self.position, self.size)
        &&& self.spec_palette().len() >= 1
        &&& self.spec_indices().len() == spec_volume(self.size)
        &&& forall|k: int|
            0 <= k < self.spec_indices().len() ==> (self.spec_indices()[k] as int)
                < self.spec_palette().len()
    }

    /// Whether the local position lies in `[0, abs(size))` on every axis.
    pub open spec fn in_bounds(&self, pos: BlockPos) -> bool {
        &&& 0 <= pos.x < abs1(self.size.x as int)
        &&& 0 <= pos.y < abs1(self.size.y as int)
        &&& 0 <= pos.z < abs1(self.size.z as int)
    }

    /// Whether the global position lies inside the region on every axis:
    /// at least the minimum global coordinate and within the axis's
    /// absolute extent. On a degenerate (zero-size) axis nothing is in
    /// bounds, matching the local rule.
    pub open spec fn in_global_bounds(&self, pos: BlockPos) -> bool {
        &&& spec_min_global(self.position.x as int, self.size.x as int) <= pos.x
            < spec_min_global(self.position.x as int, self.size.x as int) + abs1(self.size.x as int)
        &&& spec_min_global(self.position.y as int, self.size.y as int) <= pos.y
            < spec_min_global(self.position.y as int, self.size.y as int) + abs1(self.size.y as int)
        &&& spec_min_global(self.position.z as int, self.size.z as int) <= pos.z
            < spec_min_global(self.position.z as int, self.size.z as int) + abs1(self.size.z as int)
    }

    /// The row-major linear cell index of a local position: `x` varies
    /// fastest, then `z`, then `y`.
    pub open spec fn spec_index_of(&self, pos: BlockPos) -> int {
        pos.x + pos.y * abs1(self.size.x as int) * abs1(self.size.z as int) + pos.z * abs1(
            self.size.x as int,
        )
    }

    /// The block value model stored at an in-bounds local position.
    pub open spec fn block_model_at(&self, pos: BlockPos) -> BlockStateModel {
        self.spec_palette()[self.spec_indices()[self.spec_index_of(pos)] as int]@
    }

    /// Create a new, empty region with the given name, position, and size:
    /// the palette is seeded with the empty block value and every cell
    /// starts at palette index 0.
    pub fn new(name: String, position: BlockPos, size: BlockPos) -> (r: Region)
        requires
            geometry_ok(position, size),
        ensures
            r.wf(),
            r.name == name,
            r.position == position,
            r.size == size,
            r.spec_palette().len() == 1,
            r.spec_palette()[0]@.name == crate::block_state::air_name(),
            r.spec_palette()[0]@.properties is None,
            forall|k: int| 0 <= k < r.spec_indices().len() ==> r.spec_indices()[k] == 0,
            r.block_entities@ =~= Seq::<TileEntity>::empty(),
            r.entities@ =~= Seq::<Entity>::empty(),
            r.pending_block_ticks@ =~= Seq::<PendingBlockTick>::empty(),
            r.pending_fluid_ticks@ =~= Seq::<PendingFluidTick>::empty(),
    {
        let volume = size.volume();
        let mut blocks: Vec<usize> = Vec::new();
        let mut k: u64 = 0;
        while k < volume
            invariant
                0 <= k <= volume,
                blocks@.len() == k,
                forall|i: int| 0 <= i < blocks@.len() ==> blocks@[i] == 0,
            decreases volume - k,
        {
            blocks.push(0);
            k = k + 1;
        }
        let mut palette: Vec<BlockState> = Vec::new();
        palette.push(BlockState::air());
        Region {
            name,
            position,
            size,
            block_entities: Vec::new(),
            entities: Vec::new(),
            pending_block_ticks: Vec::new(),
            pending_fluid_ticks: Vec::new(),
            palette,
            blocks,
        }
    }

    /// Whether the local position is inside this region.
    ///
    /// For global coordinates, use [`Self::is_in_global_bounds`] instead.
    pub fn is_in_bounds(&self, pos: BlockPos) -> (r: bool)
        requires
            self.wf(),
        ensures
            r == self.in_bounds(pos),
    {
        let a = self.size.abs();
        0 <= pos.x && pos.x < a.x && 0 <= pos.y && pos.y < a.y && 0 <= pos.z && pos.z < a.z
    }

    /// Whether the global position is inside this region.
    ///
    /// For local coordinates, use [`Self::is_in_bounds`] instead.
    pub fn is_in_global_bounds(&self, pos: BlockPos) -> (r: bool)
        requires
            self.wf(),
        ensures
            r == self.in_global_bounds(pos),
    {
        let a = self.size.abs();
        if a.x == 0 || a.y == 0 || a.z == 0 {
            false
        } else {
            self.min_global_x() <= pos.x && pos.x <= self.max_global_x() && self.min_global_y()
                <= pos.y && pos.y <= self.max_global_y() && self.min_global_z() <= pos.z && pos.z
                <= self.max_global_z()
        }
    }

    /// The minimum x coordinate of this region in the schematic's global
    /// coordinate system.
    pub fn min_global_x(&self) -> (r: i32)
        requires
            geometry_ok(self.position, self.size),
        ensures
            r == spec_min_global(self.position.x as int, self.size.x as int),
    {
        let edge = self.position.x + self.size.x + 1;
        if self.position.x <= edge {
            self.position.x
        } else {
            edge
        }
    }

    /// The maximum x coordinate of this region in the schematic's global
    /// coordinate system.
    pub fn max_global_x(&self) -> (r: i32)
        requires
            geometry_ok(self.position, self.size),
        ensures
            r == spec_max_global(self.position.x as int, self.size.x as int),
    {
        let edge = self.position.x + self.size.x - 1;
        if self.position.x >= edge {
            self.position.x
        } else {
            edge
        }
    }

    /// The minimum y coordinate of this region in the schematic's global
    /// coordinate system.
    pub fn min_global_y(&self) -> (r: i32)
        requires
            geometry_ok(self.position, self.size),
        ensures
            r == spec_min_global(self.position.y as int, self.size.y as int),
    {
        let edge = self.position.y + self.size.y + 1;
        if self.position.y <= edge {
            self.position.y
        } else {
            edge
        }
    }

    /// The maximum y coordinate of this region in the schematic's global
    /// coordinate system.
    pub fn max_global_y(&self) -> (r: i32)
        requires
            geometry_ok(self.position, self.size),
        ensures
            r == spec_max_global(self.position.y as int, self.size.y as int),
    {
        let edge = self.position.y + self.size.y - 1;
        if self.position.y >= edge {
            self.position.y
        } else {
            edge
        }
    }

    /// The minimum z coordinate of this region in the schematic's global
    /// coordinate system.
    pub fn min_global_z(&self) -> (r: i32)
        requires
            geometry_ok(self.position, self.size),
        ensures
            r == spec_min_global(self.position.z as int, self.size.z as int),
    {
        let edge = self.position.z + self.size.z + 1;
        if self.position.z <= edge {
            self.position.z
        } else {
            edge
        }
    }

    /// The maximum z coordinate of this region in the schematic's global
    /// coordinate system.
    pub fn max_global_z(&self) -> (r: i32)
        requires
            geometry_ok(self.position, self.size),
        ensures
            r == spec_max_global(self.position.z as int, self.size.z as int),
    {
        let edge = self.position.z + self.size.z - 1;
        if self.position.z >= edge {
            self.position.z
        } else {
            edge
        }
    }

    /// The inclusive range of global x coordinates inside this region.
    pub fn global_x_range(&self) -> (r: RangeInclusive<i32>)
        requires
            geometry_ok(self.position, self.size),
        ensures
            r@.start == spec_min_global(self.position.x as int, self.size.x as int),
            r@.end == spec_max_global(self.position.x as int, self.size.x as int),
    {
        RangeInclusive::new(self.min_global_x(), self.max_global_x())
    }

    /// The inclusive range of global y coordinates inside this region.
    pub fn global_y_range(&self) -> (r: RangeInclusive<i32>)
        requires
            geometry_ok(self.position, self.size),
        ensures
            r@.start == spec_min_global(self.position.y as int, self.size.y as int),
            r@.end == spec_max_global(self.position.y as int, self.size.y as int),
    {
        RangeInclusive::new(self.min_global_y(), self.max_global_y())
    }

    /// The inclusive range of global z coordinates inside this region.
    pub fn global_z_range(&self) -> (r: RangeInclusive<i32>)
        requires
            geometry_ok(self.position, self.size),
        ensures
            r@.start == spec_min_global(self.position.z as int, self.size.z as int),
            r@.end == spec_max_global(self.position.z as int, self.size.z as int),
    {
        RangeInclusive::new(self.min_global_z(), self.max_global_z())
    }

    /// The minimum local x coordinate: always 0.
    pub fn min_x(&self) -> (r: i32)
        ensures
            r == 0,
    {
        0
    }

    /// The maximum local x coordinate: `abs(size.x) - 1`, or 0 for a
    /// degenerate axis.
    pub fn max_x(&self) -> (r: i32)
        requires
            self.size.x != i32::MIN,
        ensures
            r == if abs1(self.size.x as int) >= 1 {
                abs1(self.size.x as int) - 1
            } else {
                0
            },
    {
        let a = if self.size.x < 0 {
            -self.size.x
        } else {
            self.size.x
        };
        if a >= 1 {
            a - 1
        } else {
            0
        }
    }

    /// The minimum local y coordinate: always 0.
    pub fn min_y(&self) -> (r: i32)
        ensures
            r == 0,
    {
        0
    }

    /// The maximum local y coordinate: `abs(size.y) - 1`, or 0 for a
    /// degenerate axis.
    pub fn max_y(&self) -> (r: i32)
        requires
            self.size.y != i32::MIN,
        ensures
            r == if abs1(self.size.y as int) >= 1 {
                abs1(self.size.y as int) - 1
            } else {
                0
            },
    {
        let a = if self.size.y < 0 {
            -self.size.y
        } else {
            self.size.y
        };
        if a >= 1 {
            a - 1
        } else {
            0
        }
    }

    /// The minimum local z coordinate: always 0.
    pub fn min_z(&self) -> (r: i32)
        ensures
            r == 0,
    {
        0
    }

    /// The maximum local z coordinate: `abs(size.z) - 1`, or 0 for a
    /// degenerate axis.
    pub fn max_z(&self) -> (r: i32)
        requires
            self.size.z != i32::MIN,
        ensures
            r == if abs1(self.size.z as int) >= 1 {
                abs1(self.size.z as int) - 1
            } else {
                0
            },
    {
        let a = if self.size.z < 0 {
            -self.size.z
        } else {
            self.size.z
        };
        if a >= 1 {
            a - 1
        } else {
            0
        }
    }

    /// The inclusive range of local x coordinates inside this region.
    pub fn x_range(&self) -> (r: RangeInclusive<i32>)
        requires
            self.size.x != i32::MIN,
        ensures
            r@.start == 0,
            r@.end == if abs1(self.size.x as int) >= 1 {
                abs1(self.size.x as int) - 1
            } else {
                0
            },
    {
        RangeInclusive::new(self.min_x(), self.max_x())
    }

    /// The inclusive range of local y coordinates inside this region.
    pub fn y_range(&self) -> (r: RangeInclusive<i32>)
        requires
            self.size.y != i32::MIN,
        ensures
            r@.start == 0,
            r@.end == if abs1(self.size.y as int) >= 1 {
                abs1(self.size.y as int) - 1
            } else {
                0
            },
    {
        RangeInclusive::new(self.min_y(), self.max_y())
    }

    /// The inclusive range of local z coordinates inside this region.
    pub fn z_range(&self) -> (r: RangeInclusive<i32>)
        requires
            self.size.z != i32::MIN,
        ensures
            r@.start == 0,
            r@.end == if abs1(self.size.z as int) >= 1 {
                abs1(self.size.z as int) - 1
            } else {
                0
            },
    {
        RangeInclusive::new(self.min_z(), self.max_z())
    }

    /// Converts a local position to the global coordinate system.
    ///
    /// Requires the position to be inside this region; see
    /// [`Self::pos_to_global_opt`] for a non-panicking form.
    pub fn pos_to_global(&self, pos: BlockPos) -> (r: BlockPos)
        requires
            self.wf(),
            self.in_bounds(pos),
        ensures
            r.x == pos.x + spec_min_global(self.position.x as int, self.size.x as int),
            r.y == pos.y + spec_min_global(self.position.y as int, self.size.y as int),
            r.z == pos.z + spec_min_global(self.position.z as int, self.size.z as int),
            self.in_global_bounds(r),
    {
        BlockPos {
            x: pos.x + self.min_global_x(),
            y: pos.y + self.min_global_y(),
            z: pos.z + self.min_global_z(),
        }
    }

    /// Converts a global position to the region-local coordinate system.
    ///
    /// Requires the position to be inside this region; see
    /// [`Self::pos_from_global_opt`] for a non-panicking form.
    pub fn pos_from_global(&self, pos: BlockPos) -> (r: BlockPos)
        requires
            self.wf(),
            self.in_global_bounds(pos),
        ensures
            r.x == pos.x - spec_min_global(self.position.x as int, self.size.x as int),
            r.y == pos.y - spec_min_global(self.position.y as int, self.size.y as int),
            r.z == pos.z - spec_min_global(self.position.z as int, self.size.z as int),
            self.in_bounds(r),
    {
        BlockPos {
            x: pos.x - self.min_global_x(),
            y: pos.y - self.min_global_y(),
            z: pos.z - self.min_global_z(),
        }
    }

    /// Converts a local position to the global coordinate system, or
    /// returns `None` exactly when the position is not inside this region.
    pub fn pos_to_global_opt(&self, pos: BlockPos) -> (r: Option<BlockPos>)
        requires
            self.wf(),
        ensures
            r is Some <==> self.in_bounds(pos),
            self.in_bounds(pos) ==> r == Some(self.pos_to_global_spec(pos)),
    {
        if self.is_in_bounds(pos) {
            Some(self.pos_to_global(pos))
        } else {
            None
        }
    }

    /// Converts a global position to the region-local coordinate system,
    /// or returns `None` exactly when the position is not inside this
    /// region.
    pub fn pos_from_global_opt(&self, pos: BlockPos) -> (r: Option<BlockPos>)
        requires
            self.wf(),
        ensures
            r is Some <==> self.in_global_bounds(pos),
            self.in_global_bounds(pos) ==> r == Some(self.pos_from_global_spec(pos)),
    {
        if self.is_in_global_bounds(pos) {
            Some(self.pos_from_global(pos))
        } else {
            None
        }
    }

    /// The global position a local position maps to.
    pub open spec fn pos_to_global_spec(&self, pos: BlockPos) -> BlockPos {
        BlockPos {
            x: (pos.x + spec_min_global(self.position.x as int, self.size.x as int)) as i32,
            y: (pos.y + spec_min_global(self.position.y as int, self.size.y as int)) as i32,
            z: (pos.z + spec_min_global(self.position.z as int, self.size.z as int)) as i32,
        }
    }

    /// The local position a global position maps to.
    pub open spec fn pos_from_global_spec(&self, pos: BlockPos) -> BlockPos {
        BlockPos {
            x: (pos.x - spec_min_global(self.position.x as int, self.size.x as int)) as i32,
            y: (pos.y - spec_min_global(self.position.y as int, self.size.y as int)) as i32,
            z: (pos.z - spec_min_global(self.position.z as int, self.size.z as int)) as i32,
        }
    }
}

/// Whether some palette entry holds the block value `b`.
pub open spec fn palette_has(p: Seq<BlockState>, b: BlockStateModel) -> bool {
    exists|i: int| 0 <= i < p.len() && p[i]@ == b
}

/// How many entries of `s` are non-zero: the occupied-cell count, counting
/// every cell that does not refer to palette entry 0.
pub open spec fn count_nonzero(s: Seq<usize>) -> int
    decreases s.len(),
{
    if s.len() == 0 {
        0
    } else {
        count_nonzero(s.drop_last()) + if s.last() != 0 {
            1int
        } else {
            0int
        }
    }
}

/// A row-major linear index stays within the volume: with each local
/// coordinate below its absolute extent, `x + y*sx*sz + z*sx` lies in
/// `[0, sx*sy*sz)`.
pub proof fn lemma_linear_index_bounds(sx: int, sy: int, sz: int, x: int, y: int, z: int)
    by (nonlinear_arith)
    requires
        0 <= x < sx,
        0 <= y < sy,
        0 <= z < sz,
    ensures
        0 <= x + y * sx * sz + z * sx < sx * sy * sz,
{
}

impl Region {
    /// The row-major linear cell index of an in-bounds local position.
    pub fn pos_to_index(&self, pos: BlockPos) -> (r: usize)
        requires
            self.wf(),
            self.in_bounds(pos),
        ensures
            r == self.spec_index_of(pos),
            r < spec_volume(self.size),
    {
        let a = self.size.abs();
        proof {
            lemma_linear_index_bounds(
                a.x as int,
                a.y as int,
                a.z as int,
                pos.x as int,
                pos.y as int,
                pos.z as int,
            );
            vstd::arithmetic::mul::lemma_mul_nonnegative(pos.y as int, a.x as int);
            vstd::arithmetic::mul::lemma_mul_nonnegative(pos.y as int * (a.x as int), a.z as int);
            vstd::arithmetic::mul::lemma_mul_nonnegative(pos.z as int, a.x as int);
            assert(pos.y as int * (a.x as int) < 0x4000000000000000int) by (nonlinear_arith)
                requires
                    0 <= (pos.y as int) && (pos.y as int) < 0x80000000,
                    0 <= (a.x as int) && (a.x as int) < 0x80000000,
            ;
        }
        let idx: u64 = pos.x as u64 + pos.y as u64 * (a.x as u64) * (a.z as u64) + pos.z as u64 * (
        a.x as u64);
        idx as usize
    }

    /// The first palette index holding the block value, if any.
    fn find_palette(&self, block: &BlockState) -> (r: Option<usize>)
        ensures
            match r {
                Some(i) => 0 <= i < self.spec_palette().len() && self.spec_palette()[i as int]@
                    == block@ && (forall|j: int| 0 <= j < i ==> self.spec_palette()[j]@ != block@),
                None => forall|j: int|
                    0 <= j < self.spec_palette().len() ==> self.spec_palette()[j]@ != block@,
            },
    {
        let mut i: usize = 0;
        while i < self.palette.len()
            invariant
                0 <= i <= self.palette@.len(),
                forall|j: int| 0 <= j < i ==> self.palette@[j]@ != block@,
            decreases self.palette@.len() - i,
        {
            if self.palette[i].same_state(block) {
                return Some(i);
            }
            i = i + 1;
        }
        None
    }

    /// Get the block value at the given local position.
    ///
    /// Requires the position to be inside this region; see
    /// [`Self::get_block_opt`] for a non-panicking form. For global
    /// coordinates, use [`Self::get_block_global`] instead.
    pub fn get_block(&self, pos: BlockPos) -> (r: &BlockState)
        requires
            self.wf(),
            self.in_bounds(pos),
        ensures
            *r == self.spec_palette()[self.spec_indices()[self.spec_index_of(pos)] as int],
            r@ == self.block_model_at(pos),
    {
        let idx = self.pos_to_index(pos);
        &self.palette[self.blocks[idx]]
    }

    /// Get the block value at the given local position, or `None` exactly
    /// when the position is not inside this region.
    ///
    /// For global coordinates, use [`Self::get_block_global_opt`] instead.
    pub fn get_block_opt(&self, pos: BlockPos) -> (r: Option<&BlockState>)
        requires
            self.wf(),
        ensures
            r is Some <==> self.in_bounds(pos),
            self.in_bounds(pos) ==> match r {
                Some(b) => *b == self.spec_palette()[self.spec_indices()[self.spec_index_of(pos)] as int],
                None => false,
            },
    {
        if self.is_in_bounds(pos) {
            Some(self.get_block(pos))
        } else {
            None
        }
    }

    /// Set the block value at the given local position. An equal palette
    /// entry is reused (the palette never grows for a value it already
    /// holds); otherwise the value is appended.
    ///
    /// Requires the position to be inside this region; see
    /// [`Self::set_block_opt`] for a non-panicking form. For global
    /// coordinates, use [`Self::set_block_global`] instead.
    pub fn set_block(&mut self, pos: BlockPos, block: BlockState)
        requires
            old(self).wf(),
            old(self).in_bounds(pos),
        ensures
            final (self).wf(),
            final (self).name == old(self).name,
            final (self).position == old(self).position,
            final (self).size == old(self).size,
            final (self).block_entities == old(self).block_entities,
            final (self).entities == old(self).entities,
            final (self).pending_block_ticks == old(self).pending_block_ticks,
            final (self).pending_fluid_ticks == old(self).pending_fluid_ticks,
            palette_has(old(self).spec_palette(), block@) ==> final (self).spec_palette() == old(
                self,
            ).spec_palette(),
            !palette_has(old(self).spec_palette(), block@) ==> final (self).spec_palette() == old(
                self,
            ).spec_palette().push(block),
            final (self).spec_indices().len() == old(self).spec_indices().len(),
            forall|k: int|
                0 <= k < old(self).spec_indices().len() && k != old(self).spec_index_of(pos)
                    ==> final (self).spec_indices()[k] == old(self).spec_indices()[k],
            final (self).block_model_at(pos) == block@,
            forall|j: int|
                0 <= j < final (self).spec_indices()[final (self).spec_index_of(pos)]
                    ==> final (self).spec_palette()[j]@ != block@,
    {
        let id: usize = match self.find_palette(&block) {
            Some(i) => i,
            None => {
                self.palette.push(block);
                self.palette.len() - 1
            },
        };
        let idx = self.pos_to_index(pos);
        self.blocks.set(idx, id);
    }

    /// Set the block value at the given local position, or do nothing and
    /// return `false` exactly when the position is not inside this region.
    ///
    /// For global coordinates, use [`Self::set_block_global_opt`] instead.
    pub fn set_block_opt(&mut self, pos: BlockPos, block: BlockState) -> (r: bool)
        requires
            old(self).wf(),
        ensures
            r == old(self).in_bounds(pos),
            final (self).wf(),
            !old(self).in_bounds(pos) ==> *final (self) == *old(self),
            old(self).in_bounds(pos) ==> {
                &&& final (self).name == old(self).name
                &&& final (self).position == old(self).position
                &&& final (self).size == old(self).size
                &&& final (self).block_entities == old(self).block_entities
                &&& final (self).entities == old(self).entities
                &&& final (self).pending_block_ticks == old(self).pending_block_ticks
                &&& final (self).pending_fluid_ticks == old(self).pending_fluid_ticks
                &&& (palette_has(old(self).spec_palette(), block@) ==> final (self).spec_palette()
                    == old(self).spec_palette())
                &&& (!palette_has(old(self).spec_palette(), block@) ==> final (self).spec_palette()
                    == old(self).spec_palette().push(block))
                &&& final (self).spec_indices().len() == old(self).spec_indices().len()
                &&& (forall|k: int|
                    0 <= k < old(self).spec_indices().len() && k != old(self).spec_index_of(pos)
                        ==> final (self).spec_indices()[k] == old(self).spec_indices()[k])
                &&& final (self).block_model_at(pos) == block@
            },
    {
        if self.is_in_bounds(pos) {
            self.set_block(pos, block);
            true
        } else {
            false
        }
    }

    /// The block value model stored at an in-global-bounds position.
    pub open spec fn block_model_at_global(&self, pos: BlockPos) -> BlockStateModel {
        self.block_model_at(self.pos_from_global_spec(pos))
    }

    /// Get the block value at the given global position.
    ///
    /// Requires the position to be inside this region; see
    /// [`Self::get_block_global_opt`] for a non-panicking form. For local
    /// coordinates, use [`Self::get_block`] instead.
    pub fn get_block_global(&self, pos: BlockPos) -> (r: &BlockState)
        requires
            self.wf(),
            self.in_global_bounds(pos),
        ensures
            r@ == self.block_model_at_global(pos),
    {
        let local = self.pos_from_global(pos);
        self.get_block(local)
    }

    /// Get the block value at the given global position, or `None` exactly
    /// when the position is not inside this region.
    ///
    /// For local coordinates, use [`Self::get_block_opt`] instead.
    pub fn get_block_global_opt(&self, pos: BlockPos) -> (r: Option<&BlockState>)
        requires
            self.wf(),
        ensures
            r is Some <==> self.in_global_bounds(pos),
            self.in_global_bounds(pos) ==> match r {
                Some(b) => b@ == self.block_model_at_global(pos),
                None => false,
            },
    {
        if self.is_in_global_bounds(pos) {
            Some(self.get_block_global(pos))
        } else {
            None
        }
    }

    /// Set the block value at the given global position.
    ///
    /// Requires the position to be inside this region; see
    /// [`Self::set_block_global_opt`] for a non-panicking form. For local
    /// coordinates, use [`Self::set_block`] instead.
    pub fn set_block_global(&mut self, pos: BlockPos, block: BlockState)
        requires
            old(self).wf(),
            old(self).in_global_bounds(pos),
        ensures
            final (self).wf(),
            final (self).name == old(self).name,
            final (self).position == old(self).position,
            final (self).size == old(self).size,
            final (self).block_entities == old(self).block_entities,
            final (self).entities == old(self).entities,
            final (self).pending_block_ticks == old(self).pending_block_ticks,
            final (self).pending_fluid_ticks == old(self).pending_fluid_ticks,
            final (self).block_model_at_global(pos) == block@,
            palette_has(old(self).spec_palette(), block@) ==> final (self).spec_palette() == old(
                self,
            ).spec_palette(),
            !palette_has(old(self).spec_palette(), block@) ==> final (self).spec_palette() == old(
                self,
            ).spec_palette().push(block),
            final (self).spec_indices().len() == old(self).spec_indices().len(),
            forall|k: int|
                0 <= k < old(self).spec_indices().len() && k != old(self).spec_index_of(
                    old(self).pos_from_global_spec(pos),
                ) ==> final (self).spec_indices()[k] == old(self).spec_indices()[k],
    {
        let local = self.pos_from_global(pos);
        self.set_block(local, block);
    }

    /// Set the block value at the given global position, or do nothing and
    /// return `false` exactly when the position is not inside this region.
    ///
    /// For local coordinates, use [`Self::set_block_opt`] instead.
    pub fn set_block_global_opt(&mut self, pos: BlockPos, block: BlockState) -> (r: bool)
        requires
            old(self).wf(),
        ensures
            r == old(self).in_global_bounds(pos),
            final (self).wf(),
            !old(self).in_global_bounds(pos) ==> *final (self) == *old(self),
            old(self).in_global_bounds(pos) ==> final (self).block_model_at_global(pos) == block@,
    {
        if self.is_in_global_bounds(pos) {
            self.set_block_global(pos, block);
            true
        } else {
            false
        }
    }

    /// The current block value palette, in order.
    pub fn block_palette(&self) -> (r: &[BlockState])
        ensures
            r@ == self.spec_palette(),
    {
        self.palette.as_slice()
    }

    /// Count the cells that do not hold the empty value: every cell whose
    /// palette index is non-zero. A region entirely at index 0 reports 0,
    /// however large its palette.
    pub fn total_blocks(&self) -> (r: usize)
        ensures
            r == count_nonzero(self.spec_indices()),
    {
        let mut c: usize = 0;
        let mut i: usize = 0;
        while i < self.blocks.len()
            invariant
                0 <= i <= self.blocks@.len(),
                c <= i,
                c == count_nonzero(self.blocks@.take(i as int)),
            decreases self.blocks@.len() - i,
        {
            proof {
                assert(self.blocks@.take(i + 1).drop_last() =~= self.blocks@.take(i as int));
                assert(self.blocks@.take(i + 1).last() == self.blocks@[i as int]);
            }
            if self.blocks[i] != 0 {
                c = c + 1;
            }
            i = i + 1;
        }
        proof {
            assert(self.blocks@.take(self.blocks@.len() as int) =~= self.blocks@);
        }
        c
    }

    /// Find the block entity at the given local position: the first (and,
    /// under the keying discipline, only) record keyed by it.
    pub fn get_block_entity(&self, pos: BlockPos) -> (r: Option<&TileEntity>)
        ensures
            r is Some <==> (exists|i: int|
                0 <= i < self.block_entities@.len() && self.block_entities@[i].pos == pos),
            match r {
                Some(te) => te.pos == pos && (exists|i: int|
                    0 <= i < self.block_entities@.len() && self.block_entities@[i] == *te && (
                    forall|j: int| 0 <= j < i ==> self.block_entities@[j].pos != pos)),
                None => true,
            },
    {
        let mut i: usize = 0;
        while i < self.block_entities.len()
            invariant
                0 <= i <= self.block_entities@.len(),
                forall|j: int| 0 <= j < i ==> self.block_entities@[j].pos != pos,
            decreases self.block_entities@.len() - i,
        {
            if self.block_entities[i].pos == pos {
                return Some(&self.block_entities[i]);
            }
            i = i + 1;
        }
        None
    }

    /// Replace or add a block entity, keyed by its position: at most one
    /// block entity per position is kept, the latest one.
    ///
    /// Returns the previous block entity if there already was one at the
    /// same position.
    pub fn set_block_entity(&mut self, block_entity: TileEntity) -> (r: Option<TileEntity>)
        ensures
            final (self).name == old(self).name,
            final (self).position == old(self).position,
            final (self).size == old(self).size,
            final (self).entities == old(self).entities,
            final (self).pending_block_ticks == old(self).pending_block_ticks,
            final (self).pending_fluid_ticks == old(self).pending_fluid_ticks,
            final (self).spec_palette() == old(self).spec_palette(),
            final (self).spec_indices() == old(self).spec_indices(),
            match r {
                Some(prev) => exists|i: int|
                    {
                        &&& 0 <= i < old(self).block_entities@.len()
                        &&& old(self).block_entities@[i] == prev
                        &&& prev.pos == block_entity.pos
                        &&& (forall|j: int|
                            0 <= j < i ==> old(self).block_entities@[j].pos != block_entity.pos)
                        &&& final (self).block_entities@ == old(self).block_entities@.update(
                            i,
                            block_entity,
                        )
                    },
                None => {
                    &&& (forall|j: int|
                        0 <= j < old(self).block_entities@.len() ==> old(
                            self,
                        ).block_entities@[j].pos != block_entity.pos)
                    &&& final (self).block_entities@ == old(self).block_entities@.push(
                        block_entity,
                    )
                },
            },
    {
        let mut i: usize = 0;
        while i < self.block_entities.len()
            invariant
                *self == *old(self),
                0 <= i <= self.block_entities@.len(),
                forall|j: int| 0 <= j < i ==> self.block_entities@[j].pos != block_entity.pos,
            decreases self.block_entities@.len() - i,
        {
            if self.block_entities[i].pos == block_entity.pos {
                self.block_entities.push(block_entity);
                let prev = self.block_entities.swap_remove(i);
                return Some(prev);
            }
            i = i + 1;
        }
        self.block_entities.push(block_entity);
        None
    }

    /// Remove the block entity at the given local position.
    ///
    /// Returns the removed block entity if there was one. The order of the
    /// remaining records is not preserved: the last record moves into the
    /// removed slot.
    pub fn remove_block_entity(&mut self, pos: BlockPos) -> (r: Option<TileEntity>)
        ensures
            final (self).name == old(self).name,
            final (self).position == old(self).position,
            final (self).size == old(self).size,
            final (self).entities == old(self).entities,
            final (self).pending_block_ticks == old(self).pending_block_ticks,
            final (self).pending_fluid_ticks == old(self).pending_fluid_ticks,
            final (self).spec_palette() == old(self).spec_palette(),
            final (self).spec_indices() == old(self).spec_indices(),
            match r {
                Some(prev) => exists|i: int|
                    {
                        &&& 0 <= i < old(self).block_entities@.len()
                        &&& old(self).block_entities@[i] == prev
                        &&& prev.pos == pos
                        &&& (forall|j: int| 0 <= j < i ==> old(self).block_entities@[j].pos != pos)
                        &&& final (self).block_entities@ == old(self).block_entities@.update(
                            i,
                            old(self).block_entities@.last(),
                        ).drop_last()
                    },
                None => {
                    &&& (forall|j: int|
                        0 <= j < old(self).block_entities@.len() ==> old(
                            self,
                        ).block_entities@[j].pos != pos)
                    &&& final (self).block_entities@ == old(self).block_entities@
                },
            },
    {
        let mut i: usize = 0;
        while i < self.block_entities.len()
            invariant
                *self == *old(self),
                0 <= i <= self.block_entities@.len(),
                forall|j: int| 0 <= j < i ==> self.block_entities@[j].pos != pos,
            decreases self.block_entities@.len() - i,
        {
            if self.block_entities[i].pos == pos {
                let prev = self.block_entities.swap_remove(i);
                return Some(prev);
            }
            i = i + 1;
        }
        None
    }
}

/// The packed width a wire region's palette calls for.
pub open spec fn raw_nbits(raw: schema::Region) -> nat {
    packing::spec_bits_per_entry(raw.block_state_palette@.len())
}

/// Whether a wire region's packed word array holds at least as many bits
/// as its volume needs.
pub open spec fn raw_complete(raw: schema::Region) -> bool {
    spec_volume(raw.size) * raw_nbits(raw) <= raw.block_states@.len() * 64
}

/// Whether every packed cell of a wire region refers to an existing
/// palette entry.
pub open spec fn raw_indices_ok(raw: schema::Region) -> bool {
    forall|i: int|
        0 <= i < spec_volume(raw.size) ==> packing::chunk_val(raw.block_states@, raw_nbits(raw), i)
            < raw.block_state_palette@.len()
}

/// Whether a wire region decodes at all: its geometry is in range, its
/// palette is non-empty, its packed words are complete, and every cell
/// refers into the palette.
pub open spec fn raw_region_ok(raw: schema::Region) -> bool {
    &&& geometry_ok(raw.position, raw.size)
    &&& raw.block_state_palette@.len() >= 1
    &&& raw_complete(raw)
    &&& raw_indices_ok(raw)
}

/// The error a rejected wire region is reported with: the first check it
/// fails, in decoding order.
pub open spec fn region_error_of(raw: schema::Region) -> RegionDecodeError {
    if !geometry_ok(raw.position, raw.size) {
        RegionDecodeError::GeometryOutOfRange
    } else if raw.block_state_palette@.len() == 0 {
        RegionDecodeError::EmptyPalette
    } else if !raw_complete(raw) {
        RegionDecodeError::TruncatedBlockStates
    } else {
        RegionDecodeError::PaletteIndexOutOfRange
    }
}

/// Whether a wire region is exactly the wire shape of `reg`: every field
/// moved over unchanged and the packed words holding `reg`'s cell indices
/// at its palette's width.
pub open spec fn raw_matches_region(raw: schema::Region, reg: Region) -> bool {
    &&& raw.position == reg.position
    &&& raw.size == reg.size
    &&& raw.block_state_palette == reg.palette
    &&& raw.tile_entities == reg.block_entities
    &&& raw.entities == reg.entities
    &&& raw.pending_block_ticks == reg.pending_block_ticks
    &&& raw.pending_fluid_ticks == reg.pending_fluid_ticks
    &&& raw.block_states@ == packing::packed_words(reg.ids64(), reg.spec_num_bits())
}

/// Whether `reg` is exactly the decoding of the wire region `raw` under
/// the given name: well-formed, every field moved over unchanged, and one
/// unpacked cell index per cell of the volume.
pub open spec fn region_matches_raw(reg: Region, raw: schema::Region, name: String) -> bool {
    &&& reg.wf()
    &&& reg.name == name
    &&& reg.position == raw.position
    &&& reg.size == raw.size
    &&& reg.palette == raw.block_state_palette
    &&& reg.block_entities == raw.tile_entities
    &&& reg.entities == raw.entities
    &&& reg.pending_block_ticks == raw.pending_block_ticks
    &&& reg.pending_fluid_ticks == raw.pending_fluid_ticks
    &&& reg.spec_indices().len() == spec_volume(raw.size)
    &&& forall|i: int|
        0 <= i < reg.spec_indices().len() ==> reg.spec_indices()[i] == packing::chunk_val(
            raw.block_states@,
            raw_nbits(raw),
            i,
        )
}

impl Region {
    /// The per-cell palette indices as 64-bit values, as the codec packs
    /// them.
    pub open spec fn ids64(&self) -> Seq<u64> {
        self.blocks@.map_values(|b: usize| b as u64)
    }

    /// The packed width this region's palette calls for.
    pub open spec fn spec_num_bits(&self) -> nat {
        packing::spec_bits_per_entry(self.spec_palette().len())
    }

    /// The packed width this region's palette currently calls for: the
    /// smallest width of at least 2 bits that covers the palette. The
    /// width is recomputed from the palette length alone, lazily at pack
    /// time.
    pub fn num_bits(&self) -> (r: usize)
        ensures
            r == self.spec_num_bits(),
            2 <= r <= 64,
    {
        packing::num_bits(self.palette.len())
    }

    /// Convert this region into its wire shape: the palette and auxiliary
    /// lists move over unchanged and the cell indices are packed into
    /// 64-bit words at the palette's current width.
    pub fn to_raw(self) -> (r: schema::Region)
        requires
            self.wf(),
            spec_volume(self.size) * self.spec_num_bits() + 63 <= usize::MAX,
        ensures
            raw_matches_region(r, self),
    {
        let nbits = packing::num_bits(self.palette.len());
        let mut ids: Vec<u64> = Vec::new();
        let mut i: usize = 0;
        while i < self.blocks.len()
            invariant
                0 <= i <= self.blocks@.len(),
                ids@.len() == i,
                forall|k: int| 0 <= k < i ==> ids@[k] == self.blocks@[k] as u64,
            decreases self.blocks@.len() - i,
        {
            ids.push(self.blocks[i] as u64);
            i = i + 1;
        }
        proof {
            assert(ids@ =~= self.ids64());
        }
        let words = packing::pack(&ids, nbits);
        schema::Region {
            position: self.position,
            size: self.size,
            block_state_palette: self.palette,
            block_states: words,
            tile_entities: self.block_entities,
            entities: self.entities,
            pending_block_ticks: self.pending_block_ticks,
            pending_fluid_ticks: self.pending_fluid_ticks,
        }
    }

    /// Construct a region from its wire shape and a name, unpacking the
    /// cell indices and validating the result.
    ///
    /// Decoding is all-or-nothing: a geometry outside the signed 32-bit
    /// budget, an empty palette, a packed array with too few bits, or a
    /// cell referring past the palette each reject the whole region with
    /// the matching error, in that order of checks.
    #[verifier::loop_isolation(false)]
    pub fn from_raw(raw: schema::Region, name: String) -> (r: Result<Region, Error>)
        requires
            raw.block_states@.len() * 64 <= usize::MAX,
        ensures
            r is Ok <==> raw_region_ok(raw),
            r is Err ==> r == Err::<Region, Error>(Error::InvalidRegion(region_error_of(raw))),
            match r {
                Ok(reg) => region_matches_raw(reg, raw, name),
                Err(_) => true,
            },
    {
        if raw.size.x == i32::MIN || raw.size.y == i32::MIN || raw.size.z == i32::MIN {
            return Err(Error::InvalidRegion(RegionDecodeError::GeometryOutOfRange));
        }
        let a = raw.size.abs();
        proof {
            assert((a.x as int) * (a.y as int) < 0x10000000000000000int) by (nonlinear_arith)
                requires
                    0 <= (a.x as int) && (a.x as int) < 0x80000000,
                    0 <= (a.y as int) && (a.y as int) < 0x80000000,
            ;
            assert((a.x as int) * (a.y as int) * (a.z as int)
                < 0x1000000000000000000000000int) by (nonlinear_arith)
                requires
                    0 <= (a.x as int) * (a.y as int) && (a.x as int) * (a.y as int)
                        < 0x10000000000000000int,
                    0 <= (a.z as int) && (a.z as int) < 0x80000000,
            ;
        }
        let volume128: u128 = (a.x as u128) * (a.y as u128) * (a.z as u128);
        if volume128 > i32::MAX as u128 {
            return Err(Error::InvalidRegion(RegionDecodeError::GeometryOutOfRange));
        }
        if (raw.position.x as i64) + (raw.size.x as i64) <= i32::MIN as i64 || (raw.position.x
            as i64) + (raw.size.x as i64) >= i32::MAX as i64 || (raw.position.y as i64) + (raw.size.y
            as i64) <= i32::MIN as i64 || (raw.position.y as i64) + (raw.size.y as i64) >= i32::MAX
            as i64 || (raw.position.z as i64) + (raw.size.z as i64) <= i32::MIN as i64 || (
        raw.position.z as i64) + (raw.size.z as i64) >= i32::MAX as i64 {
            return Err(Error::InvalidRegion(RegionDecodeError::GeometryOutOfRange));
        }
        assert(geometry_ok(raw.position, raw.size));
        if raw.block_state_palette.len() == 0 {
            return Err(Error::InvalidRegion(RegionDecodeError::EmptyPalette));
        }
        let volume: usize = volume128 as usize;
        let nbits = packing::num_bits(raw.block_state_palette.len());
        proof {
            assert((volume as int) * (nbits as int) <= 0x80000000int * 64) by (nonlinear_arith)
                requires
                    0 <= (volume as int) && (volume as int) <= 0x80000000int,
                    0 <= (nbits as int) && (nbits as int) <= 64,
            ;
        }
        if (volume as u128) * (nbits as u128) > (raw.block_states.len() as u128) * 64 {
            return Err(Error::InvalidRegion(RegionDecodeError::TruncatedBlockStates));
        }
        let unpacked = packing::unpack(&raw.block_states, nbits, volume);
        let mut blocks: Vec<usize> = Vec::new();
        let mut i: usize = 0;
        while i < unpacked.len()
            invariant
                0 <= i <= unpacked@.len(),
                blocks@.len() == i,
                forall|k: int| 0 <= k < i ==> blocks@[k] == unpacked@[k],
                forall|k: int|
                    0 <= k < i ==> (unpacked@[k] as int) < raw.block_state_palette@.len(),
            decreases unpacked@.len() - i,
        {
            let id = unpacked[i];
            if id >= raw.block_state_palette.len() as u64 {
                return Err(Error::InvalidRegion(RegionDecodeError::PaletteIndexOutOfRange));
            }
            blocks.push(id as usize);
            i = i + 1;
        }
        proof {
            assert forall|i2: int| 0 <= i2 < spec_volume(raw.size) implies packing::chunk_val(
                raw.block_states@,
                raw_nbits(raw),
                i2,
            ) < raw.block_state_palette@.len() by {
                assert(unpacked@[i2] == packing::chunk_val(raw.block_states@, raw_nbits(raw), i2));
                assert((unpacked@[i2] as int) < raw.block_state_palette@.len());
            }
            assert(raw_indices_ok(raw));
        }
        Ok(
            Region {
                name,
                position: raw.position,
                size: raw.size,
                block_entities: raw.tile_entities,
                entities: raw.entities,
                pending_block_ticks: raw.pending_block_ticks,
                pending_fluid_ticks: raw.pending_fluid_ticks,
                palette: raw.block_state_palette,
                blocks,
            },
        )
    }
}

/// For every well-formed region, the packed width of its palette is the
/// unique smallest width of at least 2 bits whose range covers the
/// palette, and every stored cell index fits in that width.
pub proof fn lemma_palette_width_fits(r: Region)
    requires
        r.wf(),
    ensures
        2 <= r.spec_num_bits() <= 64,
        pow2(r.spec_num_bits()) >= r.spec_palette().len(),
        forall|m: nat| 2 <= m < r.spec_num_bits() ==> pow2(m) < r.spec_palette().len(),
        forall|k: int|
            0 <= k < r.spec_indices().len() ==> (r.spec_indices()[k] as nat) < pow2(
                r.spec_num_bits(),
            ),
{
    packing::lemma_bits_per_entry_minimal(r.spec_palette().len());
    vstd::std_specs::vec::axiom_spec_len(&r.palette);
    lemma_num_bits_le_64(r.spec_palette().len());
}

/// The packed width of any palette that fits in memory is at most 64.
proof fn lemma_num_bits_le_64(len: nat)
    requires
        len <= usize::MAX,
    ensures
        packing::spec_bits_per_entry(len) <= 64,
{
    packing::lemma_bits_per_entry_minimal(len);
    vstd::arithmetic::power2::lemma2_to64();
    if packing::spec_bits_per_entry(len) > 64 {
        assert(pow2(64) < len);
    }
}

/// The region-level round trip: the packed words of a well-formed region
/// pass every decoding check and decode to exactly the region's cell
/// indices, so converting a region to its wire shape and back reproduces
/// its block grid.
pub proof fn lemma_region_roundtrip(r: Region)
    requires
        r.wf(),
    ensures
        spec_volume(r.size) * r.spec_num_bits() <= packing::packed_words(
            r.ids64(),
            r.spec_num_bits(),
        ).len() * 64,
        forall|i: int|
            0 <= i < r.spec_indices().len() ==> packing::chunk_val(
                packing::packed_words(r.ids64(), r.spec_num_bits()),
                r.spec_num_bits(),
                i,
            ) == r.spec_indices()[i],
{
    let nb = r.spec_num_bits();
    let ids = r.ids64();
    lemma_palette_width_fits(r);
    assert forall|i: int| 0 <= i < ids.len() implies ids[i] < pow2(nb) by {
        assert(ids[i] == r.spec_indices()[i] as u64);
    }
    packing::lemma_codec_roundtrip(ids, nb);
    let words = packing::packed_words(ids, nb);
    assert(words.len() == packing::word_count((ids.len() * nb) as int));
    assert(words.len() * 64 >= ids.len() * nb) by {
        vstd::arithmetic::div_mod::lemma_fundamental_div_mod((ids.len() * nb) as int + 63, 64);
    }
    assert forall|i: int|
        0 <= i < r.spec_indices().len() implies packing::chunk_val(words, nb, i)
        == r.spec_indices()[i] by {
        assert(packing::chunk_val(words, nb, i) == ids[i]);
        assert(ids[i] == r.spec_indices()[i] as u64);
    }
}

/// The local position a linear cell index decomposes to, over the
/// absolute size `size`: `x` from the fastest-varying remainder, then `z`,
/// then `y`.
pub open spec fn spec_pos_of_index(size: BlockPos, idx: int) -> BlockPos {
    BlockPos {
        x: (idx % (size.x as int)) as i32,
        y: (idx / (size.x as int) / (size.z as int) % (size.y as int)) as i32,
        z: (idx / (size.x as int) % (size.z as int)) as i32,
    }
}

/// A lazy, finite, restartable cursor over all cells of a region, in
/// increasing linear-index order. Each step yields the local position and
/// a reference to the block value of one cell. The cursor reads only the
/// palette, the index array and the absolute size; it is independent of
/// any other region state.
#[derive(Debug)]
pub struct Blocks<'b> {
    /// The region's palette.
    pub palette: &'b Vec<BlockState>,
    /// The region's per-cell palette indices.
    pub blocks: &'b Vec<usize>,
    /// The linear index the cursor stands at.
    pub index: usize,
    /// The absolute (component-wise non-negative) size of the region.
    pub size: BlockPos,
}

impl<'b> Blocks<'b> {
    /// Well-formedness of the cursor: the absolute size is non-negative,
    /// the index array covers exactly the volume and fits the 32-bit cell
    /// budget, and every index points into the palette.
    pub open spec fn wf(&self) -> bool {
        &&& self.size.x >= 0 && self.size.y >= 0 && self.size.z >= 0
        &&& self.blocks@.len() == (self.size.x as int) * (self.size.y as int) * (self.size.z as int)
        &&& self.blocks@.len() <= i32::MAX
        &&& forall|k: int|
            0 <= k < self.blocks@.len() ==> (self.blocks@[k] as int) < self.palette@.len()
    }

    /// Yield the next cell, as its local position and block value, or
    /// `None` exactly when the cursor has passed the last cell.
    pub fn next(&mut self) -> (r: Option<(BlockPos, &'b BlockState)>)
        requires
            old(self).wf(),
        ensures
            final (self).wf(),
            final (self).palette == old(self).palette,
            final (self).blocks == old(self).blocks,
            final (self).size == old(self).size,
            old(self).index >= old(self).blocks@.len() ==> r is None && final (self).index == old(
                self,
            ).index,
            old(self).index < old(self).blocks@.len() ==> final (self).index == old(self).index + 1
                && match r {
                Some(item) => item.0 == spec_pos_of_index(old(self).size, old(self).index as int)
                    && *item.1 == old(self).palette@[old(self).blocks@[old(self).index as int] as int],
                None => false,
            },
    {
        if self.index >= self.blocks.len() {
            return None;
        }
        let idx = self.index;
        proof {
            assert(self.size.x >= 1 && self.size.y >= 1 && self.size.z >= 1) by (nonlinear_arith)
                requires
                    (self.size.x as int) * (self.size.y as int) * (self.size.z as int) > 0,
                    self.size.x >= 0,
                    self.size.y >= 0,
                    self.size.z >= 0,
            ;
        }
        let i32idx = idx as i32;
        let x = i32idx % self.size.x;
        let y = i32idx / self.size.x / self.size.z % self.size.y;
        let z = i32idx / self.size.x % self.size.z;
        let block = &self.palette[self.blocks[idx]];
        self.index = idx + 1;
        Some((BlockPos { x, y, z }, block))
    }
}

impl Region {
    /// Wrap this region into a new schematic with the given description
    /// and author: the schematic carries the region's name and holds this
    /// region as its only region.
    pub fn as_litematic(self, description: String, author: String) -> (r: Litematic)
        requires
            self.wf(),
        ensures
            r.wf(),
            r.regions@.len() == 1,
            r.regions@[0] == self,
            r.metadata.name == self.name,
            r.metadata.description == description,
            r.metadata.author == author,
            r.metadata.version == crate::litematic::SCHEMATIC_VERSION,
            r.metadata.sub_version == Some(crate::litematic::SCHEMATIC_VERSION_SUB),
            r.metadata.time_created == r.metadata.time_modified,
            r.metadata.preview_image is None,
    {
        let name = self.name.clone();
        let mut l = Litematic::new(name, description, author);
        l.regions.push(self);
        l
    }

    /// A cursor over all cells of this region, in increasing linear-index
    /// order, yielding each cell's local position and block value.
    pub fn blocks(&self) -> (it: Blocks<'_>)
        requires
            self.wf(),
        ensures
            it.wf(),
            it.palette@ == self.spec_palette(),
            it.blocks@ == self.spec_indices(),
            it.index == 0,
            it.size.x == abs1(self.size.x as int),
            it.size.y == abs1(self.size.y as int),
            it.size.z == abs1(self.size.z as int),
    {
        Blocks { palette: &self.palette, blocks: &self.blocks, index: 0, size: self.size.abs() }
    }
}

/// Decomposing a linear cell index into a local position inverts the
/// row-major indexing rule: the position is in bounds and maps back to the
/// same index, so a cursor walk visits every cell of the grid exactly
/// once, in index order.
pub proof fn lemma_index_position_inverse(r: Region, idx: int)
    requires
        r.wf(),
        0 <= idx < spec_volume(r.size),
    ensures
        r.in_bounds(
            spec_pos_of_index(
                BlockPos {
                    x: abs1(r.size.x as int) as i32,
                    y: abs1(r.size.y as int) as i32,
                    z: abs1(r.size.z as int) as i32,
                },
                idx,
            ),
        ),
        r.spec_index_of(
            spec_pos_of_index(
                BlockPos {
                    x: abs1(r.size.x as int) as i32,
                    y: abs1(r.size.y as int) as i32,
                    z: abs1(r.size.z as int) as i32,
                },
                idx,
            ),
        ) == idx,
{
    let sx = abs1(r.size.x as int);
    let sy = abs1(r.size.y as int);
    let sz = abs1(r.size.z as int);
    assert(sx >= 1 && sy >= 1 && sz >= 1) by (nonlinear_arith)
        requires
            sx * sy * sz > idx >= 0,
            sx >= 0,
            sy >= 0,
            sz >= 0,
    ;
    let x = idx % sx;
    let q = idx / sx;
    let z = q % sz;
    let y0 = q / sz;
    vstd::arithmetic::div_mod::lemma_fundamental_div_mod(idx, sx);
    vstd::arithmetic::div_mod::lemma_mod_division_less_than_divisor(idx, sx);
    vstd::arithmetic::div_mod::lemma_fundamental_div_mod(q, sz);
    vstd::arithmetic::div_mod::lemma_mod_division_less_than_divisor(q, sz);
    vstd::arithmetic::div_mod::lemma_div_pos_is_pos(idx, sx);
    vstd::arithmetic::div_mod::lemma_div_pos_is_pos(q, sz);
    assert(idx < sx * (sy * sz)) by (nonlinear_arith)
        requires
            idx < sx * sy * sz,
    ;
    vstd::arithmetic::div_mod::lemma_multiply_divide_lt(idx, sx, sy * sz);
    assert(q < sz * sy) by (nonlinear_arith)
        requires
            q < sy * sz,
    ;
    vstd::arithmetic::div_mod::lemma_multiply_divide_lt(q, sz, sy);
    vstd::arithmetic::div_mod::lemma_small_mod(y0 as nat, sy as nat);
    assert(x + y0 * sx * sz + z * sx == idx) by (nonlinear_arith)
        requires
            idx == sx * q + x,
            q == sz * y0 + z,
    ;
}

/// The round-trip law for one region: the wire shape of any well-formed
/// region passes every decoding check, and whatever region is decoded from
/// it holds the same block value at every in-bounds position and the same
/// entities, block entities, ticks, geometry and palette as the original.
pub proof fn lemma_region_roundtrip_exact(reg: Region, raw: schema::Region, dec: Region)
    requires
        reg.wf(),
        raw_matches_region(raw, reg),
        region_matches_raw(dec, raw, dec.name),
    ensures
        raw_region_ok(raw),
        dec.position == reg.position,
        dec.size == reg.size,
        dec.palette == reg.palette,
        dec.block_entities == reg.block_entities,
        dec.entities == reg.entities,
        dec.pending_block_ticks == reg.pending_block_ticks,
        dec.pending_fluid_ticks == reg.pending_fluid_ticks,
        dec.spec_indices() =~= reg.spec_indices(),
        forall|pos: BlockPos| reg.in_bounds(pos) ==> dec.block_model_at(pos) == reg.block_model_at(pos),
{
    lemma_region_roundtrip(reg);
    assert(raw_nbits(raw) == reg.spec_num_bits());
    assert(raw_complete(raw));
    assert forall|i: int|
        0 <= i < spec_volume(raw.size) implies packing::chunk_val(
        raw.block_states@,
        raw_nbits(raw),
        i,
    ) < raw.block_state_palette@.len() by {
        assert(packing::chunk_val(raw.block_states@, raw_nbits(raw), i) == reg.spec_indices()[i]);
    }
    assert(raw_region_ok(raw));
    assert forall|i: int|
        0 <= i < reg.spec_indices().len() implies dec.spec_indices()[i] == reg.spec_indices()[i] by {
        assert(dec.spec_indices()[i] == packing::chunk_val(raw.block_states@, raw_nbits(raw), i));
    }
    assert(dec.spec_indices() =~= reg.spec_indices());
    assert forall|pos: BlockPos| reg.in_bounds(pos) implies dec.block_model_at(pos)
        == reg.block_model_at(pos) by {
        lemma_linear_index_bounds(
            abs1(reg.size.x as int),
            abs1(reg.size.y as int),
            abs1(reg.size.z as int),
            pos.x as int,
            pos.y as int,
            pos.z as int,
        );
    }
}

/// Converting a local position to global coordinates and back returns the
/// position unchanged, and lands inside the respective bounds, for every
/// well-formed region, whether its size components are positive or
/// negative.
pub proof fn lemma_coordinate_symmetry(r: Region, pos: BlockPos)
    requires
        r.wf(),
        r.in_bounds(pos),
    ensures
        r.in_global_bounds(r.pos_to_global_spec(pos)),
        r.pos_from_global_spec(r.pos_to_global_spec(pos)) == pos,
{
}

} // verus!
