//! The wire schema: the exact structural shape that the tag-tree codec
//! serializes.
//!
//! These structs mirror the versioned file format field for field. The
//! packed index stream is held as 64-bit words; the wire stores the same
//! bit patterns as signed 64-bit integers. The serialization layer outside
//! the verified core maps these structs one-to-one onto NBT documents.

use crate::block_state::BlockState;
use crate::entity::Entity;
use crate::entity::TileEntity;
use crate::vec3::BlockPos;
use vstd::prelude::*;

verus! {

/// A pending scheduled block update: the block name it concerns, its
/// priority and timing fields, and the local position it applies to.
#[derive(Debug, Clone, PartialEq, Eq)]
pub struct PendingBlockTick {
    /// The namespaced name of the block the tick concerns.
    pub block: String,
    /// The scheduling priority.
    pub priority: i32,
    /// The sub-tick ordering value.
    pub sub_tick: i64,
    /// The scheduled time.
    pub time: i32,
    /// The local x coordinate.
    pub x: i32,
    /// The local y coordinate.
    pub y: i32,
    /// The local z coordinate.
    pub z: i32,
}

/// A pending scheduled fluid update, shaped like a block tick but naming a
/// fluid.
#[derive(Debug, Clone, PartialEq, Eq)]
pub struct PendingFluidTick {
    /// The namespaced name of the fluid the tick concerns.
    pub fluid: String,
    /// The scheduling priority.
    pub priority: i32,
    /// The sub-tick ordering value.
    pub sub_tick: i64,
    /// The scheduled time.
    pub time: i32,
    /// The local x coordinate.
    pub x: i32,
    /// The local y coordinate.
    pub y: i32,
    /// The local z coordinate.
    pub z: i32,
}

/// The wire shape of one region: signed position and size, the ordered
/// block-value palette, the packed index stream, and the auxiliary record
/// lists.
#[derive(Debug, Clone, PartialEq)]
pub struct Region {
    /// The region's anchor position in the schematic's global space.
    pub position: BlockPos,
    /// The region's signed size.
    pub size: BlockPos,
    /// The ordered list of distinct block values cells refer to.
    pub block_state_palette: Vec<BlockState>,
    /// The packed palette-index stream, 64 bits per word, low bit first.
    /// The wire stores these words as signed 64-bit integers with the same
    /// bit patterns.
    pub block_states: Vec<u64>,
    /// The block-entity records of this region.
    pub tile_entities: Vec<TileEntity>,
    /// The entity records of this region; omittable on the wire when
    /// empty.
    pub entities: Vec<Entity>,
    /// The pending block ticks; omittable on the wire when empty.
    pub pending_block_ticks: Vec<PendingBlockTick>,
    /// The pending fluid ticks; omittable on the wire when empty.
    pub pending_fluid_ticks: Vec<PendingFluidTick>,
}

/// The wire shape of the metadata block. The counting fields are derived
/// from the regions and recomputed on every write.
#[derive(Debug, Clone, PartialEq)]
pub struct Metadata {
    /// The schematic's name.
    pub name: String,
    /// The schematic's author.
    pub author: String,
    /// The schematic's description.
    pub description: String,
    /// The number of regions; derived.
    pub region_count: i32,
    /// The summed volume of all regions; derived.
    pub total_volume: i32,
    /// The summed non-empty cell count of all regions; derived.
    pub total_blocks: i64,
    /// Creation time, milliseconds since the epoch.
    pub time_created: i64,
    /// Last-modified time, milliseconds since the epoch; refreshed on
    /// every write.
    pub time_modified: i64,
    /// The size of the box enclosing all regions; derived.
    pub enclosing_size: BlockPos,
    /// An optional 140 by 140 preview image, one ARGB value per pixel.
    pub preview_image_data: Option<Vec<i32>>,
}

/// The wire shape of a whole schematic document: the named regions, the
/// format version fields, and the metadata block.
#[derive(Debug, Clone, PartialEq)]
pub struct Litematic {
    /// The regions, each under its name.
    pub regions: Vec<(String, Region)>,
    /// The numeric tag of the originating game data version.
    pub minecraft_data_version: i32,
    /// The container format version.
    pub version: i32,
    /// The optional format sub-version; absent in earlier revisions of the
    /// format.
    pub sub_version: Option<i32>,
    /// The metadata block.
    pub metadata: Metadata,
}

} // verus!
