//! An in-memory model and codec for litematica-style voxel schematics:
//! named, positioned regions of palette-indexed block states, bit-packed
//! into a versioned wire schema, together with container-wide metadata.
//!
//! The crate is organised bottom-up: [`vec3`] holds the signed coordinate
//! model, [`packing`] the variable-width bit codec, [`block_state`] the
//! block value model, [`schema`] the wire-shaped structs, and [`region`] /
//! [`litematic`] the mutable region grid and the schematic container.
//! Serialization of the wire structs to NBT bytes, gzip, and file handling
//! live outside the verified core, which exposes the exact packing and
//! conversion logic they rely on.

pub mod block_state;
pub mod entity;
pub mod error;
pub mod litematic;
pub mod nbt;
pub mod packing;
pub mod region;
pub mod schema;
pub mod util;
pub mod vec3;

pub use block_state::BlockState;
pub use entity::Entity;
pub use entity::TileEntity;
pub use error::Error;
pub use litematic::Litematic;
pub use litematic::LitematicMetadata;
pub use region::Blocks;
pub use region::Region;
pub use schema::PendingBlockTick;
pub use schema::PendingFluidTick;
pub use vec3::BlockPos;
pub use vec3::Cuboid;
