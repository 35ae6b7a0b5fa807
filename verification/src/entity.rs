//! Free-standing entities and position-keyed block entities.
//!
//! Both carry an opaque NBT payload that the library round-trips
//! unchanged. A block entity's local position is an implicit key: a region
//! keeps at most one block entity per position. An entity's position is an
//! attribute inside its payload, not a key.

use crate::vec3::BlockPos;
use vstd::prelude::*;

verus! {

/// A free-standing entity: an identifier, a 128-bit unique id, and an
/// opaque bag of named payload values.
#[derive(Debug, Clone, PartialEq)]
pub struct Entity {
    /// The namespaced entity identifier.
    pub id: String,
    /// The 128-bit unique id of this entity instance.
    pub uuid: u128,
    /// The remaining named payload values, carried through unchanged.
    pub properties: Vec<(String, fastnbt::Value)>,
}

/// A block entity: an opaque payload attached to one local cell position.
#[derive(Debug, Clone, PartialEq)]
pub struct TileEntity {
    /// The local position this payload is keyed by.
    pub pos: BlockPos,
    /// The named payload values, carried through unchanged.
    pub properties: Vec<(String, fastnbt::Value)>,
}

} // verus!
