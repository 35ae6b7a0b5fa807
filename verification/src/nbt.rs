//! Declaration of the opaque NBT payload type.
//!
//! Entity and block-entity records carry an open-ended bag of named, typed
//! values that only the external block/entity type system understands. The
//! library stores and moves those payloads unchanged and never looks
//! inside them.

use vstd::prelude::*;

verus! {

/// Declares `fastnbt::Value`, the tag-tree value type of the NBT codec, as
/// an opaque type: the library carries such values through but never
/// inspects them.
#[verifier::external_type_specification]
#[verifier::external_body]
pub struct ExNbtValue(fastnbt::Value);

} // verus!
