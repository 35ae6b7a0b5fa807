//! Block values: the entries a region's palette holds.
//!
//! A block state is a namespaced name plus an optional list of property
//! key/value pairs. Two block states stand for the same block exactly when
//! their names and property lists agree by value; the palette deduplicates
//! against that equality.

use vstd::prelude::*;

verus! {

/// The ghost shape of a block state: its name and optional property list,
/// as character sequences.
pub struct BlockStateModel {
    pub name: Seq<char>,
    pub properties: Option<Seq<(Seq<char>, Seq<char>)>>,
}

/// A block value: a namespaced name (such as `minecraft:stone`) plus an
/// optional list of property key/value pairs.
#[derive(Debug, Clone, PartialEq, Eq)]
pub struct BlockState {
    /// The namespaced block name.
    pub name: String,
    /// The property key/value pairs, if the block has any.
    pub properties: Option<Vec<(String, String)>>,
}

/// The ghost pair of one property entry.
pub open spec fn prop_model(p: (String, String)) -> (Seq<char>, Seq<char>) {
    (p.0@, p.1@)
}

impl View for BlockState {
    type V = BlockStateModel;

    open spec fn view(&self) -> BlockStateModel {
        BlockStateModel {
            name: self.name@,
            properties: match self.properties {
                Option::Some(ps) => Option::Some(ps@.map_values(|p: (String, String)| prop_model(p))),
                Option::None => Option::None,
            },
        }
    }
}

/// The name of the empty block value that palette index 0 always stands
/// for.
pub open spec fn air_name() -> Seq<char> {
    "minecraft:air"@
}

impl BlockState {
    /// The empty ("air") block value: the value every newly allocated cell
    /// holds.
    pub fn air() -> (r: BlockState)
        ensures
            r@.name == air_name(),
            r@.properties is None,
    {
        BlockState { name: "minecraft:air".to_owned(), properties: None }
    }

    /// A block value with the given name and no properties.
    pub fn named(name: &str) -> (r: BlockState)
        ensures
            r@.name == name@,
            r@.properties is None,
    {
        BlockState { name: name.to_owned(), properties: None }
    }

    /// Whether `self` and `other` are the same block value: equal names and
    /// equal property lists.
    pub fn same_state(&self, other: &BlockState) -> (r: bool)
        ensures
            r == (self@ == other@),
    {
        if !(self.name == other.name) {
            return false;
        }
        match (&self.properties, &other.properties) {
            (Option::None, Option::None) => true,
            (Option::Some(a), Option::Some(b)) => props_eq(a, b),
            _ => false,
        }
    }
}

/// Whether two property lists agree entry for entry.
fn props_eq(a: &Vec<(String, String)>, b: &Vec<(String, String)>) -> (r: bool)
    ensures
        r == (a@.map_values(|p: (String, String)| prop_model(p)) == b@.map_values(
            |p: (String, String)| prop_model(p),
        )),
{
    let ghost ma = a@.map_values(|p: (String, String)| prop_model(p));
    let ghost mb = b@.map_values(|p: (String, String)| prop_model(p));
    if a.len() != b.len() {
        assert(ma.len() != mb.len());
        return false;
    }
    let mut i: usize = 0;
    while i < a.len()
        invariant
            0 <= i <= a@.len(),
            a@.len() == b@.len(),
            ma == a@.map_values(|p: (String, String)| prop_model(p)),
            mb == b@.map_values(|p: (String, String)| prop_model(p)),
            forall|k: int| 0 <= k < i ==> ma[k] == mb[k],
        decreases a@.len() - i,
    {
        proof {
            assert(ma[i as int] == prop_model(a@[i as int]));
            assert(mb[i as int] == prop_model(b@[i as int]));
        }
        if !(a[i].0 == b[i].0) || !(a[i].1 == b[i].1) {
            assert(ma[i as int] != mb[i as int]);
            return false;
        }
        assert(ma[i as int] == mb[i as int]);
        i = i + 1;
    }
    assert(ma =~= mb);
    true
}

} // verus!
