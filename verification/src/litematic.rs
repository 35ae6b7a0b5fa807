//! The schematic container: an ordered list of regions plus metadata.
//!
//! The metadata's counting fields (region count, total volume, total
//! blocks, enclosing size) are derived: they are recomputed from the
//! regions at conversion-to-wire time and never act as a source of truth.
//! The modified timestamp is refreshed on every conversion to the wire
//! shape.

use crate::error::Error;
use crate::region::count_nonzero;
use crate::region::raw_region_ok;
use crate::region::region_error_of;
use crate::region::raw_matches_region;
use crate::region::region_matches_raw;
use crate::region::spec_max_global;
use crate::region::spec_min_global;
use crate::region::Region;
use crate::schema;
use crate::util;
use crate::vec3::spec_volume;
use crate::vec3::BlockPos;
use crate::vec3::Cuboid;
use vstd::prelude::*;

verus! {

/// The container format version written by this library.
pub const SCHEMATIC_VERSION: i32 = 6;

/// The format sub-version written by this library.
pub const SCHEMATIC_VERSION_SUB: i32 = 1;

/// The game data version new schematics are tagged with.
pub const DEFAULT_DATA_VERSION: i32 = 2975;

/// The pixel count of a preview image: 140 by 140.
pub const PREVIEW_PIXELS: usize = 140 * 140;

/// Metadata of a schematic: names, format versions, timestamps, and an
/// optional fixed-size preview image.
#[derive(Debug, Clone, PartialEq)]
pub struct LitematicMetadata {
    /// The name of the schematic.
    pub name: String,
    /// The description of the schematic.
    pub description: String,
    /// The author of the schematic.
    pub author: String,
    /// The container format version the schematic was created with.
    pub version: i32,
    /// The optional format sub-version; absent in earlier format
    /// revisions.
    pub sub_version: Option<i32>,
    /// The numeric tag of the originating game data version.
    pub minecraft_data_version: i32,
    /// Creation time, milliseconds since the epoch.
    pub time_created: i64,
    /// Last-modified time, milliseconds since the epoch.
    pub time_modified: i64,
    /// The optional preview image, 140 by 140 ARGB pixels. Mutate only
    /// through [`Self::set_preview_image_data`], which keeps the fixed
    /// pixel count.
    pub preview_image: Option<Vec<i32>>,
}

/// A schematic: an ordered list of regions plus metadata.
#[derive(Debug, Clone, PartialEq)]
pub struct Litematic {
    /// The regions of this schematic.
    pub regions: Vec<Region>,
    /// The metadata of this schematic.
    pub metadata: LitematicMetadata,
}

/// The summed occupied-cell count of a region list.
pub open spec fn spec_total_blocks(regions: Seq<Region>) -> int
    decreases regions.len(),
{
    if regions.len() == 0 {
        0
    } else {
        spec_total_blocks(regions.drop_last()) + count_nonzero(regions.last().spec_indices())
    }
}

/// The summed volume of a region list.
pub open spec fn spec_total_volume(regions: Seq<Region>) -> int
    decreases regions.len(),
{
    if regions.len() == 0 {
        0
    } else {
        spec_total_volume(regions.drop_last()) + spec_volume(regions.last().size)
    }
}

/// The six folded global bounds of a region list, accumulated from an
/// all-zero seed: minimum and maximum for x, y and z in that order. With
/// zero regions the seed itself remains, which is why an empty container
/// reports an enclosing size of one on every axis rather than zero — the
/// reference behavior of the format, kept for compatibility.
pub open spec fn spec_bounds(regions: Seq<Region>) -> (int, int, int, int, int, int)
    decreases regions.len(),
{
    if regions.len() == 0 {
        (0, 0, 0, 0, 0, 0)
    } else {
        let b = spec_bounds(regions.drop_last());
        let r = regions.last();
        (
            vstd::math::min(b.0, spec_min_global(r.position.x as int, r.size.x as int)),
            vstd::math::max(b.1, spec_max_global(r.position.x as int, r.size.x as int)),
            vstd::math::min(b.2, spec_min_global(r.position.y as int, r.size.y as int)),
            vstd::math::max(b.3, spec_max_global(r.position.y as int, r.size.y as int)),
            vstd::math::min(b.4, spec_min_global(r.position.z as int, r.size.z as int)),
            vstd::math::max(b.5, spec_max_global(r.position.z as int, r.size.z as int)),
        )
    }
}

/// Every count of non-zero entries lies between 0 and the sequence length.
pub proof fn lemma_count_nonzero_bounds(s: Seq<usize>)
    ensures
        0 <= count_nonzero(s) <= s.len(),
    decreases s.len(),
{
    if s.len() > 0 {
        lemma_count_nonzero_bounds(s.drop_last());
    }
}

/// The folded bounds never shrink inside the seed: the minima stay at most
/// 0 and the maxima at least 0, so the enclosing span is always at least 1
/// on every axis.
pub proof fn lemma_bounds_contain_seed(regions: Seq<Region>)
    ensures
        spec_bounds(regions).0 <= 0 <= spec_bounds(regions).1,
        spec_bounds(regions).2 <= 0 <= spec_bounds(regions).3,
        spec_bounds(regions).4 <= 0 <= spec_bounds(regions).5,
    decreases regions.len(),
{
    if regions.len() > 0 {
        lemma_bounds_contain_seed(regions.drop_last());
    }
}

impl LitematicMetadata {
    /// Assemble metadata from the version fields and the wire metadata
    /// block of a document. The derived counting fields of the wire block
    /// are dropped: they are recomputed from the regions on every write.
    pub fn from_raw(
        version: i32,
        sub_version: Option<i32>,
        minecraft_data_version: i32,
        metadata: schema::Metadata,
    ) -> (r: LitematicMetadata)
        ensures
            r.name == metadata.name,
            r.description == metadata.description,
            r.author == metadata.author,
            r.version == version,
            r.sub_version == sub_version,
            r.minecraft_data_version == minecraft_data_version,
            r.time_created == metadata.time_created,
            r.time_modified == metadata.time_modified,
            r.preview_image == metadata.preview_image_data,
    {
        LitematicMetadata {
            name: metadata.name,
            description: metadata.description,
            author: metadata.author,
            version,
            sub_version,
            minecraft_data_version,
            time_created: metadata.time_created,
            time_modified: metadata.time_modified,
            preview_image: metadata.preview_image_data,
        }
    }

    /// The optional raw ARGB preview image data.
    pub fn preview_image_data(&self) -> (r: Option<&Vec<i32>>)
        ensures
            match r {
                Some(v) => self.preview_image == Some(*v),
                None => self.preview_image is None,
            },
    {
        self.preview_image.as_ref()
    }

    /// Set the preview image data, or clear it with `None`.
    ///
    /// Returns the previous image data if there was some. An image must
    /// hold exactly 140 by 140 pixels; any other length is caller misuse
    /// of the fixed-size contract and is excluded up front.
    pub fn set_preview_image_data(&mut self, data: Option<Vec<i32>>) -> (r: Option<Vec<i32>>)
        requires
            data matches Some(d) ==> d@.len() == PREVIEW_PIXELS,
        ensures
            final (self).preview_image == data,
            r == old(self).preview_image,
            final (self).name == old(self).name,
            final (self).description == old(self).description,
            final (self).author == old(self).author,
            final (self).version == old(self).version,
            final (self).sub_version == old(self).sub_version,
            final (self).minecraft_data_version == old(self).minecraft_data_version,
            final (self).time_created == old(self).time_created,
            final (self).time_modified == old(self).time_modified,
    {
        let mut tmp = data;
        core::mem::swap(&mut self.preview_image, &mut tmp);
        tmp
    }
}

impl Litematic {
    /// Whether every region of this schematic is well-formed.
    pub open spec fn wf(&self) -> bool {
        forall|i: int| 0 <= i < self.regions@.len() ==> self.regions@[i].wf()
    }

    /// Create a new, empty schematic with the given name, description, and
    /// author: no regions, the latest supported format version, and both
    /// timestamps set to the current time.
    pub fn new(name: String, description: String, author: String) -> (r: Litematic)
        ensures
            r.wf(),
            r.regions@ =~= Seq::<Region>::empty(),
            r.metadata.name == name,
            r.metadata.description == description,
            r.metadata.author == author,
            r.metadata.version == SCHEMATIC_VERSION,
            r.metadata.sub_version == Some(SCHEMATIC_VERSION_SUB),
            r.metadata.minecraft_data_version == DEFAULT_DATA_VERSION,
            r.metadata.time_created == r.metadata.time_modified,
            r.metadata.preview_image is None,
    {
        let now = util::current_time();
        Litematic {
            regions: Vec::new(),
            metadata: LitematicMetadata {
                name,
                description,
                author,
                version: SCHEMATIC_VERSION,
                sub_version: Some(SCHEMATIC_VERSION_SUB),
                minecraft_data_version: DEFAULT_DATA_VERSION,
                time_created: now,
                time_modified: now,
                preview_image: None,
            },
        }
    }

    /// The total number of occupied (non-empty) cells over all regions.
    pub fn total_blocks(&self) -> (r: i64)
        requires
            self.wf(),
            spec_total_blocks(self.regions@) <= i64::MAX,
        ensures
            r == spec_total_blocks(self.regions@),
    {
        let mut sum: i64 = 0;
        let mut i: usize = 0;
        while i < self.regions.len()
            invariant
                self.wf(),
                spec_total_blocks(self.regions@) <= i64::MAX,
                0 <= i <= self.regions@.len(),
                sum == spec_total_blocks(self.regions@.take(i as int)),
                0 <= sum,
            decreases self.regions@.len() - i,
        {
            let c = self.regions[i].total_blocks();
            proof {
                assert(self.regions@.take(i + 1).drop_last() =~= self.regions@.take(i as int));
                assert(self.regions@.take(i + 1).last() == self.regions@[i as int]);
                lemma_count_nonzero_bounds(self.regions@[i as int].spec_indices());
                lemma_total_blocks_prefix_bound(self.regions@, i as int + 1);
            }
            sum = sum + c as i64;
            i = i + 1;
        }
        proof {
            assert(self.regions@.take(self.regions@.len() as int) =~= self.regions@);
        }
        sum
    }

    /// The total volume of all regions combined: the sum of each region's
    /// own volume, not the volume of the enclosing box.
    pub fn total_volume(&self) -> (r: i32)
        requires
            self.wf(),
            spec_total_volume(self.regions@) <= i32::MAX,
        ensures
            r == spec_total_volume(self.regions@),
    {
        let mut sum: i32 = 0;
        let mut i: usize = 0;
        while i < self.regions.len()
            invariant
                self.wf(),
                spec_total_volume(self.regions@) <= i32::MAX,
                0 <= i <= self.regions@.len(),
                sum == spec_total_volume(self.regions@.take(i as int)),
                0 <= sum,
            decreases self.regions@.len() - i,
        {
            let v = self.regions[i].size.volume();
            proof {
                assert(self.regions@.take(i + 1).drop_last() =~= self.regions@.take(i as int));
                assert(self.regions@.take(i + 1).last() == self.regions@[i as int]);
                lemma_total_volume_prefix_bound(self.regions@, i as int + 1);
            }
            sum = sum + v as i32;
            i = i + 1;
        }
        proof {
            assert(self.regions@.take(self.regions@.len() as int) =~= self.regions@);
        }
        sum
    }

    /// The box enclosing all regions, folded from an all-zero seed. With
    /// zero regions the seed yields a box of size one per axis.
    pub fn enclosing_box(&self) -> (r: Cuboid)
        requires
            self.wf(),
            spec_bounds(self.regions@).1 - spec_bounds(self.regions@).0 < i32::MAX,
            spec_bounds(self.regions@).3 - spec_bounds(self.regions@).2 < i32::MAX,
            spec_bounds(self.regions@).5 - spec_bounds(self.regions@).4 < i32::MAX,
        ensures
            r.origin.x == spec_bounds(self.regions@).0,
            r.origin.y == spec_bounds(self.regions@).2,
            r.origin.z == spec_bounds(self.regions@).4,
            r.size.x == spec_bounds(self.regions@).1 - spec_bounds(self.regions@).0 + 1,
            r.size.y == spec_bounds(self.regions@).3 - spec_bounds(self.regions@).2 + 1,
            r.size.z == spec_bounds(self.regions@).5 - spec_bounds(self.regions@).4 + 1,
            r.size.x >= 1 && r.size.y >= 1 && r.size.z >= 1,
    {
        let mut min_x: i32 = 0;
        let mut max_x: i32 = 0;
        let mut min_y: i32 = 0;
        let mut max_y: i32 = 0;
        let mut min_z: i32 = 0;
        let mut max_z: i32 = 0;
        let mut i: usize = 0;
        while i < self.regions.len()
            invariant
                self.wf(),
                0 <= i <= self.regions@.len(),
                min_x == spec_bounds(self.regions@.take(i as int)).0,
                max_x == spec_bounds(self.regions@.take(i as int)).1,
                min_y == spec_bounds(self.regions@.take(i as int)).2,
                max_y == spec_bounds(self.regions@.take(i as int)).3,
                min_z == spec_bounds(self.regions@.take(i as int)).4,
                max_z == spec_bounds(self.regions@.take(i as int)).5,
            decreases self.regions@.len() - i,
        {
            proof {
                assert(self.regions@.take(i + 1).drop_last() =~= self.regions@.take(i as int));
                assert(self.regions@.take(i + 1).last() == self.regions@[i as int]);
            }
            let region = &self.regions[i];
            let mgx = region.min_global_x();
            let mgy = region.min_global_y();
            let mgz = region.min_global_z();
            let xgx = region.max_global_x();
            let xgy = region.max_global_y();
            let xgz = region.max_global_z();
            if mgx < min_x {
                min_x = mgx;
            }
            if xgx > max_x {
                max_x = xgx;
            }
            if mgy < min_y {
                min_y = mgy;
            }
            if xgy > max_y {
                max_y = xgy;
            }
            if mgz < min_z {
                min_z = mgz;
            }
            if xgz > max_z {
                max_z = xgz;
            }
            i = i + 1;
        }
        proof {
            assert(self.regions@.take(self.regions@.len() as int) =~= self.regions@);
            lemma_bounds_contain_seed(self.regions@);
        }
        Cuboid {
            origin: BlockPos { x: min_x, y: min_y, z: min_z },
            size: BlockPos { x: max_x - min_x + 1, y: max_y - min_y + 1, z: max_z - min_z + 1 },
        }
    }

    /// The size of the box enclosing all regions.
    pub fn enclosing_size(&self) -> (r: BlockPos)
        requires
            self.wf(),
            spec_bounds(self.regions@).1 - spec_bounds(self.regions@).0 < i32::MAX,
            spec_bounds(self.regions@).3 - spec_bounds(self.regions@).2 < i32::MAX,
            spec_bounds(self.regions@).5 - spec_bounds(self.regions@).4 < i32::MAX,
        ensures
            r.x == spec_bounds(self.regions@).1 - spec_bounds(self.regions@).0 + 1,
            r.y == spec_bounds(self.regions@).3 - spec_bounds(self.regions@).2 + 1,
            r.z == spec_bounds(self.regions@).5 - spec_bounds(self.regions@).4 + 1,
    {
        self.enclosing_box().size
    }
}

impl Litematic {
    /// Convert this schematic into its wire shape: the derived metadata
    /// fields (region count, totals, enclosing size) are recomputed from
    /// the regions, the modified timestamp is refreshed, and every region
    /// is packed.
    pub fn to_raw(self) -> (r: schema::Litematic)
        requires
            self.wf(),
            self.regions@.len() <= i32::MAX,
            spec_total_blocks(self.regions@) <= i64::MAX,
            spec_total_volume(self.regions@) <= i32::MAX,
            spec_bounds(self.regions@).1 - spec_bounds(self.regions@).0 < i32::MAX,
            spec_bounds(self.regions@).3 - spec_bounds(self.regions@).2 < i32::MAX,
            spec_bounds(self.regions@).5 - spec_bounds(self.regions@).4 < i32::MAX,
            forall|i: int|
                0 <= i < self.regions@.len() ==> spec_volume(self.regions@[i].size)
                    * self.regions@[i].spec_num_bits() + 63 <= usize::MAX,
        ensures
            r.version == self.metadata.version,
            r.sub_version == self.metadata.sub_version,
            r.minecraft_data_version == self.metadata.minecraft_data_version,
            r.metadata.name == self.metadata.name,
            r.metadata.description == self.metadata.description,
            r.metadata.author == self.metadata.author,
            r.metadata.region_count == self.regions@.len(),
            r.metadata.total_blocks == spec_total_blocks(self.regions@),
            r.metadata.total_volume == spec_total_volume(self.regions@),
            r.metadata.time_created == self.metadata.time_created,
            r.metadata.enclosing_size.x == spec_bounds(self.regions@).1 - spec_bounds(
                self.regions@,
            ).0 + 1,
            r.metadata.enclosing_size.y == spec_bounds(self.regions@).3 - spec_bounds(
                self.regions@,
            ).2 + 1,
            r.metadata.enclosing_size.z == spec_bounds(self.regions@).5 - spec_bounds(
                self.regions@,
            ).4 + 1,
            r.metadata.preview_image_data == self.metadata.preview_image,
            r.regions@.len() == self.regions@.len(),
            forall|i: int|
                0 <= i < r.regions@.len() ==> r.regions@[i].0 == self.regions@[i].name
                    && raw_matches_region(r.regions@[i].1, self.regions@[i]),
    {
        let region_count = self.regions.len() as i32;
        let total_blocks = self.total_blocks();
        let total_volume = self.total_volume();
        let enclosing_size = self.enclosing_size();
        let now = util::current_time();
        let mut raw_regions: Vec<(String, schema::Region)> = Vec::new();
        let mut regs = self.regions;
        let ghost orig = regs@;
        while regs.len() > 0
            invariant
                raw_regions@.len() + regs@.len() == orig.len(),
                regs@ =~= orig.skip(raw_regions@.len() as int),
                forall|k: int| 0 <= k < orig.len() ==> orig[k].wf(),
                forall|k: int|
                    0 <= k < orig.len() ==> spec_volume(orig[k].size) * orig[k].spec_num_bits() + 63
                        <= usize::MAX,
                forall|k: int|
                    0 <= k < raw_regions@.len() ==> raw_regions@[k].0 == orig[k].name
                        && raw_matches_region(raw_regions@[k].1, orig[k]),
            decreases regs@.len(),
        {
            let ghost done = raw_regions@.len() as int;
            let reg = regs.remove(0);
            proof {
                assert(reg == orig[done]);
                assert(regs@ =~= orig.skip(done + 1));
            }
            let nm = reg.name.clone();
            let rr = reg.to_raw();
            raw_regions.push((nm, rr));
        }
        schema::Litematic {
            regions: raw_regions,
            minecraft_data_version: self.metadata.minecraft_data_version,
            version: self.metadata.version,
            sub_version: self.metadata.sub_version,
            metadata: schema::Metadata {
                name: self.metadata.name,
                author: self.metadata.author,
                description: self.metadata.description,
                region_count,
                total_volume,
                total_blocks,
                time_created: self.metadata.time_created,
                time_modified: now,
                enclosing_size,
                preview_image_data: self.metadata.preview_image,
            },
        }
    }

    /// Construct a schematic from a wire document's regions and existing
    /// metadata. Every region must decode; the first region that does not
    /// rejects the whole document with its own error — no partial
    /// schematic is returned.
    pub fn from_raw(raw: schema::Litematic, metadata: LitematicMetadata) -> (r: Result<
        Litematic,
        Error,
    >)
        requires
            forall|i: int|
                0 <= i < raw.regions@.len() ==> raw.regions@[i].1.block_states@.len() * 64
                    <= usize::MAX,
        ensures
            r is Ok <==> (forall|i: int|
                0 <= i < raw.regions@.len() ==> raw_region_ok(raw.regions@[i].1)),
            match r {
                Ok(lit) => {
                    &&& lit.wf()
                    &&& lit.metadata == metadata
                    &&& lit.regions@.len() == raw.regions@.len()
                    &&& forall|i: int|
                        0 <= i < lit.regions@.len() ==> region_matches_raw(
                            lit.regions@[i],
                            raw.regions@[i].1,
                            raw.regions@[i].0,
                        )
                },
                Err(e) => exists|i: int|
                    {
                        &&& 0 <= i < raw.regions@.len()
                        &&& !raw_region_ok(raw.regions@[i].1)
                        &&& (forall|j: int| 0 <= j < i ==> raw_region_ok(raw.regions@[j].1))
                        &&& e == Error::InvalidRegion(region_error_of(raw.regions@[i].1))
                    },
            },
    {
        let mut regions: Vec<Region> = Vec::new();
        let ghost orig = raw.regions@;
        let mut pairs = raw.regions;
        while pairs.len() > 0
            invariant
                orig == raw.regions@,
                regions@.len() + pairs@.len() == orig.len(),
                pairs@ =~= orig.skip(regions@.len() as int),
                forall|k: int| 0 <= k < orig.len() ==> orig[k].1.block_states@.len() * 64
                    <= usize::MAX,
                forall|k: int| 0 <= k < regions@.len() ==> raw_region_ok(orig[k].1),
                forall|k: int|
                    0 <= k < regions@.len() ==> region_matches_raw(
                        regions@[k],
                        orig[k].1,
                        orig[k].0,
                    ),
            decreases pairs@.len(),
        {
            let ghost done = regions@.len() as int;
            let pair = pairs.remove(0);
            proof {
                assert(pair == orig[done]);
                assert(pairs@ =~= orig.skip(done + 1));
            }
            let (nm, rr) = pair;
            match Region::from_raw(rr, nm) {
                Ok(reg) => {
                    regions.push(reg);
                },
                Err(e) => {
                    proof {
                        assert(0 <= done < raw.regions@.len());
                        assert(!raw_region_ok(raw.regions@[done].1));
                        assert(forall|j: int| 0 <= j < done ==> raw_region_ok(raw.regions@[j].1));
                        assert(e == Error::InvalidRegion(region_error_of(raw.regions@[done].1)));
                    }
                    return Err(e);
                },
            }
        }
        Ok(Litematic { regions, metadata })
    }
}

/// The round-trip law for a whole schematic: take any well-formed
/// schematic, its wire shape (as the conversion to the wire produces it),
/// and any schematic decoded back from that wire shape. Then every
/// region is reproduced — name, geometry, palette, block entities,
/// entities, ticks, and the block value at every in-bounds position. The
/// metadata is carried through decoding unchanged; only the modified
/// timestamp advances, at the moment the wire shape is produced.
pub proof fn lemma_container_roundtrip(lit: Litematic, raw: schema::Litematic, dec: Litematic)
    requires
        lit.wf(),
        raw.regions@.len() == lit.regions@.len(),
        forall|i: int|
            0 <= i < raw.regions@.len() ==> raw.regions@[i].0 == lit.regions@[i].name
                && raw_matches_region(raw.regions@[i].1, lit.regions@[i]),
        dec.regions@.len() == raw.regions@.len(),
        forall|i: int|
            0 <= i < dec.regions@.len() ==> region_matches_raw(
                dec.regions@[i],
                raw.regions@[i].1,
                raw.regions@[i].0,
            ),
    ensures
        dec.regions@.len() == lit.regions@.len(),
        forall|i: int|
            0 <= i < lit.regions@.len() ==> {
                &&& dec.regions@[i].name == lit.regions@[i].name
                &&& dec.regions@[i].position == lit.regions@[i].position
                &&& dec.regions@[i].size == lit.regions@[i].size
                &&& dec.regions@[i].palette == lit.regions@[i].palette
                &&& dec.regions@[i].block_entities == lit.regions@[i].block_entities
                &&& dec.regions@[i].entities == lit.regions@[i].entities
                &&& dec.regions@[i].pending_block_ticks == lit.regions@[i].pending_block_ticks
                &&& dec.regions@[i].pending_fluid_ticks == lit.regions@[i].pending_fluid_ticks
                &&& forall|pos: BlockPos|
                    lit.regions@[i].in_bounds(pos) ==> dec.regions@[i].block_model_at(pos)
                        == lit.regions@[i].block_model_at(pos)
            },
{
    assert forall|i: int|
        0 <= i < lit.regions@.len() implies {
        &&& dec.regions@[i].name == lit.regions@[i].name
        &&& dec.regions@[i].position == lit.regions@[i].position
        &&& dec.regions@[i].size == lit.regions@[i].size
        &&& dec.regions@[i].palette == lit.regions@[i].palette
        &&& dec.regions@[i].block_entities == lit.regions@[i].block_entities
        &&& dec.regions@[i].entities == lit.regions@[i].entities
        &&& dec.regions@[i].pending_block_ticks == lit.regions@[i].pending_block_ticks
        &&& dec.regions@[i].pending_fluid_ticks == lit.regions@[i].pending_fluid_ticks
        &&& forall|pos: BlockPos|
            lit.regions@[i].in_bounds(pos) ==> dec.regions@[i].block_model_at(pos)
                == lit.regions@[i].block_model_at(pos)
    } by {
        crate::region::lemma_region_roundtrip_exact(
            lit.regions@[i],
            raw.regions@[i].1,
            dec.regions@[i],
        );
    }
}

/// A prefix sum of occupied-cell counts never exceeds the whole sum.
pub proof fn lemma_total_blocks_prefix_bound(regions: Seq<Region>, i: int)
    requires
        0 <= i <= regions.len(),
    ensures
        spec_total_blocks(regions.take(i)) <= spec_total_blocks(regions),
    decreases regions.len() - i,
{
    if i == regions.len() {
        assert(regions.take(i) =~= regions);
    } else {
        lemma_total_blocks_prefix_bound(regions, i + 1);
        assert(regions.take(i + 1).drop_last() =~= regions.take(i));
        assert(regions.take(i + 1).last() == regions[i]);
        lemma_count_nonzero_bounds(regions[i].spec_indices());
    }
}

/// A prefix sum of volumes never exceeds the whole sum.
pub proof fn lemma_total_volume_prefix_bound(regions: Seq<Region>, i: int)
    requires
        0 <= i <= regions.len(),
        forall|k: int| 0 <= k < regions.len() ==> regions[k].wf(),
    ensures
        spec_total_volume(regions.take(i)) <= spec_total_volume(regions),
    decreases regions.len() - i,
{
    if i == regions.len() {
        assert(regions.take(i) =~= regions);
    } else {
        lemma_total_volume_prefix_bound(regions, i + 1);
        assert(regions.take(i + 1).drop_last() =~= regions.take(i));
        assert(regions.take(i + 1).last() == regions[i]);
    }
}

} // verus!
