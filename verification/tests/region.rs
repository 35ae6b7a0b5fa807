use fastnbt::Value;
use rustmatica::BlockPos;
use rustmatica::BlockState;
use rustmatica::Error;
use rustmatica::Region;
use rustmatica::TileEntity;
use rustmatica::error::RegionDecodeError;
use rustmatica::schema;

fn pos(x: i32, y: i32, z: i32) -> BlockPos {
    BlockPos::new(x, y, z)
}

fn raw_region(
    position: BlockPos,
    size: BlockPos,
    palette_len: usize,
    block_states: Vec<u64>,
) -> schema::Region {
    let mut palette = vec![BlockState::air()];
    for i in 1..palette_len {
        palette.push(BlockState::named(&format!("minecraft:block{}", i)));
    }
    palette.truncate(palette_len);
    schema::Region {
        position,
        size,
        block_state_palette: palette,
        block_states,
        tile_entities: vec![],
        entities: vec![],
        pending_block_ticks: vec![],
        pending_fluid_ticks: vec![],
    }
}

#[test]
fn pack_unpack_region() {
    // A 2x2x2 region with a 5-entry palette must use 3 bits per entry;
    // packing all 8 cells and unpacking them returns the original indices.
    let mut region = Region::new("cube".to_owned(), pos(0, 0, 0), pos(2, 2, 2));
    let states: Vec<BlockState> = vec![
        BlockState::air(),
        BlockState::named("minecraft:stone"),
        BlockState::named("minecraft:dirt"),
        BlockState::named("minecraft:diamond_block"),
        BlockState::named("minecraft:gold_block"),
    ];
    // Linear index is x + y*4 + z*2; choose indices [0,1,2,3,4,0,1,2].
    let wanted: [usize; 8] = [0, 1, 2, 3, 4, 0, 1, 2];
    for (linear, &id) in wanted.iter().enumerate() {
        let p = pos((linear % 2) as i32, (linear / 4) as i32, (linear / 2 % 2) as i32);
        region.set_block(p, states[id].clone());
    }
    assert_eq!(region.num_bits(), 3);
    assert_eq!(region.block_palette().len(), 5);

    let raw = region.clone().to_raw();
    assert_eq!(raw.block_states, vec![4474504u64]);
    let back = Region::from_raw(raw, "cube".to_owned()).unwrap();
    for linear in 0..8usize {
        let p = pos((linear % 2) as i32, (linear / 4) as i32, (linear / 2 % 2) as i32);
        assert_eq!(back.get_block(p), region.get_block(p));
        assert_eq!(back.get_block(p), &states[wanted[linear]]);
    }
}

#[test]
fn negative_size() {
    // position (0,0,0), size (-2,3,3): global x-range [-1,0], local [0,1].
    let region = Region::new("negative".to_owned(), pos(0, 0, 0), pos(-2, 3, 3));
    assert_eq!(region.min_global_x(), -1);
    assert_eq!(region.max_global_x(), 0);
    assert_eq!(region.global_x_range(), -1..=0);
    assert_eq!(region.x_range(), 0..=1);
    assert_eq!(region.min_global_y(), 0);
    assert_eq!(region.max_global_y(), 2);
}

#[test]
fn coordinate_symmetry() {
    let region = Region::new("sym".to_owned(), pos(4, -7, 10), pos(-3, 5, -2));
    for x in 0..3 {
        for y in 0..5 {
            for z in 0..2 {
                let p = pos(x, y, z);
                let g = region.pos_to_global(p);
                assert!(region.is_in_global_bounds(g));
                assert_eq!(region.pos_from_global(g), p);
            }
        }
    }
}

#[test]
fn bounds_symmetry() {
    // The non-panicking accessors return a value exactly where the
    // panicking ones accept the position.
    let mut region = Region::new("bounds".to_owned(), pos(0, 0, 0), pos(2, -2, 2));
    let inside = pos(1, 1, 1);
    let outside = pos(2, 0, 0);
    assert!(region.is_in_bounds(inside));
    assert!(!region.is_in_bounds(outside));
    assert!(region.get_block_opt(inside).is_some());
    assert!(region.get_block_opt(outside).is_none());
    assert!(region.set_block_opt(inside, BlockState::named("minecraft:stone")));
    assert!(!region.set_block_opt(outside, BlockState::named("minecraft:stone")));

    let g_inside = region.pos_to_global(inside);
    let g_outside = pos(100, 0, 0);
    assert!(region.is_in_global_bounds(g_inside));
    assert!(!region.is_in_global_bounds(g_outside));
    assert!(region.get_block_global_opt(g_inside).is_some());
    assert!(region.get_block_global_opt(g_outside).is_none());
    assert!(region.pos_to_global_opt(inside).is_some());
    assert!(region.pos_to_global_opt(outside).is_none());
    assert!(region.pos_from_global_opt(g_inside).is_some());
    assert!(region.pos_from_global_opt(g_outside).is_none());
    assert_eq!(
        region.get_block_global(g_inside),
        &BlockState::named("minecraft:stone")
    );
}

#[test]
fn palette_dedup() {
    // Setting a value equal to an existing palette entry never grows the
    // palette.
    let mut region = Region::new("dedup".to_owned(), pos(0, 0, 0), pos(3, 1, 1));
    let stone = BlockState::named("minecraft:stone");
    region.set_block(pos(0, 0, 0), stone.clone());
    assert_eq!(region.block_palette().len(), 2);
    region.set_block(pos(1, 0, 0), stone.clone());
    assert_eq!(region.block_palette().len(), 2);
    region.set_block(pos(2, 0, 0), BlockState::air());
    assert_eq!(region.block_palette().len(), 2);
    region.set_block(pos(2, 0, 0), BlockState::named("minecraft:dirt"));
    assert_eq!(region.block_palette().len(), 3);
}

#[test]
fn block_entity_keying() {
    // Two block entities at the same position: only the latest is kept and
    // the previous occupant is handed back.
    let mut region = Region::new("keys".to_owned(), pos(0, 0, 0), pos(2, 2, 2));
    let first = TileEntity {
        pos: pos(1, 1, 1),
        properties: vec![("Text".to_owned(), Value::String("a".to_owned()))],
    };
    let second = TileEntity {
        pos: pos(1, 1, 1),
        properties: vec![("Text".to_owned(), Value::String("b".to_owned()))],
    };
    assert_eq!(region.get_block_entity(pos(1, 1, 1)), None);
    assert_eq!(region.set_block_entity(first.clone()), None);
    assert_eq!(region.get_block_entity(pos(1, 1, 1)), Some(&first));
    assert_eq!(region.set_block_entity(second.clone()), Some(first));
    assert_eq!(region.get_block_entity(pos(1, 1, 1)), Some(&second));
    assert_eq!(region.block_entities.len(), 1);
    assert_eq!(region.remove_block_entity(pos(1, 1, 1)), Some(second));
    assert_eq!(region.get_block_entity(pos(1, 1, 1)), None);
    assert_eq!(region.remove_block_entity(pos(1, 1, 1)), None);
}

#[test]
fn air_filled_counts_zero() {
    // A region entirely at the empty value reports zero occupied cells,
    // however large its palette.
    let mut region = Region::new("air".to_owned(), pos(0, 0, 0), pos(2, 2, 2));
    assert_eq!(region.total_blocks(), 0);
    region.set_block(pos(0, 0, 0), BlockState::named("minecraft:stone"));
    assert_eq!(region.total_blocks(), 1);
    region.set_block(pos(0, 0, 0), BlockState::air());
    assert_eq!(region.block_palette().len(), 2);
    assert_eq!(region.total_blocks(), 0);
}

#[test]
fn iterator() {
    let mut region = Region::new("iter".to_owned(), pos(0, 0, 0), pos(2, 3, 2));
    let diamond = BlockState::named("minecraft:diamond_block");
    region.set_block(pos(1, 0, 0), diamond.clone());
    region.set_block(pos(0, 2, 1), diamond.clone());
    region.set_block(pos(1, 1, 1), diamond.clone());
    let mut it = region.blocks();
    let mut count = 0usize;
    let mut diamonds = 0usize;
    while let Some((p, block)) = it.next() {
        assert_eq!(block, region.get_block(p));
        if block == &diamond {
            diamonds += 1;
        }
        count += 1;
    }
    assert_eq!(count, 12);
    assert_eq!(diamonds, 3);
}

#[test]
fn decode_geometry_out_of_range() {
    let raw = raw_region(pos(0, 0, 0), pos(i32::MIN, 1, 1), 1, vec![]);
    let e = Region::from_raw(raw, "bad".to_owned()).unwrap_err();
    assert!(matches!(
        e,
        Error::InvalidRegion(RegionDecodeError::GeometryOutOfRange)
    ));
    // A position whose far corner leaves the 32-bit range is also
    // rejected.
    let raw = raw_region(pos(i32::MAX, 0, 0), pos(2, 1, 1), 1, vec![0]);
    let e = Region::from_raw(raw, "bad".to_owned()).unwrap_err();
    assert!(matches!(
        e,
        Error::InvalidRegion(RegionDecodeError::GeometryOutOfRange)
    ));
}

#[test]
fn decode_empty_palette() {
    let raw = raw_region(pos(0, 0, 0), pos(1, 1, 1), 0, vec![0]);
    let e = Region::from_raw(raw, "bad".to_owned()).unwrap_err();
    assert!(matches!(
        e,
        Error::InvalidRegion(RegionDecodeError::EmptyPalette)
    ));
}

#[test]
fn decode_truncated_block_states() {
    // 8 cells at 2 bits need 16 bits: an empty word array is too short.
    let raw = raw_region(pos(0, 0, 0), pos(2, 2, 2), 2, vec![]);
    let e = Region::from_raw(raw, "bad".to_owned()).unwrap_err();
    assert!(matches!(
        e,
        Error::InvalidRegion(RegionDecodeError::TruncatedBlockStates)
    ));
}

#[test]
fn decode_palette_index_out_of_range() {
    // One cell at 2 bits holding index 3 with a 1-entry palette.
    let raw = raw_region(pos(0, 0, 0), pos(1, 1, 1), 1, vec![3]);
    let e = Region::from_raw(raw, "bad".to_owned()).unwrap_err();
    assert!(matches!(
        e,
        Error::InvalidRegion(RegionDecodeError::PaletteIndexOutOfRange)
    ));
}

#[test]
fn decode_valid_region() {
    let raw = raw_region(pos(1, 2, 3), pos(2, 1, 1), 2, vec![0b0100]);
    let region = Region::from_raw(raw, "good".to_owned()).unwrap();
    assert_eq!(region.name, "good".to_owned());
    assert_eq!(region.get_block(pos(0, 0, 0)), &BlockState::air());
    assert_eq!(
        region.get_block(pos(1, 0, 0)),
        &BlockState::named("minecraft:block1")
    );
    assert_eq!(region.total_blocks(), 1);
}
