use fastnbt::Value;
use rustmatica::BlockPos;
use rustmatica::BlockState;
use rustmatica::Entity;
use rustmatica::Error;
use rustmatica::Litematic;
use rustmatica::PendingBlockTick;
use rustmatica::PendingFluidTick;
use rustmatica::Region;
use rustmatica::TileEntity;
use rustmatica::error::RegionDecodeError;

fn pos(x: i32, y: i32, z: i32) -> BlockPos {
    BlockPos::new(x, y, z)
}

#[test]
fn empty_container_enclosing_box() {
    // With zero regions the all-zero seed bounds remain, so the enclosing
    // box is a unit box at the origin rather than an empty one.
    let lit = Litematic::new("empty".to_owned(), "desc".to_owned(), "author".to_owned());
    let bx = lit.enclosing_box();
    assert_eq!(bx.origin, pos(0, 0, 0));
    assert_eq!(bx.size, pos(1, 1, 1));
    assert_eq!(lit.enclosing_size(), pos(1, 1, 1));
    assert_eq!(lit.total_blocks(), 0);
    assert_eq!(lit.total_volume(), 0);
}

#[test]
fn enclosing_box_spans_regions() {
    let mut lit = Litematic::new("two".to_owned(), "d".to_owned(), "a".to_owned());
    lit.regions.push(Region::new("a".to_owned(), pos(0, 0, 0), pos(-2, 3, 3)));
    lit.regions.push(Region::new("b".to_owned(), pos(5, 1, 1), pos(2, 2, 2)));
    let bx = lit.enclosing_box();
    assert_eq!(bx.origin, pos(-1, 0, 0));
    assert_eq!(bx.size, pos(8, 3, 3));
    assert_eq!(lit.total_volume(), 18 + 8);
}

#[test]
fn total_blocks_sums_regions() {
    let mut lit = Litematic::new("sum".to_owned(), "d".to_owned(), "a".to_owned());
    let mut r1 = Region::new("a".to_owned(), pos(0, 0, 0), pos(2, 1, 1));
    let mut r2 = Region::new("b".to_owned(), pos(4, 0, 0), pos(2, 1, 1));
    r1.set_block(pos(0, 0, 0), BlockState::named("minecraft:stone"));
    r2.set_block(pos(0, 0, 0), BlockState::named("minecraft:stone"));
    r2.set_block(pos(1, 0, 0), BlockState::named("minecraft:dirt"));
    lit.regions.push(r1);
    lit.regions.push(r2);
    assert_eq!(lit.total_blocks(), 3);
}

#[test]
fn container_roundtrip() {
    // Converting a container to its wire shape and back reproduces every
    // region's grid, the auxiliary records, and all metadata fields except
    // the modified timestamp.
    let mut lit = Litematic::new("trip".to_owned(), "a donut".to_owned(), "someone".to_owned());
    let mut region = Region::new("ring".to_owned(), pos(1, 2, 3), pos(3, -2, 2));
    let stone = BlockState::named("minecraft:stone");
    let snowy = BlockState {
        name: "minecraft:grass_block".to_owned(),
        properties: Some(vec![("snowy".to_owned(), "true".to_owned())]),
    };
    region.set_block(pos(0, 0, 0), stone.clone());
    region.set_block(pos(2, 1, 1), snowy.clone());
    region.set_block(pos(1, 1, 0), snowy.clone());
    region.set_block_entity(TileEntity {
        pos: pos(2, 1, 1),
        properties: vec![("Text1".to_owned(), Value::String("{\"text\":\"a\"}".to_owned()))],
    });
    region.entities.push(Entity {
        id: "minecraft:axolotl".to_owned(),
        uuid: 154833529407457947883461787053576218097,
        properties: vec![("Air".to_owned(), Value::Short(300))],
    });
    region.pending_block_ticks.push(PendingBlockTick {
        block: "minecraft:repeater".to_owned(),
        priority: -1,
        sub_tick: 42,
        time: 7,
        x: 0,
        y: 0,
        z: 1,
    });
    region.pending_fluid_ticks.push(PendingFluidTick {
        fluid: "minecraft:water".to_owned(),
        priority: 0,
        sub_tick: 43,
        time: 9,
        x: 1,
        y: 0,
        z: 0,
    });
    lit.regions.push(region);

    let raw = lit.clone().to_raw();
    assert_eq!(raw.metadata.region_count, 1);
    assert_eq!(raw.metadata.total_volume, 12);
    assert_eq!(raw.metadata.total_blocks, 3);
    assert_eq!(raw.metadata.enclosing_size, pos(4, 3, 5));

    let back = Litematic::from_raw(raw, lit.metadata.clone()).unwrap();
    assert_eq!(back.metadata, lit.metadata);
    assert_eq!(back.regions.len(), 1);
    let (old_r, new_r) = (&lit.regions[0], &back.regions[0]);
    assert_eq!(new_r.name, old_r.name);
    assert_eq!(new_r.position, old_r.position);
    assert_eq!(new_r.size, old_r.size);
    for x in 0..3 {
        for y in 0..2 {
            for z in 0..2 {
                assert_eq!(new_r.get_block(pos(x, y, z)), old_r.get_block(pos(x, y, z)));
            }
        }
    }
    assert_eq!(new_r.block_entities, old_r.block_entities);
    assert_eq!(new_r.entities, old_r.entities);
    assert_eq!(new_r.pending_block_ticks, old_r.pending_block_ticks);
    assert_eq!(new_r.pending_fluid_ticks, old_r.pending_fluid_ticks);
    assert_eq!(new_r.block_palette(), old_r.block_palette());
}

#[test]
fn container_rejects_bad_region() {
    let mut lit = Litematic::new("bad".to_owned(), "d".to_owned(), "a".to_owned());
    lit.regions.push(Region::new("ok".to_owned(), pos(0, 0, 0), pos(1, 1, 1)));
    let mut raw = lit.clone().to_raw();
    raw.regions[0].1.block_states.clear();
    let e = Litematic::from_raw(raw, lit.metadata.clone()).unwrap_err();
    assert!(matches!(
        e,
        Error::InvalidRegion(RegionDecodeError::TruncatedBlockStates)
    ));
}

#[test]
fn time() {
    let now = std::time::SystemTime::now()
        .duration_since(std::time::SystemTime::UNIX_EPOCH)
        .unwrap()
        .as_millis() as i64;
    let lit = Litematic::new("t".to_owned(), "d".to_owned(), "a".to_owned());
    assert!(1000 > (lit.metadata.time_created - now).abs());
    let raw = lit.to_raw();
    assert!(1000 > (raw.metadata.time_modified - now).abs());
}

#[test]
fn preview_image_data() {
    let mut lit = Litematic::new("img".to_owned(), "d".to_owned(), "a".to_owned());
    assert!(lit.metadata.preview_image_data().is_none());
    let image = vec![0x11223344i32; 140 * 140];
    assert_eq!(lit.metadata.set_preview_image_data(Some(image.clone())), None);
    assert_eq!(lit.metadata.preview_image_data(), Some(&image));
    let replaced = lit.metadata.set_preview_image_data(None);
    assert_eq!(replaced, Some(image));
    assert!(lit.metadata.preview_image_data().is_none());
}

#[test]
fn as_litematic_wraps_region() {
    let mut region = Region::new("solo".to_owned(), pos(0, 0, 0), pos(2, 1, 1));
    region.set_block(pos(1, 0, 0), BlockState::named("minecraft:stone"));
    let lit = region.as_litematic("a lone region".to_owned(), "nobody".to_owned());
    assert_eq!(lit.metadata.name, "solo".to_owned());
    assert_eq!(lit.metadata.description, "a lone region".to_owned());
    assert_eq!(lit.metadata.author, "nobody".to_owned());
    assert_eq!(lit.regions.len(), 1);
    assert_eq!(lit.total_blocks(), 1);
}

#[test]
fn error_carriers() {
    let nbt_err = fastnbt::from_bytes::<Value>(&[0xffu8, 0x00]).unwrap_err();
    assert!(matches!(Error::Nbt(nbt_err), Error::Nbt(_)));
    let io_err = std::io::Error::new(std::io::ErrorKind::UnexpectedEof, "cut short");
    assert!(matches!(Error::Io(io_err), Error::Io(_)));
}
