use rustmatica::BlockState;

fn block(name: &str, props: &[(&str, &str)]) -> BlockState {
    if props.is_empty() {
        BlockState { name: name.to_owned(), properties: None }
    } else {
        BlockState {
            name: name.to_owned(),
            properties: Some(
                props.iter().map(|(k, v)| (k.to_string(), v.to_string())).collect(),
            ),
        }
    }
}

#[test]
fn block_state_eq() {
    assert_eq!(BlockState::air(), block("minecraft:air", &[]));
    assert_eq!(
        block("minecraft:grass_block", &[("snowy", "true")]),
        BlockState {
            name: "minecraft:grass_block".to_owned(),
            properties: Some(vec![("snowy".to_owned(), "true".to_owned())]),
        },
    );
    assert_eq!(
        block(
            "minecraft:repeater",
            &[
                ("delay", "3"),
                ("facing", "west"),
                ("locked", "true"),
                ("powered", "true"),
            ],
        ),
        BlockState {
            name: "minecraft:repeater".to_owned(),
            properties: Some(vec![
                ("delay".to_owned(), "3".to_owned()),
                ("facing".to_owned(), "west".to_owned()),
                ("locked".to_owned(), "true".to_owned()),
                ("powered".to_owned(), "true".to_owned()),
            ]),
        },
    );
}

#[test]
fn block_state_macros() {
    assert_eq!(
        BlockState { name: "minecraft:air".to_owned(), properties: None },
        BlockState::air(),
    );
    assert_eq!(
        BlockState { name: "minecraft:stone".to_owned(), properties: None },
        block("minecraft:stone", &[]),
    );
    assert_eq!(
        BlockState {
            name: "minecraft:grass_block".to_owned(),
            properties: Some(vec![("snowy".to_owned(), "false".to_owned())]),
        },
        block("minecraft:grass_block", &[("snowy", "false")]),
    );
    assert_eq!(
        BlockState {
            name: "minecraft:repeater".to_owned(),
            properties: Some(vec![
                ("delay".to_owned(), "2".to_owned()),
                ("facing".to_owned(), "south".to_owned()),
                ("locked".to_owned(), "false".to_owned()),
                ("powered".to_owned(), "false".to_owned()),
            ]),
        },
        block(
            "minecraft:repeater",
            &[
                ("delay", "2"),
                ("facing", "south"),
                ("locked", "false"),
                ("powered", "false"),
            ],
        ),
    );
}

#[test]
fn no_features_macros() {
    assert_eq!(
        BlockState { name: "minecraft:air".to_owned(), properties: None },
        BlockState::named("minecraft:air"),
    );
    assert_eq!(
        BlockState { name: "minecraft:stone".to_owned(), properties: None },
        BlockState::named("minecraft:stone"),
    );
    assert_eq!(
        BlockState {
            name: "minecraft:grass_block".to_owned(),
            properties: Some(vec![("snowy".to_owned(), "false".to_owned())]),
        },
        block("minecraft:grass_block", &[("snowy", "false")]),
    );
    assert_eq!(
        BlockState {
            name: "minecraft:repeater".to_owned(),
            properties: Some(vec![
                ("delay".to_owned(), "2".to_owned()),
                ("facing".to_owned(), "south".to_owned()),
                ("locked".to_owned(), "false".to_owned()),
                ("powered".to_owned(), "false".to_owned()),
            ]),
        },
        block(
            "minecraft:repeater",
            &[
                ("delay", "2"),
                ("facing", "south"),
                ("locked", "false"),
                ("powered", "false"),
            ],
        ),
    );
}

#[test]
fn block_state_inequality() {
    assert_ne!(BlockState::air(), BlockState::named("minecraft:stone"));
    assert_ne!(
        block("minecraft:grass_block", &[("snowy", "true")]),
        block("minecraft:grass_block", &[("snowy", "false")]),
    );
    assert_ne!(
        BlockState::named("minecraft:grass_block"),
        block("minecraft:grass_block", &[("snowy", "false")]),
    );
}
