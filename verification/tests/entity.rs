use fastnbt::Value;
use rustmatica::Entity;

fn entity(id: &str, uuid: u128, props: Vec<(&str, Value)>) -> Entity {
    Entity {
        id: id.to_owned(),
        uuid,
        properties: props.into_iter().map(|(k, v)| (k.to_string(), v)).collect(),
    }
}

#[test]
fn entity_macros() {
    assert_eq!(
        Entity {
            id: "minecraft:invalid".to_owned(),
            uuid: 1234,
            properties: vec![],
        },
        entity("minecraft:invalid", 1234, vec![]),
    );
    assert_eq!(
        Entity {
            id: "minecraft:empty".to_owned(),
            uuid: 5678,
            properties: vec![
                ("key1".to_owned(), Value::Byte(1)),
                ("key2".to_owned(), Value::String("value".to_owned())),
            ],
        },
        entity(
            "minecraft:empty",
            5678,
            vec![
                ("key1", Value::Byte(1)),
                ("key2", Value::String("value".to_owned())),
            ],
        ),
    );
}
