use qentities::builder::QEntitiesBuilder;
use qentities::parse::QEntitiesParseOptions;

#[test]
fn builder_constructs_collection() {
    let mut builder = QEntitiesBuilder::new();
    builder.entity();
    builder.key_value(b"classname", b"worldspawn");
    builder.entity();
    builder.key_value(b"classname", b"light");
    builder.key_value(b"origin", b"0 0 0");

    let entities = builder.finish();
    assert_eq!(entities.len(), 2);

    let worldspawn = entities.get(0).unwrap();
    assert_eq!(worldspawn.len(), 1);
    let kv = worldspawn.get(0).unwrap();
    assert_eq!(kv.key(), b"classname");
    assert_eq!(kv.value(), b"worldspawn");

    let light = entities.get(1).unwrap();
    assert_eq!(light.len(), 2);
    assert_eq!(light.get(0).unwrap().value(), b"light");
    assert_eq!(light.get(1).unwrap().key(), b"origin");
    assert!(light.get(2).is_none());
}

#[test]
fn builder_empty_entities() {
    let mut builder = QEntitiesBuilder::new();
    builder.entity();
    builder.entity();
    let entities = builder.finish();
    assert_eq!(entities.len(), 2);
    assert_eq!(entities.get(0).unwrap().len(), 0);
    assert_eq!(entities.get(1).unwrap().len(), 0);
}

#[test]
fn builder_matches_parse() {
    let mut builder = QEntitiesBuilder::new();
    builder.entity();
    builder.key_value(b"classname", b"worldspawn");
    let built = builder.finish();

    let parsed = QEntitiesParseOptions::new()
        .parse(&b"{ classname worldspawn }"[..])
        .unwrap();

    assert_eq!(built.len(), parsed.len());
    let a = built.get(0).unwrap().get(0).unwrap();
    let b = parsed.get(0).unwrap().get(0).unwrap();
    assert_eq!(a.key(), b.key());
    assert_eq!(a.value(), b.value());
}
