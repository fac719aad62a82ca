use qentities::parse::{
    QEntitiesParseErrorKind, QEntitiesParseEscapeOptions, QEntitiesParseOptions,
    QEntitiesTokenKind,
};

/// An expected location: offset, line, column.
struct ExpectedLocation {
    offset: u64,
    line: u64,
    column: u64,
}

/// Variant for an expected error in [`ExpectedError`].
#[derive(Clone, Copy)]
enum ExpectedErrorVariant {
    SimpleKind(QEntitiesParseErrorKind),
    UnexpectedToken(QEntitiesTokenKind),
}

/// Helper for asserting that an error occured as expected.
struct ExpectedError<'a> {
    src: &'a [u8],
    kind: ExpectedErrorVariant,
    location: ExpectedLocation,
}

impl ExpectedError<'_> {
    /// Asserts that the expected error occured while parsing with the given
    /// parse options.
    fn test(&self, parse_opts: &QEntitiesParseOptions) {
        match parse_opts.parse(self.src) {
            Ok(_) => panic!(
                "parsing of {:?} unexpectedly succeeded",
                String::from_utf8_lossy(self.src),
            ),
            Err(e) => {
                match self.kind {
                    ExpectedErrorVariant::SimpleKind(k) => assert_eq!(
                        e.kind(),
                        k,
                        "parsing of {:?} returned unexpected error kind",
                        String::from_utf8_lossy(self.src),
                    ),
                    ExpectedErrorVariant::UnexpectedToken(tk) => {
                        assert_eq!(
                            e.kind(),
                            QEntitiesParseErrorKind::UnexpectedToken,
                            "parsing of {:?} returned unexpected error kind",
                            String::from_utf8_lossy(self.src),
                        );
                        let tke = e.unexpected_token_error().unwrap();
                        assert_eq!(
                            tke.kind(),
                            tk,
                            "parsing of {:?} returned unexpected token kind",
                            String::from_utf8_lossy(self.src),
                        );
                    }
                };
                let loc = e.location().expect("error kind must carry a location");
                assert_eq!(
                    (loc.offset(), loc.line(), loc.column()),
                    (self.location.offset, self.location.line, self.location.column),
                    "parsing of {:?} returned unexpected error location",
                    String::from_utf8_lossy(self.src),
                );
            }
        }
    }
}

fn expected_simple(
    kind: QEntitiesParseErrorKind,
    src: &[u8],
    offset: u64,
    line: u64,
    column: u64,
) -> ExpectedError {
    ExpectedError {
        src,
        kind: ExpectedErrorVariant::SimpleKind(kind),
        location: ExpectedLocation {
            offset,
            line,
            column,
        },
    }
}

fn expected_token(
    token: QEntitiesTokenKind,
    src: &[u8],
    offset: u64,
    line: u64,
    column: u64,
) -> ExpectedError {
    ExpectedError {
        src,
        kind: ExpectedErrorVariant::UnexpectedToken(token),
        location: ExpectedLocation {
            offset,
            line,
            column,
        },
    }
}

#[test]
fn unterminated_c_style_comments() {
    let kind = QEntitiesParseErrorKind::UnterminatedCStyleComment;
    let parse_opts = QEntitiesParseOptions::new().with_c_style_comments(true);
    [
        expected_simple(kind, br#"/*"#, 0, 1, 1),
        expected_simple(kind, b"\n/*", 1, 2, 1),
        expected_simple(kind, br#"/**"#, 0, 1, 1),
        expected_simple(kind, br#"/***"#, 0, 1, 1),
        expected_simple(kind, br#"{"k"/*"v"}"#, 4, 1, 5),
        expected_simple(kind, br#"{"k" "v"}/*"#, 9, 1, 10),
        expected_simple(kind, br#"{ k /* v }"#, 4, 1, 5),
        expected_simple(kind, br#"{ k v }/*"#, 7, 1, 8),
    ]
    .iter()
    .for_each(|ee| ee.test(&parse_opts));
}

#[test]
fn unterminated_quoted_strings() {
    let kind = QEntitiesParseErrorKind::UnterminatedQuotedString;
    let parse_opts = QEntitiesParseOptions::new();
    [
        expected_simple(kind, br#"{""#, 1, 1, 2),
        expected_simple(kind, br#"{"key" ""#, 7, 1, 8),
        expected_simple(kind, b"{k\n\"", 3, 2, 1),
        expected_simple(kind, b"{k \"v}", 3, 1, 4),
    ]
    .iter()
    .for_each(|ee| ee.test(&parse_opts));
}

#[test]
fn unterminated_entities() {
    let kind = QEntitiesParseErrorKind::UnterminatedEntity;
    let parse_opts = QEntitiesParseOptions::new();
    [
        expected_simple(kind, b"{", 0, 1, 1),
        expected_simple(kind, b"\n{", 1, 2, 1),
        expected_simple(kind, b"{ k v }{", 7, 1, 8),
        expected_simple(kind, b"{ k v }\n{", 8, 2, 1),
    ]
    .iter()
    .for_each(|ee| ee.test(&parse_opts));
}

#[test]
fn invalid_escape_sequences() {
    let kind = QEntitiesParseErrorKind::InvalidEscapeSequence;
    let parse_opts = QEntitiesParseOptions::new()
        .with_escape_options(Some(QEntitiesParseEscapeOptions::new()));
    [
        expected_simple(kind, br#"{"\x" "value"}"#, 2, 1, 3),
        expected_simple(kind, b"{k\n\"\\x\"}", 4, 2, 2),
        expected_simple(kind, b"{\"\\\x00\" \"\"}", 2, 1, 3),
    ]
    .iter()
    .for_each(|ee| ee.test(&parse_opts));
}

#[test]
fn nested_entities() {
    let token = QEntitiesTokenKind::OpenBrace;
    let parse_opts = QEntitiesParseOptions::new();
    [
        expected_token(token, b"{{", 1, 1, 2),
        expected_token(token, b"\n{{", 2, 2, 2),
        expected_token(token, b"{\n{", 2, 2, 1),
        expected_token(token, b"\n{\n{", 3, 3, 1),
        expected_token(token, b"{ k v { k v } k v }", 6, 1, 7),
    ]
    .iter()
    .for_each(|ee| ee.test(&parse_opts));
}

#[test]
fn unpaired_close_braces() {
    let token = QEntitiesTokenKind::CloseBrace;
    let parse_opts = QEntitiesParseOptions::new();
    [
        expected_token(token, b"}", 0, 1, 1),
        expected_token(token, b"\n}", 1, 2, 1),
        expected_token(token, b"{}}", 2, 1, 3),
        expected_token(token, b"{ k v }}", 7, 1, 8),
    ]
    .iter()
    .for_each(|ee| ee.test(&parse_opts));
}

#[test]
fn exterior_key_values() {
    let parse_opts = QEntitiesParseOptions::new();
    [
        expected_token(QEntitiesTokenKind::QuotedString, b"\"k\" \"v\"", 0, 1, 1),
        expected_token(QEntitiesTokenKind::UnquotedString, b"k v", 0, 1, 1),
        expected_token(
            QEntitiesTokenKind::QuotedString,
            b"{ k v }\n\"k\" \"v\"",
            8,
            2,
            1,
        ),
    ]
    .iter()
    .for_each(|ee| ee.test(&parse_opts));
}

#[test]
fn comments() {
    let data =
br#"// first line
{ k0 v0 //
}{ k1 /*c*/ v1 }
//c
{ /* c */ k2 v2 }//c
{ k3//c
v3/**c**/}
{ k4/**c**/ v4//
}//"#;

    let entities = QEntitiesParseOptions::new()
        .with_cpp_style_comments(true)
        .with_c_style_comments(true)
        .with_comments_terminate_unquoted_strings(true)
        .parse(&data[..])
        .unwrap();

    assert_eq!(entities.len(), 5);
    for index in 0..entities.len() {
        let entity = entities.get(index).unwrap();
        assert_eq!(entity.len(), 1);
        let kv = entity.get(0).unwrap();
        let (key, value) = (kv.key(), kv.value());
        assert_eq!(key, format!("k{}", index).into_bytes());
        assert_eq!(value, format!("v{}", index).into_bytes());
    }
}

#[test]
fn vtmb_entities() {
    let data =
br#"// vtmb
{
"world_maxs" "4096 4096 4096"
"world_mins" "-4096 -4096 -4096"
"classname" "worldspawn"
"skyname" "thesky"
"sounds" "1"
"MaxRange" "1337"
"fogcolor" "255 255 255"
"fogcolor2" "255 255 255"
"fogdir" "0 1 0"
"fogstart" "123.0"
"fogend" "456.0"
"wetness_fadetarget" "0.11"
"wetness_fadein" "2.3"
"wetness_fadeout" "5.4"
"levelscript" "thescript"
"safearea" "2"
"nosferatu_tolerrant" "1"
}
{
"classname" "logic_relay"
"StartDisabled" "0"
"targetname" "relay_a"
"spawnflags" "1"
"OnTrigger" ",,,0,-1,ScriptFn(\"arg_a\", \"arg_b\"),"
"origin" "1 2 3"
}
{
"classname" "logic_relay"
"StartDisabled" "0"
"targetname" "relay_b"
"spawnflags" "1"
"OnTrigger" ",,,0,-1,ScriptFn(\"a\", \"b\", \"c\"),"
"origin" "4 5 6"
}"#;

    let expected_entities: &[&[(&[u8], &[u8])]] = &[
        &[
            (b"world_maxs", b"4096 4096 4096"),
            (b"world_mins", b"-4096 -4096 -4096"),
            (b"classname", b"worldspawn"),
            (b"skyname", b"thesky"),
            (b"sounds", b"1"),
            (b"MaxRange", b"1337"),
            (b"fogcolor", b"255 255 255"),
            (b"fogcolor2", b"255 255 255"),
            (b"fogdir", b"0 1 0"),
            (b"fogstart", b"123.0"),
            (b"fogend", b"456.0"),
            (b"wetness_fadetarget", b"0.11"),
            (b"wetness_fadein", b"2.3"),
            (b"wetness_fadeout", b"5.4"),
            (b"levelscript", b"thescript"),
            (b"safearea", b"2"),
            (b"nosferatu_tolerrant", b"1"),
        ],
        &[
            (b"classname", b"logic_relay"),
            (b"StartDisabled", b"0"),
            (b"targetname", b"relay_a"),
            (b"spawnflags", b"1"),
            (b"OnTrigger", b",,,0,-1,ScriptFn(\"arg_a\", \"arg_b\"),"),
            (b"origin", b"1 2 3"),
        ],
        &[
            (b"classname", b"logic_relay"),
            (b"StartDisabled", b"0"),
            (b"targetname", b"relay_b"),
            (b"spawnflags", b"1"),
            (b"OnTrigger", b",,,0,-1,ScriptFn(\"a\", \"b\", \"c\"),"),
            (b"origin", b"4 5 6"),
        ],
    ];

    let entities = QEntitiesParseOptions::vtmb().parse(&data[..]).unwrap();
    assert_eq!(
        entities.len(),
        expected_entities.len(),
        "entities length mismatch",
    );

    for (entity_index, expected_entity) in expected_entities.iter().copied().enumerate() {
        let entity = entities.get(entity_index).unwrap();
        assert_eq!(
            entity.len(),
            expected_entity.len(),
            "entity #{entity_index} length mismatch",
        );

        for (kv_index, (expected_k, expected_v)) in expected_entity.iter().copied().enumerate() {
            let kv = entity.get(kv_index).unwrap();
            let (k, v) = (kv.key(), kv.value());
            assert_eq!(
                k,
                expected_k,
                "key #{kv_index} in entity #{entity_index} mismatch: {:?} != {:?}",
                String::from_utf8_lossy(k),
                String::from_utf8_lossy(expected_k),
            );
            assert_eq!(
                v,
                expected_v,
                "value #{kv_index} in entity #{entity_index} mismatch: {:?} != {:?}",
                String::from_utf8_lossy(v),
                String::from_utf8_lossy(expected_v),
            );
        }
    }
}

#[test]
fn minimal_round_trip() {
    let entities = QEntitiesParseOptions::new()
        .parse(&b"{ classname worldspawn }"[..])
        .unwrap();
    assert_eq!(entities.len(), 1);

    let entity = entities.get(0).unwrap();
    assert_eq!(entity.len(), 1);

    let kv = entity.get(0).unwrap();
    assert_eq!(kv.key(), b"classname");
    assert_eq!(kv.value(), b"worldspawn");
}

#[test]
fn quoted_equivalent() {
    let unquoted = QEntitiesParseOptions::new()
        .parse(&b"{ classname worldspawn }"[..])
        .unwrap();
    let quoted = QEntitiesParseOptions::new()
        .parse(&br#"{"classname" "worldspawn"}"#[..])
        .unwrap();

    assert_eq!(unquoted.len(), quoted.len());
    for index in 0..unquoted.len() {
        let a = unquoted.get(index).unwrap();
        let b = quoted.get(index).unwrap();
        assert_eq!(a.len(), b.len());
        for kv_index in 0..a.len() {
            let kv_a = a.get(kv_index).unwrap();
            let kv_b = b.get(kv_index).unwrap();
            assert_eq!(kv_a.key(), kv_b.key());
            assert_eq!(kv_a.value(), kv_b.value());
        }
    }
}

#[test]
fn key_length_limit() {
    let parse_opts = QEntitiesParseOptions::new().with_max_key_length(Some(3));
    expected_simple(
        QEntitiesParseErrorKind::KeyTooLong,
        b"{ toolong v }",
        2,
        1,
        3,
    )
    .test(&parse_opts);

    // A key at exactly the limit is accepted.
    let entities = parse_opts.parse(&b"{ key v }"[..]).unwrap();
    assert_eq!(entities.get(0).unwrap().get(0).unwrap().key(), b"key");
}

#[test]
fn value_length_limit() {
    let parse_opts = QEntitiesParseOptions::new().with_max_value_length(Some(3));
    expected_simple(
        QEntitiesParseErrorKind::ValueTooLong,
        br#"{ k "toolong" }"#,
        4,
        1,
        5,
    )
    .test(&parse_opts);

    let entities = parse_opts.parse(&b"{ k val }"[..]).unwrap();
    assert_eq!(entities.get(0).unwrap().get(0).unwrap().value(), b"val");
}

#[test]
fn escaped_backslashes() {
    let src = br#"
{
classname worldspawn
wad "wads\\mywad.wad"
}"#;

    let entities = QEntitiesParseOptions::new()
        .with_escape_options(Some(QEntitiesParseEscapeOptions::new()))
        .parse(&src[..])
        .unwrap();
    assert_eq!(entities.len(), 1);

    let entity = entities.get(0).unwrap();
    assert_eq!(entity.len(), 2);

    let kv_b = entity.get(1).unwrap();
    assert_eq!(kv_b.key(), b"wad");
    assert_eq!(kv_b.value(), b"wads\\mywad.wad");
}

#[test]
fn escaped_double_quotes() {
    let src = br#"
{
classname worldspawn
script_fn "func(\"arg a\", \"arg b\")"
}"#;

    let escape_options = QEntitiesParseEscapeOptions::new().with_double_quotes(true);
    let entities = QEntitiesParseOptions::new()
        .with_escape_options(Some(escape_options))
        .parse(&src[..])
        .unwrap();
    assert_eq!(entities.len(), 1);

    let entity = entities.get(0).unwrap();
    assert_eq!(entity.len(), 2);

    let kv_b = entity.get(1).unwrap();
    assert_eq!(kv_b.key(), b"script_fn");
    assert_eq!(kv_b.value(), b"func(\"arg a\", \"arg b\")");
}

#[test]
fn controls_terminate_unquoted() {
    let src = br#"{classname"worldspawn"wad mywad.wad}"#;

    let entities = QEntitiesParseOptions::new()
        .with_controls_terminate_unquoted_strings(true)
        .parse(&src[..])
        .unwrap();
    assert_eq!(entities.len(), 1);

    let entity = entities.get(0).unwrap();
    assert_eq!(entity.len(), 2);

    let kv_a = entity.get(0).unwrap();
    assert_eq!(kv_a.key(), b"classname");
    assert_eq!(kv_a.value(), b"worldspawn");

    let kv_b = entity.get(1).unwrap();
    assert_eq!(kv_b.key(), b"wad");
    assert_eq!(kv_b.value(), b"mywad.wad");
}

#[test]
fn location_tracking_across_lines() {
    // The offending token stands after a line feed and a carriage return:
    // each of them begins a new line and resets the column.
    expected_token(
        QEntitiesTokenKind::UnquotedString,
        b"ab\ncd",
        0,
        1,
        1,
    )
    .test(&QEntitiesParseOptions::new());
    expected_token(QEntitiesTokenKind::CloseBrace, b"\n\r }", 3, 3, 2)
        .test(&QEntitiesParseOptions::new());
}

#[test]
fn empty_input_yields_no_entities() {
    let entities = QEntitiesParseOptions::new().parse(&b""[..]).unwrap();
    assert_eq!(entities.len(), 0);
    assert!(entities.get(0).is_none());

    let spaces = QEntitiesParseOptions::new().parse(&b" \t\r\n"[..]).unwrap();
    assert_eq!(spaces.len(), 0);
}

#[test]
fn entity_access_is_scoped_and_iterable() {
    let entities = QEntitiesParseOptions::new()
        .parse(&b"{ a 1 b 2 } { c 3 }"[..])
        .unwrap();
    assert_eq!(entities.len(), 2);

    let first = entities.get(0).unwrap();
    assert_eq!(first.len(), 2);
    // Indexed access is scoped to the entity's own key-values.
    assert!(first.get(2).is_none());

    let mut it = entities.iter();
    assert_eq!(it.len(), 2);
    let e0 = it.next().unwrap();
    assert_eq!(e0.get(0).unwrap().key(), b"a");
    let e1 = it.next_back().unwrap();
    assert_eq!(e1.get(0).unwrap().key(), b"c");
    assert_eq!(it.len(), 0);
    assert!(it.next().is_none());

    let mut kvs = e0.iter();
    assert_eq!(kvs.len(), 2);
    assert_eq!(kvs.next().unwrap().value(), b"1");
    assert_eq!(kvs.next_back().unwrap().value(), b"2");
    assert!(kvs.next().is_none());

    // Repeated keys and values are shared through the interner, and equal
    // bytes resolve equal wherever they appear.
    let shared = QEntitiesParseOptions::new()
        .parse(&b"{ classname light } { classname light }"[..])
        .unwrap();
    let kv_a = shared.get(0).unwrap().get(0).unwrap();
    let kv_b = shared.get(1).unwrap().get(0).unwrap();
    assert_eq!(kv_a.key(), kv_b.key());
    assert_eq!(kv_a.value(), kv_b.value());
}
