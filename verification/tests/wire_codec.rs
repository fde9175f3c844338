use tilepad_plugin_sdk::codec::{decode_event, encode_client};
use tilepad_plugin_sdk::wire::{decode_value, value_text};
use tilepad_plugin_sdk::{ClientPluginMessage, DeviceIndicator, LabelAlign, ServerPluginMessage,
    TileIcon, TileLabel, Uid, Value};

fn chars(s: &str) -> Vec<char> {
    s.chars().collect()
}

fn text(cs: &Vec<char>) -> String {
    cs.iter().collect()
}

fn uid(s: &str) -> Uid {
    Uid::parse(chars(s)).expect("well-formed id")
}

const ID_A: &str = "0a1b2c3d-4e5f-6071-8293-a4b5c6d7e8f9";
const ID_B: &str = "ffffffff-0000-1111-2222-333344445555";

#[test]
fn value_round_trip_scalars() {
    for v in [
        Value::Null,
        Value::Bool(true),
        Value::Bool(false),
        Value::Num(0),
        Value::Num(-1),
        Value::Num(i64::MAX),
        Value::Num(i64::MIN),
        Value::Str(chars("hello")),
        Value::Str(chars("")),
    ] {
        let t = value_text(&v);
        let back = decode_value(&t).expect("round trip");
        assert_eq!(back, v);
    }
}

#[test]
fn value_round_trip_nested() {
    let v = Value::Obj(vec![
        (chars("a"), Value::Arr(vec![Value::Num(1), Value::Num(2), Value::Null])),
        (chars("b"), Value::Obj(vec![])),
        (chars("c"), Value::Arr(vec![])),
        (chars("d"), Value::Str(chars("x"))),
    ]);
    let t = value_text(&v);
    assert_eq!(text(&t), r#"{"a":[1,2,null],"b":{},"c":[],"d":"x"}"#);
    let back = decode_value(&t).expect("round trip");
    assert_eq!(back, v);
}

#[test]
fn value_round_trip_escapes() {
    let v = Value::Str(chars("a\"b\\c\nd\re\tf"));
    let t = value_text(&v);
    assert_eq!(text(&t), "\"a\\\"b\\\\c\\nd\\re\\tf\"");
    let back = decode_value(&t).expect("round trip");
    assert_eq!(back, v);
}

#[test]
fn value_round_trip_control_characters() {
    let v = Value::Str(chars("\u{1}g\u{8}h\u{c}i\u{1f}"));
    let t = value_text(&v);
    assert_eq!(text(&t), "\"\\u0001g\\bh\\fi\\u001f\"");
    let back = decode_value(&t).expect("round trip");
    assert_eq!(back, v);
}

#[test]
fn decode_standard_escapes() {
    assert_eq!(
        decode_value(&chars(r#""\/\b\f\u0041\u00e9\u00AB""#)),
        Some(Value::Str(chars("/\u{8}\u{c}A\u{e9}\u{ab}")))
    );
    assert_eq!(decode_value(&chars(r#""\ud7ff""#)), Some(Value::Str(chars("\u{d7ff}"))));
}

#[test]
fn decode_rejects_bad_unicode_escapes() {
    for bad in [r#""\ud800""#, r#""\udfff""#, r#""\u12""#, r#""\u12g4""#, r#""\x""#] {
        assert!(decode_value(&chars(bad)).is_none(), "accepted: {bad}");
    }
}

#[test]
fn decode_rejects_malformed_text() {
    for bad in [
        "", "{", "}", "nul", "tru", "falsey", "01", "--1", "-", "\"abc", "\"\\x\"", "[1,]",
        "[1 2]", "{\"a\"}", "{\"a\":}", "{\"a\":1,}", "1 2", "9223372036854775808",
    ] {
        assert!(decode_value(&chars(bad)).is_none(), "accepted: {bad}");
    }
}

#[test]
fn decode_allows_whitespace_between_tokens() {
    assert_eq!(decode_value(&chars(" null ")), Some(Value::Null));
    assert_eq!(decode_value(&chars("128 ")), Some(Value::Num(128)));
    assert_eq!(decode_value(&chars("\t[ ]\n")), Some(Value::Arr(vec![])));
    assert_eq!(decode_value(&chars("{ }")), Some(Value::Obj(vec![])));
    assert_eq!(
        decode_value(&chars("{ \"a\" : 1 ,\r\n \"b\" : [ true , \"x\" ] }")),
        Some(Value::Obj(vec![
            (chars("a"), Value::Num(1)),
            (chars("b"), Value::Arr(vec![Value::Bool(true), Value::Str(chars("x"))])),
        ]))
    );
}

#[test]
fn decode_event_with_whitespace() {
    let frame = chars("{ \"type\" : \"Registered\" , \"plugin_id\" : \"demo\" }");
    assert_eq!(
        decode_event(&frame),
        Some(ServerPluginMessage::Registered { plugin_id: "demo".to_string() })
    );
}

#[test]
fn decode_number_bounds() {
    assert_eq!(decode_value(&chars("9223372036854775807")), Some(Value::Num(i64::MAX)));
    assert_eq!(decode_value(&chars("-9223372036854775808")), Some(Value::Num(i64::MIN)));
    assert!(decode_value(&chars("-9223372036854775809")).is_none());
}

#[test]
fn encode_register_plugin_exact() {
    let m = ClientPluginMessage::RegisterPlugin { plugin_id: "demo".to_string() };
    assert_eq!(text(&encode_client(&m)), r#"{"type":"RegisterPlugin","plugin_id":"demo"}"#);
}

#[test]
fn encode_get_properties_exact() {
    let m = ClientPluginMessage::GetProperties;
    assert_eq!(text(&encode_client(&m)), r#"{"type":"GetProperties"}"#);
}

#[test]
fn encode_set_tile_properties_exact() {
    let m = ClientPluginMessage::SetTileProperties {
        tile_id: uid(ID_A),
        properties: Value::Obj(vec![(chars("n"), Value::Num(7))]),
        partial: true,
    };
    assert_eq!(
        text(&encode_client(&m)),
        format!(
            "{{\"type\":\"SetTileProperties\",\"tile_id\":\"{ID_A}\",\"properties\":{{\"n\":7}},\"partial\":true}}"
        )
    );
}

#[test]
fn encode_set_tile_icon_exact() {
    let m = ClientPluginMessage::SetTileIcon {
        tile_id: uid(ID_A),
        icon: TileIcon::PluginIcon { plugin_id: "p".to_string(), icon: "i.png".to_string() },
    };
    assert_eq!(
        text(&encode_client(&m)),
        format!(
            "{{\"type\":\"SetTileIcon\",\"tile_id\":\"{ID_A}\",\"icon\":{{\"type\":\"PluginIcon\",\"plugin_id\":\"p\",\"icon\":\"i.png\"}}}}"
        )
    );
}

#[test]
fn encode_display_indicator_exact() {
    let m = ClientPluginMessage::DisplayIndicator {
        device_id: uid(ID_B),
        tile_id: uid(ID_A),
        indicator: DeviceIndicator::NoIndicator,
        duration: 1500,
    };
    assert_eq!(
        text(&encode_client(&m)),
        format!(
            "{{\"type\":\"DisplayIndicator\",\"device_id\":\"{ID_B}\",\"tile_id\":\"{ID_A}\",\"indicator\":\"None\",\"duration\":1500}}"
        )
    );
}

#[test]
fn encode_set_tile_label_defaults_exact() {
    let label = TileLabel {
        enabled: Some(true),
        label: Some("hi".to_string()),
        align: Some(LabelAlign::Top),
        font: None,
        font_size: Some(12),
        bold: None,
        italic: None,
        underline: None,
        outline: None,
        color: None,
        outline_color: None,
    };
    let m = ClientPluginMessage::SetTileLabel { tile_id: uid(ID_A), label };
    assert_eq!(
        text(&encode_client(&m)),
        format!(
            "{{\"type\":\"SetTileLabel\",\"tile_id\":\"{ID_A}\",\"label\":{{\"enabled\":true,\"label\":\"hi\",\"align\":\"Top\",\"font\":null,\"font_size\":12,\"bold\":null,\"italic\":null,\"underline\":null,\"outline\":null,\"color\":null,\"outline_color\":null}}}}"
        )
    );
}

#[test]
fn mirror_round_trip_set_properties() {
    // A stored-properties command and its event-side mirror carry the
    // same payload: decoding the mirrored wire text recovers it.
    let payload = Value::Obj(vec![(chars("k"), Value::Str(chars("v")))]);
    let frame = chars(r#"{"type":"Properties","properties":{"k":"v"}}"#);
    let event = decode_event(&frame).expect("decodes");
    match event {
        ServerPluginMessage::Properties { properties } => assert_eq!(properties, payload),
        other => panic!("wrong event: {other:?}"),
    }
}

#[test]
fn mirror_round_trip_send_to_inspector() {
    let frame = chars(&format!(
        "{{\"type\":\"RecvFromInspector\",\"ctx\":{{\"profile_id\":\"{ID_A}\",\"folder_id\":\"{ID_B}\",\"plugin_id\":\"p\",\"action_id\":\"a\",\"tile_id\":\"{ID_A}\"}},\"message\":[1,true]}}"
    ));
    let event = decode_event(&frame).expect("decodes");
    match event {
        ServerPluginMessage::RecvFromInspector { ctx, message } => {
            assert_eq!(ctx.profile_id, uid(ID_A));
            assert_eq!(ctx.folder_id, uid(ID_B));
            assert_eq!(ctx.plugin_id, "p");
            assert_eq!(ctx.action_id, "a");
            assert_eq!(ctx.tile_id, uid(ID_A));
            assert_eq!(message, Value::Arr(vec![Value::Num(1), Value::Bool(true)]));
        },
        other => panic!("wrong event: {other:?}"),
    }
}

#[test]
fn decode_event_unknown_tag_is_dropped() {
    assert!(decode_event(&chars(r#"{"type":"SomethingNew","x":1}"#)).is_none());
}

#[test]
fn decode_event_malformed_id_is_dropped() {
    let frame = chars(r#"{"type":"TileProperties","tile_id":"not-an-id","properties":{}}"#);
    assert!(decode_event(&frame).is_none());
}

#[test]
fn decode_event_ignores_extra_fields() {
    let frame = chars(&format!(
        "{{\"extra\":0,\"type\":\"TileProperties\",\"tile_id\":\"{ID_A}\",\"properties\":{{\"p\":1}},\"more\":[]}}"
    ));
    let event = decode_event(&frame).expect("decodes");
    match event {
        ServerPluginMessage::TileProperties { tile_id, properties } => {
            assert_eq!(tile_id, uid(ID_A));
            assert_eq!(properties, Value::Obj(vec![(chars("p"), Value::Num(1))]));
        },
        other => panic!("wrong event: {other:?}"),
    }
}

#[test]
fn decode_visible_tiles_full() {
    let frame = chars(&format!(
        "{{\"type\":\"VisibleTiles\",\"tiles\":[{{\"id\":\"{ID_A}\",\"config\":{{\"icon\":{{\"type\":\"IconPack\",\"pack_id\":\"pk\",\"path\":\"x.svg\"}},\"label\":{{}}}},\"properties\":{{\"v\":-2}},\"folder_id\":\"{ID_B}\",\"plugin_id\":\"pl\",\"action_id\":\"ac\",\"position\":{{\"row\":1,\"column\":2,\"row_span\":3,\"column_span\":4}}}}]}}"
    ));
    let event = decode_event(&frame).expect("decodes");
    match event {
        ServerPluginMessage::VisibleTiles { tiles } => {
            assert_eq!(tiles.len(), 1);
            let t = &tiles[0];
            assert_eq!(t.id, uid(ID_A));
            assert_eq!(t.folder_id, uid(ID_B));
            assert_eq!(t.plugin_id, "pl");
            assert_eq!(t.action_id, "ac");
            assert_eq!(
                t.config.icon,
                TileIcon::IconPack { pack_id: "pk".to_string(), path: "x.svg".to_string() }
            );
            // an empty label object leaves every field at its default
            assert_eq!(t.config.label.enabled, None);
            assert_eq!(t.config.label.align, None);
            assert_eq!(t.properties, Value::Obj(vec![(chars("v"), Value::Num(-2))]));
            assert_eq!(t.position.row, 1);
            assert_eq!(t.position.column, 2);
            assert_eq!(t.position.row_span, 3);
            assert_eq!(t.position.column_span, 4);
        },
        other => panic!("wrong event: {other:?}"),
    }
}

#[test]
fn decode_deep_link() {
    let frame = chars(
        r#"{"type":"DeepLink","ctx":{"url":"tilepad://x/y?q=1","host":"x","path":"/y","query":"q=1","fragment":null}}"#,
    );
    let event = decode_event(&frame).expect("decodes");
    match event {
        ServerPluginMessage::DeepLink { ctx } => {
            assert_eq!(ctx.url, "tilepad://x/y?q=1");
            assert_eq!(ctx.host, Some("x".to_string()));
            assert_eq!(ctx.path, "/y");
            assert_eq!(ctx.query, Some("q=1".to_string()));
            assert_eq!(ctx.fragment, None);
        },
        other => panic!("wrong event: {other:?}"),
    }
}

#[test]
fn uid_parse_accepts_and_rejects() {
    assert!(Uid::parse(chars(ID_A)).is_some());
    assert!(Uid::parse(chars(ID_B)).is_some());
    assert!(Uid::parse(chars("0a1b2c3d-4e5f-6071-8293-a4b5c6d7e8f")).is_none());
    assert!(Uid::parse(chars("0a1b2c3d-4e5f-6071-8293-a4b5c6d7e8fG")).is_none());
    assert!(Uid::parse(chars("0a1b2c3d_4e5f_6071_8293_a4b5c6d7e8f9")).is_none());
}

#[test]
fn uid_parse_folds_uppercase() {
    // either case is accepted; the identifier keeps the canonical
    // lowercase form, so the same id in different cases compares equal
    let upper = Uid::parse(chars("0A1B2C3D-4E5F-6071-8293-A4B5C6D7E8F9")).expect("accepted");
    assert_eq!(upper, uid(ID_A));
}

#[test]
fn decode_event_with_uppercase_id() {
    let frame = chars(
        "{\"type\":\"TileProperties\",\"tile_id\":\"0A1B2C3D-4E5F-6071-8293-A4B5C6D7E8F9\",\"properties\":{}}",
    );
    let event = decode_event(&frame).expect("decodes");
    match event {
        ServerPluginMessage::TileProperties { tile_id, properties } => {
            assert_eq!(tile_id, uid(ID_A));
            assert_eq!(properties, Value::Obj(vec![]));
        },
        other => panic!("wrong event: {other:?}"),
    }
}
