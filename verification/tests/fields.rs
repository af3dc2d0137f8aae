use altium_tools::fields::{
    font_face_name, guid_field, json_base64, json_component_index, json_guidless_opt, json_i32,
    json_keepout, json_net_index, json_polygon_index, json_raw_layer_id, json_unique_id, percent,
    stack_entries, PadStackMode,
};
use altium_tools::json::{Json, JsonNode};
use serde_json::Value;

fn to_json(v: &Value) -> Json {
    let node = match v {
        Value::Null => JsonNode::Null,
        Value::Bool(b) => JsonNode::Bool(*b),
        Value::Number(n) => match (n.as_u64(), n.as_i64()) {
            (Some(u), _) => JsonNode::PosInt(u),
            (None, Some(i)) => JsonNode::NegInt(i),
            _ => JsonNode::Float,
        },
        Value::String(s) => JsonNode::Str(s.clone()),
        Value::Array(items) => JsonNode::Array(items.iter().map(to_json).collect()),
        Value::Object(members) => {
            JsonNode::Object(members.iter().map(|(k, v)| (k.clone(), to_json(v))).collect())
        }
    };
    Json { node, text: v.to_string() }
}

fn parse(text: &str) -> Json {
    to_json(&serde_json::from_str::<Value>(text).expect("test JSON"))
}

#[test]
fn json_i32_drops_fractional_coordinate() {
    assert_eq!(json_i32(&parse(r#"{ "x": 3.75 }"#), "x"), None);
    assert_eq!(json_i32(&parse(r#"{ "x": 3 }"#), "x"), Some(3));
}

#[test]
fn json_i32_refuses_what_does_not_fit() {
    assert_eq!(json_i32(&parse(r#"{ "x": -2147483648 }"#), "x"), Some(i32::MIN));
    assert_eq!(json_i32(&parse(r#"{ "x": 2147483648 }"#), "x"), None);
    assert_eq!(json_i32(&parse(r#"{ "x": "7" }"#), "x"), None);
    assert_eq!(json_i32(&parse(r#"[1]"#), "x"), None);
}

#[test]
fn json_unique_id_reads_and_defaults() {
    assert_eq!(
        json_unique_id(&parse(r#"{ "unique_id": "QHHMRSCB" }"#)).as_deref(),
        Some("QHHMRSCB")
    );
    assert_eq!(json_unique_id(&parse(r#"{}"#)), None);
    assert_eq!(json_guidless_opt(&parse(r#"{ "k": 5 }"#), "k"), None);
}

#[test]
fn json_base64_decodes_and_ignores_invalid() {
    assert_eq!(
        json_base64(&parse(r#"{ "raw": "AAEC" }"#), "raw"),
        Some(vec![0u8, 1, 2])
    );
    assert_eq!(json_base64(&parse(r#"{ "raw": "!!!" }"#), "raw"), None);
    assert_eq!(json_base64(&parse(r#"{}"#), "raw"), None);
}

#[test]
fn header_indices_default_when_absent_or_out_of_range() {
    let json = parse(
        r#"{ "net_index": 12, "polygon_index": 70000, "component_index": -3,
             "keepout_restrictions": 300, "raw_layer_id": 74 }"#,
    );
    assert_eq!(json_net_index(&json), 12);
    assert_eq!(json_polygon_index(&json), 0xFFFF);
    assert_eq!(json_component_index(&json), -3);
    assert_eq!(json_keepout(&json), None);
    assert_eq!(json_raw_layer_id(&json), Some(74));
    let empty = parse("{}");
    assert_eq!(json_net_index(&empty), 0xFFFF);
    assert_eq!(json_component_index(&empty), -1);
    assert_eq!(json_keepout(&parse(r#"{ "keepout_restrictions": 5 }"#)), Some(5));
}

#[test]
fn guid_field_keeps_each_spelling_and_refuses_the_rest() {
    for guid in [
        "{01234567-89AB-CDEF-0123-456789ABCDEF}",
        "01234567-89ab-cdef-0123-456789abcdef",
        "0123456789ABCDEF0123456789ABCDEF",
    ] {
        let json = to_json(&Value::Object(
            [("guid".to_string(), Value::String(guid.to_string()))].into_iter().collect(),
        ));
        assert_eq!(guid_field(&json, "guid", "Pad '1' guid"), Ok(Some(guid.to_string())));
    }
    assert_eq!(guid_field(&parse("{}"), "guid", "Track guid"), Ok(None));
    assert_eq!(guid_field(&parse(r#"{ "guid": null }"#), "guid", "Track guid"), Ok(None));
    assert_eq!(
        guid_field(&parse(r#"{ "guid": "not-a-guid" }"#), "guid", "Track guid"),
        Err("Track guid 'not-a-guid' is not a GUID ({XXXXXXXX-XXXX-XXXX-XXXX-XXXXXXXXXXXX})"
            .to_string())
    );
    assert_eq!(
        guid_field(&parse(r#"{ "guid": 7 }"#), "guid", "Fill guid"),
        Err("Fill guid must be a string, got 7".to_string())
    );
}

#[test]
fn percent_takes_whole_numbers_up_to_one_hundred() {
    assert_eq!(percent(&parse("0"), "r"), Ok(0));
    assert_eq!(percent(&parse("100"), "r"), Ok(100));
    assert_eq!(
        percent(&parse("101"), "r"),
        Err("r must be a whole number from 0 to 100, got 101".to_string())
    );
    assert_eq!(
        percent(&parse("-1"), "r"),
        Err("r must be a whole number from 0 to 100, got -1".to_string())
    );
    assert_eq!(
        percent(&parse("50.5"), "r"),
        Err("r must be a whole number from 0 to 100, got 50.5".to_string())
    );
}

#[test]
fn stack_entries_hold_the_count_the_mode_stores() {
    let three = parse(r#"{ "s": [1, 2, 3] }"#);
    assert_eq!(
        stack_entries(&three, "s", PadStackMode::TopMiddleBottom, false, "Pad '1' s")
            .map(|o| o.map(|e| e.len())),
        Ok(Some(3))
    );
    assert_eq!(
        stack_entries(&three, "absent", PadStackMode::Simple, false, "f").map(|o| o.is_none()),
        Ok(true)
    );
    let err = stack_entries(&three, "s", PadStackMode::Simple, false, "Pad '1' s").unwrap_err();
    assert!(err.starts_with("Pad '1' s is given but stack_mode is simple"), "{err}");
    let err = stack_entries(&three, "s", PadStackMode::TopMiddleBottom, true, "f").unwrap_err();
    assert_eq!(
        err,
        "f applies to a full_stack pad only; a top_middle_bottom pad stores per-layer sizes and shapes"
    );
    let err = stack_entries(&three, "s", PadStackMode::FullStack, false, "f").unwrap_err();
    assert_eq!(
        err,
        "f has 3 entries; full_stack takes 32 (index 0 = Top, 1 = Bottom, 2-31 = Mid layers)"
    );
    let err = stack_entries(&parse(r#"{ "s": 4 }"#), "s", PadStackMode::FullStack, false, "f")
        .unwrap_err();
    assert_eq!(err, "f must be an array, got 4");
}

#[test]
fn font_face_names_are_held_to_thirty_one_utf16_units() {
    let ok = "A".repeat(31);
    assert_eq!(font_face_name(&ok, "Text font_name"), Ok(ok.as_str()));
    let long = "A".repeat(32);
    assert_eq!(
        font_face_name(&long, "Text font_name"),
        Err(format!(
            "Text font_name '{long}' is 32 UTF-16 units long; a Windows font face name has at most 31"
        ))
    );
    // A character outside the basic plane counts twice.
    let astral = "\u{1F600}".repeat(16);
    assert!(font_face_name(&astral, "f").is_err());
    assert!(font_face_name(&"\u{1F600}".repeat(15), "f").is_ok());
}
