use altium_tools::json::{Json, JsonNode};
use altium_tools::primitives::{contour_size, region_outline};
use altium_tools::McpServer;
use serde_json::Value;

fn to_json(v: &Value) -> Json {
    let node = match v {
        Value::Null => JsonNode::Null,
        Value::Bool(b) => JsonNode::Bool(*b),
        Value::Number(n) => match (n.as_u64(), n.as_i64()) {
            (Some(u), _) => JsonNode::PosInt(u),
            (None, Some(i)) => JsonNode::NegInt(i),
            _ => JsonNode::Float,
        },
        Value::String(s) => JsonNode::Str(s.clone()),
        Value::Array(items) => JsonNode::Array(items.iter().map(to_json).collect()),
        Value::Object(members) => {
            JsonNode::Object(members.iter().map(|(k, v)| (k.clone(), to_json(v))).collect())
        }
    };
    Json { node, text: v.to_string() }
}

fn parse(text: &str) -> Json {
    to_json(&serde_json::from_str::<Value>(text).expect("test JSON"))
}

fn without(text: &str, field: &str) -> Json {
    let mut value: Value = serde_json::from_str(text).unwrap();
    value.as_object_mut().unwrap().remove(field);
    to_json(&value)
}

fn items(text: &str) -> Vec<Json> {
    match parse(text).node {
        JsonNode::Array(items) => items,
        _ => panic!("an array"),
    }
}

#[test]
fn each_primitive_names_its_missing_field() {
    let track = r#"{ "x1": 0.0, "y1": 0.0, "x2": 1.0, "y2": 1.0, "width": 0.2 }"#;
    let keys = ["x1", "y1", "x2", "y2", "width"];
    for field in keys {
        let err = McpServer::required_numbers(&without(track, field), "Track", &keys).unwrap_err();
        assert_eq!(err, format!("Track missing required field '{field}'"));
    }
    assert_eq!(McpServer::required_numbers(&parse(track), "Track", &keys), Ok(()));
    let arc = r#"{ "x": 0.0, "y": 0.0, "radius": 1.0, "start_angle": 0.0, "end_angle": 90.0, "width": 0.2 }"#;
    let keys = ["x", "y", "radius", "start_angle", "end_angle", "width"];
    for field in keys {
        let err = McpServer::required_numbers(&without(arc, field), "Arc", &keys).unwrap_err();
        assert!(err.contains(field), "{err}");
    }
    // A number spelled as a string is no number.
    assert!(McpServer::required_numbers(&parse(r#"{ "x1": "0" }"#), "Fill", &["x1"]).is_err());
}

#[test]
fn a_primitive_tail_reads_indices_and_holds_its_guid() {
    let tail = McpServer::primitive_tail(
        &parse(r#"{ "net_index": 3, "keepout_restrictions": 4, "unique_id": "ABCD", "raw_layer_id": 57 }"#),
        "Track",
    )
    .expect("a tail");
    assert_eq!(tail.net_index, 3);
    assert_eq!(tail.polygon_index, 0xFFFF);
    assert_eq!(tail.component_index, -1);
    assert_eq!(tail.keepout_restrictions, Some(4));
    assert_eq!(tail.unique_id.as_deref(), Some("ABCD"));
    assert_eq!(tail.guid, None);
    assert_eq!(tail.raw_layer_id, Some(57));
    let err = McpServer::primitive_tail(&parse(r#"{ "guid": "not-a-guid" }"#), "Arc").unwrap_err();
    assert_eq!(
        err,
        "Arc guid 'not-a-guid' is not a GUID ({XXXXXXXX-XXXX-XXXX-XXXX-XXXXXXXXXXXX})"
    );
}

#[test]
fn a_region_outline_needs_three_whole_vertices() {
    let err = region_outline(&items(r#"[{ "x": 0.0, "y": 0.0 }, { "x": 1.0, "y": 0.0 }]"#))
        .unwrap_err();
    assert!(err.contains("at least 3 vertices, got 2"), "{err}");
    let err = region_outline(&items(
        r#"[{ "x": 0.0, "y": 0.0 }, { "x": 1.0, "y": 0.0 }, { "x": 1.0 }]"#,
    ))
    .unwrap_err();
    assert!(err.contains("outline vertex 2 is missing a numeric 'y'"), "{err}");
    assert_eq!(
        region_outline(&items(r#"[{ "x": 0, "y": 0 }, { "x": 1, "y": 0 }, { "x": 0, "y": 1 }]"#)),
        Ok(3)
    );
    assert_eq!(
        contour_size(&items(r#"[{ "y": 0 }]"#), "hole 4"),
        Err("Region hole 4 vertex 0 is missing a numeric 'x'".to_string())
    );
}

#[test]
fn region_holes_are_refused_by_index_when_malformed() {
    let holes = |text: &str| {
        McpServer::region_hole_sizes(&parse(&format!(r#"{{ "holes": {text} }}"#)))
    };
    let err = holes(r#""nope""#).unwrap_err();
    assert!(err.contains("holes must be an array"), "{err}");
    let err = holes(r#"["nope"]"#).unwrap_err();
    assert!(err.contains("hole 0 must be an array of vertices"), "{err}");
    let err = holes(r#"[[{ "x": 0.0, "y": 0.0 }, { "x": 1.0, "y": 0.0 }]]"#).unwrap_err();
    assert!(err.contains("hole 0 needs at least 3 vertices, got 2"), "{err}");
    let err = holes(r#"[[{ "x": 0.0, "y": 0.0 }, { "x": 1.0 }, { "x": 0.0, "y": 1.0 }]]"#)
        .unwrap_err();
    assert!(err.contains("hole 0 vertex 1 is missing a numeric 'y'"), "{err}");
    let three = r#"[{ "x": 0, "y": 0 }, { "x": 1, "y": 0 }, { "x": 0, "y": 1 }]"#;
    assert_eq!(holes(&format!("[{three}, {three}]")), Ok(vec![3, 3]));
    assert_eq!(holes("null"), Ok(vec![]));
    assert_eq!(McpServer::region_hole_sizes(&parse("{}")), Ok(vec![]));
}

#[test]
fn via_names_the_missing_field() {
    let base = r#"{ "x": 0.0, "y": 0.0, "diameter": 0.6, "hole_size": 0.3 }"#;
    for field in ["x", "y", "diameter", "hole_size"] {
        let err = McpServer::via_required(&without(base, field)).unwrap_err();
        assert_eq!(err, format!("Via missing required field '{field}'"));
    }
    assert_eq!(McpServer::via_required(&parse(base)), Ok(()));
}

#[test]
fn via_options_read_the_optional_tail() {
    let via = McpServer::via_options(&parse(
        r#"{ "solder_mask_expansion_from_hole_edge": true,
             "solder_mask_expansion_mode": "manual",
             "drill_layer_pair_type": "mid",
             "thermal_relief_conductors": 4,
             "power_plane_connect_style": "direct",
             "net_index": 7 }"#,
    ))
    .expect("via options");
    assert_eq!(via.solder_mask_expansion_from_hole_edge, Some(true));
    assert_eq!(via.solder_mask_expansion_mode.as_deref(), Some("manual"));
    assert_eq!(via.drill_layer_pair_type.as_deref(), Some("mid"));
    assert_eq!(via.thermal_relief_conductors, Some(4));
    assert_eq!(via.power_plane_connect_style.as_deref(), Some("direct"));
    assert_eq!(via.net_index, Some(7));
    assert_eq!(via.diameter_stack_mode, "simple");
    assert_eq!(via.per_layer_diameter_count, None);
    let plain = McpServer::via_options(&parse("{}")).expect("defaults");
    assert_eq!(plain.net_index, None);
    assert_eq!(plain.polygon_index, 0xFFFF);
}

#[test]
fn via_refuses_an_unrecognised_enum_name() {
    for (key, accepted) in [
        ("solder_mask_expansion_mode", "none, manual, from_rule"),
        ("drill_layer_pair_type", "through, blind_buried_start, mid, end"),
        ("power_plane_connect_style", "relief, direct, no_connect"),
        ("diameter_stack_mode", "simple, top_middle_bottom, full_stack"),
    ] {
        let err = McpServer::via_options(&parse(&format!(r#"{{ "{key}": "whatever" }}"#)))
            .unwrap_err();
        assert!(err.contains(&format!("Via {key} 'whatever'")), "{err}");
        assert!(err.contains(accepted), "{err}");
    }
}

#[test]
fn via_refuses_a_diameter_stack_the_record_cannot_hold() {
    let with = |mode: &str, diameters: &str| {
        McpServer::via_options(&parse(&format!(
            r#"{{ "diameter_stack_mode": "{mode}", "per_layer_diameters": {diameters} }}"#
        )))
    };
    let err = with("full_stack", "[0.6, 0.7, 0.8]").unwrap_err();
    assert!(
        err.contains(
            "Via per_layer_diameters has 3 entries; a stacked via takes 32 (index 0 = Top, 1 = Bottom, 2-31 = Mid layers)"
        ),
        "{err}"
    );
    let stack: Vec<String> = (0..32).map(|_| "0.6".to_string()).collect();
    let err = with("simple", &format!("[{}]", stack.join(", "))).unwrap_err();
    assert!(err.contains("Via per_layer_diameters is given but diameter_stack_mode is simple"), "{err}");
    let mut bad = stack.clone();
    bad[5] = "\"thick\"".to_string();
    let err = with("top_middle_bottom", &format!("[{}]", bad.join(", "))).unwrap_err();
    assert!(err.contains("Via per_layer_diameters[5] must be a number, got \"thick\""), "{err}");
    let err = with("full_stack", "\"wide\"").unwrap_err();
    assert!(err.contains("Via per_layer_diameters must be an array, got \"wide\""), "{err}");
    let ok = with("full_stack", &format!("[{}]", stack.join(", "))).expect("a full stack");
    assert_eq!(ok.per_layer_diameter_count, Some(32));
    assert_eq!(ok.diameter_stack_mode, "full_stack");
}

#[test]
fn parse_text_reads_authoring_fields() {
    let text = McpServer::parse_text(&parse(
        r#"{ "x": 0.0, "y": 0.0, "text": "REF", "height": 0.5, "layer": "Top Overlay",
             "kind": "true_type", "stroke_font": "serif", "italic": true, "bold": true,
             "mirror": true, "is_comment": true, "is_designator": true,
             "font_name": "Times New Roman", "justification": "top_right" }"#,
    ))
    .expect("text should parse");
    assert_eq!(text.kind, "true_type");
    assert_eq!(text.stroke_font.as_deref(), Some("serif"));
    assert!(text.italic);
    assert!(text.bold);
    assert!(text.mirror);
    assert!(text.is_comment);
    assert!(text.is_designator);
    assert_eq!(text.font_name, "Times New Roman");
    assert_eq!(text.justification, "top_right");
}

#[test]
fn parse_text_defaults_are_template_identical() {
    let text = McpServer::parse_text(&parse(
        r#"{ "x": 0.0, "y": 0.0, "text": "REF", "height": 0.5, "layer": "Top Overlay" }"#,
    ))
    .expect("text should parse");
    assert_eq!(text.kind, "stroke");
    assert_eq!(text.stroke_font, None);
    assert!(!text.italic);
    assert!(!text.bold);
    assert!(!text.mirror);
    assert!(!text.is_comment, "absent is_comment stays template false");
    assert!(!text.is_designator, "absent is_designator stays template false");
    assert_eq!(text.font_name, "Arial");
    assert_eq!(text.justification, "bottom_left");
}

#[test]
fn parse_text_refuses_a_font_name_longer_than_a_face_name() {
    let with = |key: &str, name: String| {
        let mut value: Value =
            serde_json::from_str(r#"{ "x": 0.0, "y": 0.0, "text": "T", "height": 1.0 }"#).unwrap();
        value[key] = Value::String(name);
        McpServer::parse_text(&to_json(&value))
    };
    let longest = "F".repeat(31);
    assert_eq!(with("font_name", longest.clone()).unwrap().font_name, longest);
    assert_eq!(
        with("barcode_font_name", longest.clone()).unwrap().barcode_font_name,
        longest
    );
    let err = with("font_name", "F".repeat(32)).unwrap_err();
    assert!(
        err.contains("Text font_name 'FFFFFFFFFFFFFFFFFFFFFFFFFFFFFFFF' is 32 UTF-16 units long"),
        "{err}"
    );
    let err = with("barcode_font_name", "\u{1F600}".repeat(16)).unwrap_err();
    assert!(err.contains("is 32 UTF-16 units long"), "{err}");
}

#[test]
fn parse_text_refuses_an_unrecognised_enum_name() {
    let with = |key: &str, value: &str| {
        McpServer::parse_text(&parse(&format!(
            r#"{{ "x": 0.0, "y": 0.0, "text": "T", "height": 1.0, "{key}": "{value}" }}"#
        )))
        .unwrap_err()
    };
    let err = with("kind", "hologram");
    assert!(
        err.contains("Text kind 'hologram'") && err.contains("stroke, true_type, bar_code"),
        "{err}"
    );
    let err = with("stroke_font", "comic");
    assert!(
        err.contains("Text stroke_font 'comic'") && err.contains("default, sans_serif, serif"),
        "{err}"
    );
    let err = with("justification", "sideways");
    assert!(
        err.contains("Text justification 'sideways'") && err.contains("bottom_left"),
        "{err}"
    );
}

#[test]
fn a_text_names_what_it_is_missing_in_order() {
    let err = |text: &str| McpServer::parse_text(&parse(text)).unwrap_err();
    assert_eq!(err(r#"{ "y": 0, "text": "T", "height": 1 }"#), "Text is missing a numeric 'x'");
    assert_eq!(err(r#"{ "x": 0, "text": "T" }"#), "Text is missing a numeric 'y'");
    assert_eq!(err(r#"{ "x": 0, "y": 0, "height": 1 }"#), "Text is missing its 'text' string");
    assert_eq!(err(r#"{ "x": 0, "y": 0, "text": "T" }"#), "Text is missing a numeric 'height'");
    let e = err(r#"{ "x": 0, "y": 0, "text": "T", "height": 1, "guid": "x" }"#);
    assert!(e.starts_with("Text guid 'x' is not a GUID"), "{e}");
}

#[test]
fn a_component_body_takes_the_create_defaults() {
    let body = McpServer::parse_component_body_fields(&parse(r#"{ "overall_height": 1.0 }"#))
        .expect("a body");
    assert_eq!(body.name, " ");
    assert_eq!(body.identifier, "");
    assert_eq!(body.body_color_3d, 8_421_504);
    assert_eq!(body.sub_poly_index, -1);
    assert_eq!(body.net_index, 0xFFFF);
    assert_eq!(body.kind, 0);
    assert!(!body.embedded);
    let body = McpServer::parse_component_body_fields(&parse(
        r#"{ "model_name": "SOT23.step", "kind": 300, "body_projection": 1, "model_checksum": -12,
             "additional_parameters": [["A", "1"]], "param_key_order": ["A"] }"#,
    ))
    .expect("a body");
    assert_eq!(body.model_name, "SOT23.step");
    assert_eq!(body.kind, 0, "a kind that does not fit a byte takes the default");
    assert_eq!(body.body_projection, 1);
    assert_eq!(body.model_checksum, -12);
    assert_eq!(body.additional_parameters, vec![("A".to_string(), "1".to_string())]);
    assert_eq!(body.param_key_order, vec!["A"]);
    let err = McpServer::parse_component_body_fields(&parse(r#"{ "guid": "bad" }"#)).unwrap_err();
    assert!(err.starts_with("Component body guid 'bad' is not a GUID"), "{err}");
}
