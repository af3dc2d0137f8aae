use altium_tools::connect::polygon_connect_field;
use altium_tools::fields::PadStackMode;
use altium_tools::json::{Json, JsonNode};
use altium_tools::pads::{per_layer_corner_radii, per_layer_shapes};
use altium_tools::vocab::PadShape;
use altium_tools::McpServer;
use serde_json::Value;

fn to_json(v: &Value) -> Json {
    let node = match v {
        Value::Null => JsonNode::Null,
        Value::Bool(b) => JsonNode::Bool(*b),
        Value::Number(n) => match (n.as_u64(), n.as_i64()) {
            (Some(u), _) => JsonNode::PosInt(u),
            (None, Some(i)) => JsonNode::NegInt(i),
            _ => JsonNode::Float,
        },
        Value::String(s) => JsonNode::Str(s.clone()),
        Value::Array(items) => JsonNode::Array(items.iter().map(to_json).collect()),
        Value::Object(members) => {
            JsonNode::Object(members.iter().map(|(k, v)| (k.clone(), to_json(v))).collect())
        }
    };
    Json { node, text: v.to_string() }
}

fn parse(text: &str) -> Json {
    to_json(&serde_json::from_str::<Value>(text).expect("test JSON"))
}

fn pad_json() -> &'static str {
    r#"{ "designator": "1", "x": 0.0, "y": 0.0, "width": 1.0, "height": 1.0 }"#
}

#[test]
fn a_pad_names_the_missing_required_field() {
    for field in ["designator", "x", "y", "width", "height"] {
        let mut value: Value = serde_json::from_str(pad_json()).unwrap();
        value.as_object_mut().unwrap().remove(field);
        let err = McpServer::pad_designator(&to_json(&value)).unwrap_err();
        assert!(err.contains(field), "{err}");
        assert_eq!(err, format!("Pad missing required field '{field}'"));
    }
    assert_eq!(McpServer::pad_designator(&parse(pad_json())), Ok("1"));
}

#[test]
fn a_pad_rejects_an_empty_designator() {
    let err = McpServer::pad_designator(&parse(
        r#"{ "designator": "   ", "x": 0.0, "y": 0.0, "width": 1.0, "height": 1.0 }"#,
    ))
    .unwrap_err();
    assert!(err.contains("cannot be empty"), "{err}");
}

#[test]
fn a_pad_shape_defaults_to_rounded_rectangle() {
    assert_eq!(McpServer::pad_shape(&parse(pad_json()), "A1"), Ok(PadShape::RoundedRectangle));
    assert_eq!(
        McpServer::pad_shape(&parse(r#"{ "shape": "round" }"#), "A1"),
        Ok(PadShape::Round)
    );
    assert_eq!(
        McpServer::pad_shape(&parse(r#"{ "shape": 3 }"#), "A1"),
        Ok(PadShape::RoundedRectangle)
    );
    let err = McpServer::pad_shape(&parse(r#"{ "shape": "hexagon" }"#), "A1").unwrap_err();
    assert!(err.starts_with("Pad 'A1' has invalid shape 'hexagon'. Valid shapes are:"), "{err}");
}

#[test]
fn per_layer_shapes_are_read_by_index() {
    let json = parse(r#"{ "per_layer_shapes": ["round", "Rect", "oval"] }"#);
    assert_eq!(
        per_layer_shapes(&json, "1", PadStackMode::TopMiddleBottom),
        Ok(Some(vec![PadShape::Round, PadShape::Rectangle, PadShape::Oval]))
    );
    assert_eq!(per_layer_shapes(&parse("{}"), "1", PadStackMode::FullStack), Ok(None));
    let bad = parse(r#"{ "per_layer_shapes": ["round", 7, "oval"] }"#);
    let err = per_layer_shapes(&bad, "1", PadStackMode::TopMiddleBottom).unwrap_err();
    assert!(err.starts_with("Pad '1' per_layer_shapes[1] must be a string, got 7."), "{err}");
    let bad = parse(r#"{ "per_layer_shapes": ["round", "blob", "oval"] }"#);
    let err = per_layer_shapes(&bad, "1", PadStackMode::TopMiddleBottom).unwrap_err();
    assert!(err.starts_with("Pad '1' per_layer_shapes[1] 'blob' is not a shape."), "{err}");
}

#[test]
fn rounded_rectangle_is_refused_in_a_top_middle_bottom_stack() {
    let json = parse(r#"{ "per_layer_shapes": ["round", "rounded_rectangle", "rectangle"] }"#);
    let err = per_layer_shapes(&json, "1", PadStackMode::TopMiddleBottom).unwrap_err();
    assert!(
        err.contains("per_layer_shapes[1]: rounded_rectangle needs a per-layer corner radius"),
        "{err}"
    );
    assert!(err.contains("full_stack"), "{err}");
}

#[test]
fn per_layer_corner_radii_belong_to_a_full_stack() {
    let mut radii: Vec<Value> = (0..32).map(|i| Value::from(i % 101)).collect();
    let json = to_json(&Value::Object(
        [("per_layer_corner_radii".to_string(), Value::Array(radii.clone()))].into_iter().collect(),
    ));
    let got = per_layer_corner_radii(&json, "1", PadStackMode::FullStack).unwrap().unwrap();
    assert_eq!(got.len(), 32);
    assert_eq!(got[31], 31);
    let err = per_layer_corner_radii(&json, "1", PadStackMode::TopMiddleBottom).unwrap_err();
    assert!(err.contains("applies to a full_stack pad only"), "{err}");
    radii[5] = Value::from(150);
    let json = to_json(&Value::Object(
        [("per_layer_corner_radii".to_string(), Value::Array(radii))].into_iter().collect(),
    ));
    let err = per_layer_corner_radii(&json, "1", PadStackMode::FullStack).unwrap_err();
    assert_eq!(
        err,
        "Pad '1' per_layer_corner_radii[5] must be a whole number from 0 to 100, got 150"
    );
}

#[test]
fn pad_settings_read_plating_and_relief_defaults() {
    let s = McpServer::pad_settings(&parse(r#"{ "is_plated": false, "relief_entries": 2, "jumper_id": 70000 }"#), "1")
        .expect("settings");
    assert!(!s.is_plated);
    assert_eq!(s.relief_entries, 2);
    assert_eq!(s.jumper_id, 0, "a jumper id that does not fit takes the default");
    let bare = McpServer::pad_settings(&parse("{}"), "1").expect("settings");
    assert!(bare.is_plated);
    assert_eq!(bare.relief_entries, 4);
    assert_eq!(bare.hole_shape, None);
    assert_eq!(bare.corner_radius_percent, None);
    assert!(!bare.solder_mask_expansion_from_hole_edge);
}

#[test]
fn a_pad_hole_shape_is_read_and_an_unknown_one_refused() {
    let shape = |s: &str| {
        McpServer::pad_settings(&parse(&format!(r#"{{ "hole_shape": "{s}" }}"#)), "1")
            .map(|p| p.hole_shape)
    };
    assert_eq!(shape("square"), Ok(Some("square".to_string())));
    assert_eq!(shape("slot"), Ok(Some("slot".to_string())));
    assert_eq!(shape("SQUARE"), Ok(Some("square".to_string())));
    assert_eq!(shape("circle"), Ok(Some("round".to_string())));
    let err = shape("hexagon").unwrap_err();
    assert!(err.contains("Pad '1' hole_shape 'hexagon'"), "{err}");
    assert!(err.contains("round, square, slot"), "{err}");
}

#[test]
fn pad_enum_settings_refuse_an_unrecognised_name() {
    for (key, accepted) in [
        ("paste_mask_expansion_mode", "none, manual, from_rule"),
        ("solder_mask_expansion_mode", "none, manual, from_rule"),
        ("power_plane_connect_style", "relief, direct, no_connect"),
    ] {
        let err = McpServer::pad_settings(&parse(&format!(r#"{{ "{key}": "whatever" }}"#)), "1")
            .unwrap_err();
        assert!(err.contains(&format!("Pad '1' {key} 'whatever'")), "{err}");
        assert!(err.contains(accepted), "{err}");
    }
    let err = McpServer::pad_identity(&parse(r#"{ "stack_mode": "whatever" }"#), "1").unwrap_err();
    assert!(err.contains("Pad '1' stack_mode 'whatever'"), "{err}");
    assert!(err.contains("simple, top_middle_bottom, full_stack"), "{err}");
    let err = McpServer::pad_settings(&parse(r#"{ "hole_shape": 5 }"#), "1").unwrap_err();
    assert!(err.contains("hole_shape must be a string, got 5"), "{err}");
    assert!(err.contains("round, square, slot"), "{err}");
    let err = McpServer::pad_settings(&parse(r#"{ "corner_radius_percent": 120 }"#), "1").unwrap_err();
    assert_eq!(err, "Pad '1' corner_radius_percent must be a whole number from 0 to 100, got 120");
}

#[test]
fn pad_identity_keeps_its_guids_verbatim() {
    let p = McpServer::pad_identity(
        &parse(
            r#"{ "identity_guid": "{A5172B29-10E4-C726-929A-64E441352E67}",
                 "identity_guid_b": "{00000000-0000-0000-0000-000000000000}",
                 "stack_mode": "Full-Stack" }"#,
        ),
        "1",
    )
    .expect("identity");
    assert_eq!(p.identity_guid.as_deref(), Some("{A5172B29-10E4-C726-929A-64E441352E67}"));
    assert_eq!(p.identity_guid_b.as_deref(), Some("{00000000-0000-0000-0000-000000000000}"));
    assert_eq!(p.stack_mode, PadStackMode::FullStack);
    let bare = McpServer::pad_identity(&parse("{}"), "1").expect("identity");
    assert_eq!(bare.identity_guid, None);
    assert_eq!(bare.stack_mode, PadStackMode::Simple);
    let err = McpServer::pad_identity(&parse(r#"{ "identity_guid_b": "not-a-guid" }"#), "1").unwrap_err();
    assert!(err.contains("Pad '1' identity_guid_b 'not-a-guid' is not a GUID"), "{err}");
}

#[test]
fn a_polygon_connect_override_is_read_and_held_to_what_the_record_stores() {
    let field = "Pad '1' polygon_connect";
    let empty = polygon_connect_field(&parse("{}"), field).expect("an empty override");
    assert!(empty.style.is_none() && empty.conductors.is_none() && empty.rotation.is_none());
    assert!(empty.auto_conductors.is_none() && empty.min_distance_enabled.is_none());

    let full = polygon_connect_field(
        &parse(
            r#"{ "style": "no_connect", "air_gap": 0.2, "conductor_width": 0.3,
                 "conductors": 2, "auto_conductors": true, "rotation": 45, "min_distance": 0.5,
                 "min_distance_enabled": true }"#,
        ),
        field,
    )
    .expect("full override");
    assert_eq!(full.style.as_deref(), Some("no_connect"));
    assert_eq!(full.conductors, Some(2));
    assert_eq!(full.rotation, Some(45));
    assert_eq!(full.auto_conductors, Some(true));
    assert_eq!(full.min_distance_enabled, Some(true));
    assert_eq!(
        polygon_connect_field(&parse(r#"{ "rotation": 90.0, "conductors": 4 }"#), field)
            .expect("fractional rotation")
            .rotation,
        Some(90)
    );

    for (bad, needle) in [
        ("true", "must be an object"),
        (r#"{ "conductors": 3 }"#, "conductors must be 2 or 4"),
        (r#"{ "rotation": 30 }"#, "rotation must be 45 or 90"),
        (r#"{ "air_gap": -0.1 }"#, "air_gap must be a length"),
        (r#"{ "min_distance": "x" }"#, "min_distance must be a length"),
        (r#"{ "auto_conductors": 1 }"#, "auto_conductors must be true or false"),
        (r#"{ "min_distance_enabled": "yes" }"#, "min_distance_enabled must be true or false"),
        (r#"{ "style": "solid" }"#, "style"),
    ] {
        let err = polygon_connect_field(&parse(bad), field).expect_err(bad);
        assert!(err.contains(needle), "{bad}: {err}");
        assert!(err.contains("Pad '1' polygon_connect"), "{bad}: {err}");
    }
    let err = polygon_connect_field(&parse(r#"{ "conductors": 3 }"#), "Via polygon_connect")
        .expect_err("3 conductors");
    assert_eq!(err, "Via polygon_connect.conductors must be 2 or 4, got 3");
    // Negative zero is not below zero.
    assert!(polygon_connect_field(&parse(r#"{ "air_gap": -0.0 }"#), field).is_ok());
}
