use altium_tools::json::{Json, JsonNode};
use altium_tools::records::{
    json_raw_params, parse_footprint_link, parse_schlib_display_flags, parse_symbol_header,
    pin_tip, symbol_designator, Pin, PinElectricalType, PinFrac, PinOrientation, PinSymbol,
};
use altium_tools::McpServer;
use serde_json::Value;

fn to_json(v: &Value) -> Json {
    let node = match v {
        Value::Null => JsonNode::Null,
        Value::Bool(b) => JsonNode::Bool(*b),
        Value::Number(n) => match (n.as_u64(), n.as_i64()) {
            (Some(u), _) => JsonNode::PosInt(u),
            (None, Some(i)) => JsonNode::NegInt(i),
            _ => JsonNode::Float,
        },
        Value::String(s) => JsonNode::Str(s.clone()),
        Value::Array(items) => JsonNode::Array(items.iter().map(to_json).collect()),
        Value::Object(members) => {
            JsonNode::Object(members.iter().map(|(k, v)| (k.clone(), to_json(v))).collect())
        }
    };
    Json { node, text: v.to_string() }
}

fn parse(text: &str) -> Json {
    to_json(&serde_json::from_str::<Value>(text).expect("test JSON"))
}

fn pin(x: i32, y: i32, length: i32, orientation: PinOrientation) -> Pin {
    let json = parse(&format!(
        r#"{{ "designator": "1", "name": "N", "x": {x}, "y": {y}, "length": {length},
             "orientation": "{}" }}"#,
        orientation.name()
    ));
    McpServer::parse_schlib_pin(&json).expect("pin should parse")
}

#[test]
fn key_order_is_taken_from_the_region_that_read_it() {
    assert_eq!(
        McpServer::parse_key_order(&parse(r#"{ "param_key_order": ["VERSION", "UNITS", "DATE"] }"#)),
        vec!["VERSION", "UNITS", "DATE"]
    );
    assert_eq!(
        McpServer::parse_key_order(&parse(r#"{ "param_key_order": ["A", 7, null, "B"] }"#)),
        vec!["A", "B"]
    );
    for absent in [parse("{}"), parse(r#"{ "param_key_order": null }"#)] {
        assert!(McpServer::parse_key_order(&absent).is_empty(), "{}", absent.text);
    }
}

#[test]
fn additional_parameters_keep_string_pairs_and_drop_the_rest() {
    let json = parse(
        r#"{ "additional_parameters": [["A", "1"], ["B"], ["C", 3], "D", ["E", "5", "extra"]] }"#,
    );
    assert_eq!(
        McpServer::parse_additional_parameters(&json),
        vec![
            ("A".to_string(), "1".to_string()),
            ("E".to_string(), "5".to_string())
        ]
    );
    assert!(McpServer::parse_additional_parameters(&parse("{}")).is_empty());
}

#[test]
fn raw_params_are_all_or_nothing() {
    assert_eq!(
        json_raw_params(&parse(r#"{ "raw_params": [["K", "V"], ["L", "W"]] }"#)),
        vec![
            ("K".to_string(), "V".to_string()),
            ("L".to_string(), "W".to_string())
        ]
    );
    assert!(json_raw_params(&parse(r#"{ "raw_params": [["K", "V"], ["L"]] }"#)).is_empty());
    assert!(json_raw_params(&parse(r#"{ "raw_params": "K=V" }"#)).is_empty());
    assert!(json_raw_params(&parse("{}")).is_empty());
}

#[test]
fn unknown_fields_are_named_along_with_what_was_allowed() {
    let err = McpServer::check_unknown_fields(&parse(r#"{ "widht": 1.0 }"#), &["width"])
        .expect_err("an unknown field must be refused");
    assert!(err.contains("widht"), "{err}");
    assert!(err.contains("width"), "{err}");
    assert_eq!(err, "Unknown field 'widht'. Allowed fields are: [\"width\"]");

    assert!(McpServer::check_unknown_fields(&parse("42"), &["width"]).is_ok());
    assert!(McpServer::check_unknown_fields(&parse(r#"{ "width": 1.0 }"#), &["width"]).is_ok());
}

#[test]
fn parse_schlib_pin_reads_authoring_fields() {
    let pin = McpServer::parse_schlib_pin(&parse(
        r#"{
            "designator": "1", "name": "P1", "x": 0, "y": 0, "length": 10,
            "orientation": "left",
            "description": "clock input",
            "colour": 65280,
            "graphically_locked": true,
            "swap_id_group": "grpA",
            "part_and_sequence": "|1&2|",
            "default_value": "0",
            "owner_part_display_mode": 2,
            "symbol_line_width": 3,
            "frac": { "x": 50000, "y": -25000, "length": 0 }
        }"#,
    ))
    .expect("pin should parse");
    assert_eq!(pin.description, "clock input");
    assert_eq!(pin.colour, 0x00_FF_00);
    assert!(pin.graphically_locked);
    assert_eq!(pin.swap_id_group, "grpA");
    assert_eq!(pin.part_and_sequence, "|1&2|");
    assert_eq!(pin.default_value, "0");
    assert_eq!(pin.owner_part_display_mode, 2);
    assert_eq!(pin.symbol_line_width, 3);
    assert_eq!(
        pin.frac,
        Some(PinFrac {
            x: 50000,
            y: -25000,
            length: 0
        })
    );
}

#[test]
fn parse_schlib_pin_defaults_match_struct() {
    let pin = McpServer::parse_schlib_pin(&parse(
        r#"{ "designator": "1", "name": "P1", "x": 0, "y": 0, "length": 10, "orientation": "left" }"#,
    ))
    .expect("pin should parse");
    assert_eq!(pin.description, "");
    assert_eq!(pin.colour, 0);
    assert!(!pin.graphically_locked);
    assert_eq!(pin.swap_id_group, "");
    assert_eq!(pin.part_and_sequence, "|&|");
    assert_eq!(pin.default_value, "");
    assert_eq!(pin.owner_part_display_mode, 0);
    assert_eq!(pin.symbol_line_width, 0);
    assert_eq!(pin.frac, None);
    assert_eq!(pin.orientation, PinOrientation::Left);
    assert_eq!(pin.electrical_type, PinElectricalType::Passive);
    assert_eq!(pin.symbol_outer_edge, PinSymbol::NoSymbol);
}

#[test]
fn parse_schlib_pin_reads_open_collector_electrical_type() {
    let oc = McpServer::parse_schlib_pin(&parse(
        r#"{ "designator": "1", "name": "P1", "x": 0, "y": 0, "length": 10,
             "orientation": "left", "electrical_type": "open_collector" }"#,
    ))
    .expect("pin should parse");
    assert_eq!(oc.electrical_type, PinElectricalType::OpenCollector);
    let tri = McpServer::parse_schlib_pin(&parse(
        r#"{ "designator": "2", "name": "P2", "x": 0, "y": 0, "length": 10,
             "orientation": "left", "electrical_type": "tristate" }"#,
    ))
    .expect("pin should parse");
    assert_eq!(tri.electrical_type, PinElectricalType::HiZ);
}

#[test]
fn parse_schlib_pin_refuses_an_unrecognised_enum_name() {
    let with = |key: &str, value: &str| {
        let json = parse(&format!(
            r#"{{ "designator": "7", "x": 0, "y": 0, "{key}": "{value}" }}"#
        ));
        McpServer::parse_schlib_pin(&json).unwrap_err()
    };
    let err = with("orientation", "sideways");
    assert!(
        err.contains("Pin '7' orientation 'sideways'") && err.contains("left, right, up, down"),
        "{err}"
    );
    let err = with("electrical_type", "magic");
    assert!(
        err.contains("Pin '7' electrical_type 'magic'") && err.contains("open_collector"),
        "{err}"
    );
    let err = with("symbol_inner_edge", "sparkle");
    assert!(
        err.contains("Pin '7' symbol_inner_edge 'sparkle'") && err.contains("clock"),
        "{err}"
    );
}

#[test]
fn pin_tip_points_outward_per_orientation() {
    assert_eq!(pin_tip(&pin(-40, 20, 30, PinOrientation::Left)), (-70, 20));
    assert_eq!(pin_tip(&pin(40, 20, 30, PinOrientation::Right)), (70, 20));
    assert_eq!(pin_tip(&pin(0, 0, 30, PinOrientation::Up)), (0, 30));
    assert_eq!(pin_tip(&pin(0, 0, 30, PinOrientation::Down)), (0, -30));
}

#[test]
fn malformed_names_the_kind_and_index() {
    let e = McpServer::malformed("write_schlib", "/lib/a.SchLib", "U1", "pin", 3, "bad x");
    assert_eq!(e.operation, "write_schlib");
    assert_eq!(e.message, "Malformed pin: bad x");
    assert_eq!(e.filepath.as_deref(), Some("/lib/a.SchLib"));
    assert_eq!(e.component.as_deref(), Some("U1"));
    assert_eq!(e.details.as_deref(), Some("Failed to parse pin at index 3"));
}

#[test]
fn symbol_designator_follows_its_precedence() {
    assert_eq!(symbol_designator(Some("R7"), Some("C"), Some("diode")), "R7");
    assert_eq!(symbol_designator(None, Some("C"), Some("diode")), "C?");
    assert_eq!(symbol_designator(None, None, Some(" Diode ")), "D?");
    assert_eq!(symbol_designator(None, None, None), "U?");
}

#[test]
fn symbol_header_reads_and_clamps() {
    let h = parse_symbol_header(
        &parse(
            r#"{ "component_type": "crystal", "part_count": 900, "display_mode_count": 2,
                 "part_id_locked": false, "all_pin_count": 5000000000, "description": "x" }"#,
        ),
        "NEW",
    );
    assert_eq!(h.name, "NEW");
    assert_eq!(h.designator, "Y?");
    assert_eq!(h.part_count, Some(255));
    assert_eq!(h.display_mode_count, Some(2));
    assert_eq!(h.current_part_id, None);
    assert_eq!(h.part_id_locked, Some(false));
    assert_eq!(h.all_pin_count, Some(None));
    assert_eq!(h.description.as_deref(), Some("x"));
    let zero = parse_symbol_header(&parse(r#"{ "name": "U9", "part_count": 0 }"#), "NEW");
    assert_eq!(zero.name, "U9");
    assert_eq!(zero.part_count, Some(1));
    assert_eq!(zero.designator, "U?");
}

#[test]
fn footprint_link_needs_a_name() {
    assert!(parse_footprint_link(&parse(r#"{ "description": "d" }"#)).is_none());
    let l = parse_footprint_link(&parse(
        r#"{ "name": "SOIC8", "library_path": "a.PcbLib", "is_current": true }"#,
    ))
    .expect("a named link");
    assert_eq!(l.name, "SOIC8");
    assert_eq!(l.library_path.as_deref(), Some("a.PcbLib"));
    assert_eq!(l.description, None);
    assert!(l.is_current);
}

#[test]
fn display_flags_default_to_off() {
    let f = parse_schlib_display_flags(&parse(r#"{ "dimmed": true, "owner_part_display_mode": 1 }"#));
    assert!(f.dimmed && !f.disabled && !f.graphically_locked);
    assert_eq!(f.owner_part_display_mode, 1);
}
