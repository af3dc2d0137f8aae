use altium_tools::json::{Json, JsonNode};
use altium_tools::symbol::{Refusal, SymbolKeys, SymbolParts};
use altium_tools::McpServer;
use serde_json::Value;

fn to_json(v: &Value) -> Json {
    let node = match v {
        Value::Null => JsonNode::Null,
        Value::Bool(b) => JsonNode::Bool(*b),
        Value::Number(n) => match (n.as_u64(), n.as_i64()) {
            (Some(u), _) => JsonNode::PosInt(u),
            (None, Some(i)) => JsonNode::NegInt(i),
            _ => JsonNode::Float,
        },
        Value::String(s) => JsonNode::Str(s.clone()),
        Value::Array(items) => JsonNode::Array(items.iter().map(to_json).collect()),
        Value::Object(members) => {
            JsonNode::Object(members.iter().map(|(k, v)| (k.clone(), to_json(v))).collect())
        }
    };
    Json { node, text: v.to_string() }
}

fn parse(text: &str) -> Json {
    to_json(&serde_json::from_str::<Value>(text).expect("test JSON"))
}

const SYMBOL: &[&str] = &[
    "name", "description", "designator", "pins", "rectangles", "round_rects", "lines",
    "polylines", "polygons", "arcs", "pies", "images", "text_frames", "beziers",
    "elliptical_arcs", "ellipses", "labels", "ieee_symbols", "parameters", "footprints",
];
const PIN: &[&str] = &["designator", "name", "x", "y", "length", "orientation"];
const BOX: &[&str] = &["x1", "y1", "x2", "y2", "corner_x_radius", "corner_y_radius", "filled"];
const CENTRED: &[&str] = &["x", "y", "radius", "radius_x", "radius_y", "secondary_radius", "symbol"];
const POINTS: &[&str] = &["points", "vertices", "color"];
const LABEL: &[&str] = &["x", "y", "text"];
const PARAMETER: &[&str] = &["name", "value"];
const FOOTPRINT: &[&str] = &["name", "description", "library_path"];

fn keys() -> SymbolKeys<'static> {
    SymbolKeys {
        symbol: SYMBOL,
        pin: PIN,
        rectangle: BOX,
        round_rect: BOX,
        line: BOX,
        polyline: POINTS,
        polygon: POINTS,
        arc: CENTRED,
        pie: CENTRED,
        image: BOX,
        text_frame: BOX,
        bezier: &["x1", "y1", "x2", "y2", "x3", "y3", "x4", "y4"],
        elliptical_arc: CENTRED,
        ellipse: CENTRED,
        label: LABEL,
        ieee_symbol: CENTRED,
        parameter: PARAMETER,
        footprint: FOOTPRINT,
    }
}

fn read(text: &str) -> Result<SymbolParts, Refusal> {
    let json = parse(text);
    // Every point list in these symbols is written as `{x, y}` pairs.
    let pairs = |key: &str| -> Vec<usize> {
        match json.get(key).and_then(|list| list.as_array()) {
            Some(records) => records
                .iter()
                .map(|r| McpServer::schlib_point_list(r).map_or(0, |points| points.len()))
                .collect(),
            None => Vec::new(),
        }
    };
    let polylines = pairs("polylines");
    let polygons = pairs("polygons");
    McpServer::parse_symbol_parts(
        &json,
        &keys(),
        "write_schlib",
        "Bad.SchLib",
        "Default",
        &polylines,
        &polygons,
    )
}

#[test]
fn malformed_symbol_records_are_refused_not_dropped() {
    for (kind, symbol) in [
        ("pin", r#"{ "name": "B", "pins": [{ "name": "A" }] }"#),
        ("rectangle", r#"{ "name": "B", "rectangles": [{}] }"#),
        ("round_rect", r#"{ "name": "B", "round_rects": [{}] }"#),
        ("line", r#"{ "name": "B", "lines": [{}] }"#),
        ("polyline", r#"{ "name": "B", "polylines": [{}] }"#),
        ("polygon", r#"{ "name": "B", "polygons": [{ "points": [{ "x": 0, "y": 0 }] }] }"#),
        ("arc", r#"{ "name": "B", "arcs": [{}] }"#),
        ("pie", r#"{ "name": "B", "pies": [{}] }"#),
        ("image", r#"{ "name": "B", "images": [{}] }"#),
        ("text_frame", r#"{ "name": "B", "text_frames": [{}] }"#),
        ("bezier", r#"{ "name": "B", "beziers": [{}] }"#),
        ("elliptical_arc", r#"{ "name": "B", "elliptical_arcs": [{}] }"#),
        ("ellipse", r#"{ "name": "B", "ellipses": [{}] }"#),
        ("label", r#"{ "name": "B", "labels": [{}] }"#),
        ("IEEE symbol", r#"{ "name": "B", "ieee_symbols": [{}] }"#),
        ("parameter", r#"{ "name": "B", "parameters": [{ "value": "1k" }] }"#),
        ("footprint link", r#"{ "name": "B", "footprints": [{ "description": "no name" }] }"#),
    ] {
        match read(symbol) {
            Err(Refusal::Malformed(m)) => {
                assert_eq!(
                    m.details.as_deref(),
                    Some(format!("Failed to parse {kind} at index 0").as_str()),
                    "{kind}"
                );
                assert!(m.message.starts_with(&format!("Malformed {kind}: ")), "{}", m.message);
                assert_eq!(m.component.as_deref(), Some("B"));
                assert_eq!(m.filepath.as_deref(), Some("Bad.SchLib"));
                assert_eq!(m.operation, "write_schlib");
            }
            Err(Refusal::UnknownField(e)) => panic!("{kind}: refused for a key: {e}"),
            Err(other) => panic!("{kind}: refused otherwise: {other:?}"),
            Ok(_) => panic!("{kind}: a malformed record was accepted"),
        }
    }
}

#[test]
fn a_pin_refusal_carries_the_pin_readers_reason() {
    match read(r#"{ "name": "B", "pins": [{ "designator": "1", "x": 0, "y": 0 }, { "name": "A" }] }"#) {
        Err(Refusal::Malformed(m)) => {
            assert_eq!(m.message, "Malformed pin: Pin is missing its 'designator' string");
            assert_eq!(m.details.as_deref(), Some("Failed to parse pin at index 1"));
        }
        _ => panic!("the second pin should refuse the symbol"),
    }
}

#[test]
fn a_symbol_is_held_to_its_keys_before_its_records() {
    match read(r#"{ "name": "B", "colour": 3, "rectangles": [{}] }"#) {
        Err(Refusal::UnknownField(e)) => assert!(e.starts_with("Unknown field 'colour'"), "{e}"),
        _ => panic!("an unknown symbol key should refuse the symbol"),
    }
    match read(r#"{ "name": "B", "lines": [{ "x1": 0, "y1": 0, "x2": 1, "y2": 1, "width": 2 }] }"#) {
        Err(Refusal::UnknownField(e)) => assert!(e.starts_with("Unknown field 'width'"), "{e}"),
        _ => panic!("an unknown line key should refuse the symbol"),
    }
}

#[test]
fn the_first_failing_list_in_reading_order_refuses_the_symbol() {
    // Rectangles are read before lines, so the bad rectangle is named.
    match read(r#"{ "name": "B", "lines": [{}], "rectangles": [{ "x1": 0 }] }"#) {
        Err(Refusal::Malformed(m)) => {
            assert_eq!(m.details.as_deref(), Some("Failed to parse rectangle at index 0"))
        }
        _ => panic!("the rectangle should refuse the symbol"),
    }
}

#[test]
fn a_whole_symbol_reads_every_list() {
    let parts = read(
        r#"{ "name": "Op", "designator": "U?",
             "pins": [{ "designator": "1", "x": 0, "y": 0 }, { "designator": "2", "x": 0, "y": 10 }],
             "rectangles": [{ "x1": 0, "y1": 0, "x2": 10, "y2": 10 }],
             "polylines": [{ "points": [{ "x": 0, "y": 0 }, { "x": 5, "y": 5 }], "color": 255 }],
             "polygons": "not a list",
             "parameters": [{ "name": "Value", "value": "10k" }],
             "footprints": [{ "name": "SOIC8" }] }"#,
    )
    .unwrap_or_else(|_| panic!("the symbol should read"));
    assert_eq!(parts.header.name, "Op");
    assert_eq!(parts.pins.len(), 2);
    assert_eq!(parts.pins[1].designator, "2");
    assert_eq!(parts.rectangles.len(), 1);
    assert_eq!(parts.polylines.len(), 1);
    assert_eq!(parts.polylines[0].color, 255);
    assert!(parts.polygons.is_empty());
    assert_eq!(parts.parameters.len(), 1);
    assert_eq!(parts.footprints[0].name, "SOIC8");
    assert!(parts.labels.is_empty());
}

#[test]
fn an_unnamed_symbol_is_named_for_its_default() {
    match read(r#"{ "rectangles": [{}] }"#) {
        Err(Refusal::Malformed(m)) => assert_eq!(m.component.as_deref(), Some("Default")),
        _ => panic!("the rectangle should refuse the symbol"),
    }
}
