use altium_tools::footprint::{
    parse_i32, FootprintChecks, FootprintKeys, FootprintParts, ModelRef, RegionKindValue,
};
use altium_tools::json::{Json, JsonNode};
use altium_tools::symbol::Refusal;
use altium_tools::McpServer;
use serde_json::Value;

fn to_json(v: &Value) -> Json {
    let node = match v {
        Value::Null => JsonNode::Null,
        Value::Bool(b) => JsonNode::Bool(*b),
        Value::Number(n) => match (n.as_u64(), n.as_i64()) {
            (Some(u), _) => JsonNode::PosInt(u),
            (None, Some(i)) => JsonNode::NegInt(i),
            _ => JsonNode::Float,
        },
        Value::String(s) => JsonNode::Str(s.clone()),
        Value::Array(items) => JsonNode::Array(items.iter().map(to_json).collect()),
        Value::Object(members) => {
            JsonNode::Object(members.iter().map(|(k, v)| (k.clone(), to_json(v))).collect())
        }
    };
    Json { node, text: v.to_string() }
}

fn parse(text: &str) -> Json {
    to_json(&serde_json::from_str::<Value>(text).expect("test JSON"))
}

const FOOTPRINT: &[&str] = &[
    "name", "description", "height", "pads", "tracks", "vias", "fills", "arcs", "regions", "text",
    "step_model", "model_3d", "component_bodies", "guid", "storage_name",
];
const PAD: &[&str] = &["designator", "x", "y", "width", "height", "shape", "layer", "hole_size", "guid"];
const TRACK: &[&str] = &["x1", "y1", "x2", "y2", "width", "layer"];
const VIA: &[&str] = &["x", "y", "diameter", "hole_size"];
const ARC: &[&str] = &["x", "y", "radius", "start_angle", "end_angle", "width", "layer"];
const REGION: &[&str] = &["vertices", "layer", "kind", "name", "holes"];
const TEXT: &[&str] = &["x", "y", "text", "height", "layer"];
const BODY: &[&str] = &["overall_height", "outline", "guid"];
const MODEL: &[&str] = &["filepath", "embed", "x_offset", "y_offset", "z_offset", "rotation"];

fn keys() -> FootprintKeys<'static> {
    FootprintKeys {
        footprint: FOOTPRINT,
        pad: PAD,
        track: TRACK,
        via: VIA,
        fill: TRACK,
        arc: ARC,
        region: REGION,
        text: TEXT,
        component_body: BODY,
        model: MODEL,
    }
}

fn read_with(text: &str, checks: &FootprintChecks) -> Result<FootprintParts, Refusal> {
    McpServer::parse_footprint_parts(&parse(text), &keys(), checks, "write_pcblib", "Bad.PcbLib", "Default")
}

fn read(text: &str) -> Result<FootprintParts, Refusal> {
    read_with(
        text,
        &FootprintChecks {
            pads: &[],
            tracks: &[],
            vias: &[],
            fills: &[],
            arcs: &[],
            regions: &[],
            texts: &[],
            component_bodies: &[],
            model_path: None,
            footprint: None,
        },
    )
}

const PAD_JSON: &str = r#"{ "designator": "1", "x": 0.0, "y": 0.0, "width": 1.0, "height": 1.0 }"#;

fn details(r: Result<FootprintParts, Refusal>) -> (String, String) {
    match r {
        Err(Refusal::Failed(m)) | Err(Refusal::Malformed(m)) => {
            (m.message, m.details.unwrap_or_default())
        }
        Err(other) => panic!("refused otherwise: {other:?}"),
        Ok(_) => panic!("accepted"),
    }
}

#[test]
fn malformed_footprint_records_are_refused_not_dropped() {
    for (kind, footprint) in [
        ("region", format!(r#"{{ "name": "B", "pads": [{PAD_JSON}], "regions": [{{ "layer": "Top Overlay" }}] }}"#)),
        ("text", format!(r#"{{ "name": "B", "pads": [{PAD_JSON}], "text": [{{ "x": 0.0, "y": 0.0 }}] }}"#)),
    ] {
        let (message, detail) = details(read(&footprint));
        assert_eq!(detail, format!("Failed to parse {kind} at index 0"));
        assert!(message.starts_with("Malformed"), "{message}");
    }
}

#[test]
fn each_primitive_family_names_the_record_that_failed() {
    let cases = [
        ("pads", r#"[{ "x": 0.0, "y": 0.0, "width": 1.0, "height": 1.0 }]"#, "pad at index 0"),
        ("tracks", r#"[{ "y1": 0.0, "x2": 1.0, "y2": 0.0, "width": 0.2 }]"#, "track at index 0"),
        ("fills", r#"[{ "y1": 0.0, "x2": 1.0, "y2": 1.0 }]"#, "fill at index 0"),
        ("arcs", r#"[{ "x": 0.0, "y": 0.0, "radius": 1.0, "start_angle": 0.0, "end_angle": 90.0 }]"#, "arc at index 0"),
    ];
    for (key, payload, expected) in cases {
        let text = format!(r#"{{ "name": "FP", "pads": [{PAD_JSON}], "{key}": {payload} }}"#);
        let (message, detail) = details(read(&text));
        assert!(detail.ends_with(expected), "{detail}");
        assert!(!message.starts_with("Malformed"), "the reader's own reason: {message}");
    }
    let (message, _) = details(read(r#"{ "pads": [{ "x": 0.0, "y": 0.0, "width": 1.0, "height": 1.0 }] }"#));
    assert_eq!(message, "Pad missing required field 'designator'");
    // A via whose hole cannot fit is refused by the caller's fractional check,
    // and reported the same way.
    let refusal = vec![Some("Via hole 0.3 does not fit a 0 mm ring".to_string())];
    let checks = FootprintChecks {
        pads: &[],
        tracks: &[],
        vias: &refusal,
        fills: &[],
        arcs: &[],
        regions: &[],
        texts: &[],
        component_bodies: &[],
        model_path: None,
        footprint: None,
    };
    let (message, detail) = details(read_with(
        &format!(r#"{{ "name": "FP", "pads": [{PAD_JSON}], "vias": [{{ "x": 0.0, "y": 0.0, "diameter": 0.0, "hole_size": 0.3 }}] }}"#),
        &checks,
    ));
    assert_eq!(detail, "Failed to parse via at index 0");
    assert_eq!(message, "Via hole 0.3 does not fit a 0 mm ring");
}

#[test]
fn a_typo_is_refused_on_the_footprint_and_on_each_record() {
    match read(r#"{ "name": "FP", "heigth": 1.0 }"#) {
        Err(Refusal::UnknownField(e)) => assert!(e.starts_with("Unknown field 'heigth'"), "{e}"),
        _ => panic!("a typo on the footprint should refuse it"),
    }
    match read(&format!(r#"{{ "name": "FP", "pads": [{PAD_JSON}], "tracks": [{{ "x1": 0, "y1": 0, "x2": 1, "y2": 1, "width": 1, "widht": 2 }}] }}"#)) {
        Err(Refusal::UnknownField(e)) => assert!(e.starts_with("Unknown field 'widht'"), "{e}"),
        _ => panic!("a typo on a track should refuse the footprint"),
    }
    match read(r#"{ "name": "FP", "step_model": { "filepath": "m.step", "embedd": false } }"#) {
        Err(Refusal::UnknownField(e)) => assert!(e.starts_with("Unknown field 'embedd'"), "{e}"),
        _ => panic!("a typo on the model should refuse the footprint"),
    }
}

#[test]
fn a_footprint_height_must_be_a_length() {
    match read(r#"{ "name": "FP", "height": -1 }"#) {
        Err(Refusal::Plain(e)) => assert_eq!(
            e,
            "Footprint 'FP' height must be a finite number of millimetres, zero or more"
        ),
        _ => panic!("a negative height should be refused"),
    }
    assert!(read(r#"{ "name": "FP", "height": null }"#).is_err());
    assert!(read(r#"{ "name": "FP", "height": 0 }"#).is_ok());
    assert!(read(r#"{ "name": "FP", "height": 1.25 }"#).is_ok());
}

#[test]
fn a_step_model_is_embedded_by_default_and_wins_over_model_3d() {
    let fp = read(r#"{ "name": "FP", "step_model": { "filepath": "m.step" }, "model_3d": { "filepath": "other.step" } }"#)
        .unwrap_or_else(|e| panic!("{e:?}"));
    assert!(matches!(fp.model, ModelRef::Embedded(ref p) if p == "m.step"));
    let fp = read(r#"{ "name": "FP", "step_model": { "filepath": "m.step", "embed": false } }"#)
        .unwrap_or_else(|e| panic!("{e:?}"));
    assert!(matches!(fp.model, ModelRef::External(ref p) if p == "m.step"));
    let fp = read(r#"{ "name": "FP", "model_3d": { "filepath": "body.step" } }"#).unwrap_or_else(|e| panic!("{e:?}"));
    assert!(matches!(fp.model, ModelRef::Replayed(ref p) if p == "body.step"));
    let fp = read(r#"{ "name": "FP", "model_3d": null }"#).unwrap_or_else(|e| panic!("{e:?}"));
    assert!(matches!(fp.model, ModelRef::NoModel));

    // The path of an embedded model is held to the caller's refusal; an
    // external reference is never read and so never checked.
    let checks = FootprintChecks {
        pads: &[],
        tracks: &[],
        vias: &[],
        fills: &[],
        arcs: &[],
        regions: &[],
        texts: &[],
        component_bodies: &[],
        model_path: Some("Path is outside the allowed directories"),
        footprint: None,
    };
    match read_with(r#"{ "name": "FP", "step_model": { "filepath": "/etc/passwd" } }"#, &checks) {
        Err(Refusal::Plain(e)) => assert_eq!(e, "Path is outside the allowed directories"),
        _ => panic!("an embedded model outside the allowed directories should be refused"),
    }
    assert!(read_with(r#"{ "name": "FP", "step_model": { "filepath": "/etc/passwd", "embed": false } }"#, &checks).is_ok());
}

#[test]
fn a_whole_footprint_reads_every_list_under_its_name() {
    let fp = read(&format!(
        r#"{{ "description": "two pads", "pads": [{PAD_JSON}, {{ "designator": "2", "x": 1, "y": 0, "width": 1, "height": 1, "shape": "round" }}],
             "tracks": [{{ "x1": 0, "y1": 0, "x2": 1, "y2": 1, "width": 0.2 }}],
             "regions": [{{ "vertices": [{{ "x": 0, "y": 0 }}, {{ "x": 1, "y": 0 }}, {{ "x": 0, "y": 1 }}], "kind": "4" }}],
             "text": [{{ "x": 0, "y": 0, "height": 1, "text": ".Designator" }}],
             "guid": "{{01234567-89AB-CDEF-0123-456789ABCDEF}}", "storage_name": "FP" }}"#
    ))
    .unwrap_or_else(|e| panic!("{e:?}"));
    assert_eq!(fp.name, "Default");
    assert_eq!(fp.description.as_deref(), Some("two pads"));
    assert_eq!(fp.pads.len(), 2);
    assert_eq!(fp.pads[1].designator, "2");
    assert_eq!(fp.tracks.len(), 1);
    assert_eq!(fp.regions[0].vertex_count, 3);
    assert!(matches!(fp.regions[0].kind, RegionKindValue::Id(4)));
    assert_eq!(fp.texts.len(), 1);
    assert!(fp.guid.is_some());
    assert_eq!(fp.storage_name.as_deref(), Some("FP"));
    assert!(matches!(fp.model, ModelRef::NoModel));
}

#[test]
fn a_footprint_refused_as_a_whole_by_the_caller_is_refused() {
    let checks = FootprintChecks {
        pads: &[],
        tracks: &[],
        vias: &[],
        fills: &[],
        arcs: &[],
        regions: &[],
        texts: &[],
        component_bodies: &[],
        model_path: None,
        footprint: Some("Footprint 'FP' pad '1' x is out of range"),
    };
    match read_with(r#"{ "name": "FP" }"#, &checks) {
        Err(Refusal::Plain(e)) => assert_eq!(e, "Footprint 'FP' pad '1' x is out of range"),
        _ => panic!("the caller's refusal should stand"),
    }
}

#[test]
fn parse_region_accepts_a_kind_by_name_or_by_id() {
    let kind = |k: &str| {
        McpServer::region_kind(&parse(&format!(r#"{{ "kind": {k} }}"#))).expect("a kind")
    };
    for name in ["cutout", "copper", "named_region", "cavity"] {
        assert!(matches!(kind(&format!("\"{name}\"")), RegionKindValue::Named(ref n) if n == name));
    }
    // A numeric KIND, as a string and as a number.
    assert!(matches!(kind("\"4\""), RegionKindValue::Id(4)));
    assert!(matches!(kind("\" 4 \""), RegionKindValue::Id(4)));
    assert!(matches!(kind("4"), RegionKindValue::Id(4)));
    assert!(matches!(kind("null"), RegionKindValue::Named(ref n) if n == "copper"));
    assert!(matches!(kind(r#"{ "other": 9 }"#), RegionKindValue::Serialized));
    let err = McpServer::region_kind(&parse(r#"{ "kind": "nonsense" }"#)).unwrap_err();
    assert!(err.contains("Region kind 'nonsense'"), "{err}");
    assert!(err.contains("copper, cutout, named_region, cavity"), "{err}");
    let err = McpServer::region_kind(&parse(r#"{ "kind": 1.5 }"#)).unwrap_err();
    assert_eq!(err, "Region kind 1.5 is not a KIND integer");
}

#[test]
fn whole_numbers_read_as_str_parse_reads_them() {
    let p = |s: &str| parse_i32(&s.chars().collect::<Vec<char>>());
    assert_eq!(p("42"), Some(42));
    assert_eq!(p("+7"), Some(7));
    assert_eq!(p("-2147483648"), Some(i32::MIN));
    assert_eq!(p("2147483647"), Some(i32::MAX));
    assert_eq!(p("2147483648"), None);
    assert_eq!(p("99999999999999999999"), None);
    assert_eq!(p(""), None);
    assert_eq!(p("-"), None);
    assert_eq!(p("1a"), None);
    assert_eq!(p(" 1"), None);
    for s in ["0", "-0", "123", "-45", "+0009"] {
        assert_eq!(p(s), s.parse::<i32>().ok(), "{s}");
    }
}

const BASE_PAD: &str = r#""designator": "1", "x": 0.0, "y": 0.0, "width": 1.0, "height": 1.0"#;

#[test]
fn every_guid_field_is_held_to_the_guid_form() {
    for guid in [
        "{01234567-89AB-CDEF-0123-456789ABCDEF}",
        "01234567-89ab-cdef-0123-456789abcdef",
        "0123456789ABCDEF0123456789ABCDEF",
    ] {
        let pad = McpServer::read_pad(&parse(&format!(
            r#"{{ {BASE_PAD}, "guid": "{guid}", "identity_guid": "{guid}", "identity_guid_b": "{guid}" }}"#
        )))
        .expect("a GUID in any spelling");
        assert_eq!(pad.guid.as_deref(), Some(guid), "kept verbatim");
        assert_eq!(pad.identity.identity_guid.as_deref(), Some(guid));
        assert_eq!(pad.identity.identity_guid_b.as_deref(), Some(guid));
    }

    let bad = "not-a-guid";
    let refused = |err: String, field: &str| {
        let expected = format!("{field} '{bad}' is not a GUID ({{XXXXXXXX-XXXX-XXXX-XXXX-XXXXXXXXXXXX}})");
        assert!(err.contains(&expected), "expected {expected:?}, got {err:?}");
    };
    for key in ["guid", "identity_guid", "identity_guid_b"] {
        refused(
            McpServer::read_pad(&parse(&format!(r#"{{ {BASE_PAD}, "{key}": "{bad}" }}"#))).unwrap_err(),
            &format!("Pad '1' {key}"),
        );
    }
    refused(
        McpServer::read_track(&parse(&format!(
            r#"{{ "x1": 0.0, "y1": 0.0, "x2": 1.0, "y2": 0.0, "width": 0.2, "guid": "{bad}" }}"#
        )))
        .unwrap_err(),
        "Track guid",
    );
    refused(
        McpServer::read_arc(&parse(&format!(
            r#"{{ "x": 0.0, "y": 0.0, "radius": 1.0, "start_angle": 0.0, "end_angle": 90.0, "width": 0.2, "guid": "{bad}" }}"#
        )))
        .unwrap_err(),
        "Arc guid",
    );
    refused(
        McpServer::read_fill(&parse(&format!(
            r#"{{ "x1": 0.0, "y1": 0.0, "x2": 1.0, "y2": 1.0, "guid": "{bad}" }}"#
        )))
        .unwrap_err(),
        "Fill guid",
    );
    refused(
        McpServer::read_via(&parse(&format!(
            r#"{{ "x": 0.0, "y": 0.0, "diameter": 0.6, "hole_size": 0.3, "guid": "{bad}" }}"#
        )))
        .unwrap_err(),
        "Via guid",
    );
    refused(
        McpServer::parse_text(&parse(&format!(
            r#"{{ "x": 0.0, "y": 0.0, "text": "T", "height": 1.0, "guid": "{bad}" }}"#
        )))
        .unwrap_err(),
        "Text guid",
    );
    refused(
        McpServer::read_region(&parse(&format!(
            r#"{{ "layer": "Top Layer", "vertices": [{{ "x": 0.0, "y": 0.0 }}, {{ "x": 1.0, "y": 0.0 }}, {{ "x": 0.0, "y": 1.0 }}], "guid": "{bad}" }}"#
        )))
        .unwrap_err(),
        "Region guid",
    );
    refused(
        McpServer::parse_component_body_fields(&parse(&format!(r#"{{ "overall_height": 1.0, "guid": "{bad}" }}"#)))
            .unwrap_err(),
        "Component body guid",
    );
}

#[test]
fn parse_pad_preserves_raw_tail() {
    let pad = McpServer::read_pad(&parse(
        r#"{ "designator": "1", "x": 0.0, "y": 0.0, "width": 0.6, "height": 0.5, "raw_tail": "AAECAwQ=" }"#,
    ))
    .expect("pad should parse");
    assert_eq!(pad.raw_tail.as_deref(), Some(&[0u8, 1, 2, 3, 4][..]));
}

#[test]
fn parse_via_preserves_guid_and_raw_block() {
    let via = McpServer::read_via(&parse(
        r#"{ "x": 0.0, "y": 0.0, "diameter": 0.6, "hole_size": 0.3,
             "guid": "{01234567-89AB-CDEF-0123-456789ABCDEF}", "raw_block": "BQYH" }"#,
    ))
    .expect("via should parse");
    assert_eq!(via.guid.as_deref(), Some("{01234567-89AB-CDEF-0123-456789ABCDEF}"));
    assert_eq!(via.raw_block.as_deref(), Some(&[5u8, 6, 7][..]));
}

#[test]
fn parse_pad_refuses_a_stack_the_record_cannot_store() {
    let stacked = |mode: &str, key: &str, value: &str| {
        McpServer::read_pad(&parse(&format!(
            r#"{{ {BASE_PAD}, "stack_mode": "{mode}", "{key}": {value} }}"#
        )))
        .unwrap_err()
    };
    let full = |entry: &str, at: usize, fill: &str| {
        let mut entries = vec![fill.to_string(); 32];
        entries[at] = entry.to_string();
        format!("[{}]", entries.join(", "))
    };
    let four_sizes = vec!["[1.0, 1.0]"; 4].join(", ");
    let cases = [
        (
            stacked("full_stack", "per_layer_shapes", &full("\"not-a-shape\"", 2, "\"round\"")),
            "Pad '1' per_layer_shapes[2] 'not-a-shape' is not a shape. Valid shapes are",
        ),
        (
            stacked("full_stack", "per_layer_shapes", &full("7", 0, "\"round\"")),
            "Pad '1' per_layer_shapes[0] must be a string, got 7",
        ),
        (
            stacked("full_stack", "per_layer_corner_radii", &full("300", 2, "0")),
            "Pad '1' per_layer_corner_radii[2] must be a whole number from 0 to 100, got 300",
        ),
        (
            stacked("full_stack", "per_layer_sizes", &format!("[{four_sizes}]")),
            "Pad '1' per_layer_sizes has 4 entries; full_stack takes 32 (index 0 = Top, 1 = Bottom, 2-31 = Mid layers)",
        ),
        (
            stacked("top_middle_bottom", "per_layer_shapes", r#"["round", "round"]"#),
            "Pad '1' per_layer_shapes has 2 entries; top_middle_bottom takes 3 ([top, mid, bottom])",
        ),
        (
            stacked("top_middle_bottom", "per_layer_offsets", "[[0, 0], [0, 0], [0, 0]]"),
            "Pad '1' per_layer_offsets applies to a full_stack pad only",
        ),
        (
            stacked("top_middle_bottom", "per_layer_corner_radii", "[0, 0, 0]"),
            "Pad '1' per_layer_corner_radii applies to a full_stack pad only",
        ),
        (
            stacked("simple", "per_layer_sizes", "[[1.0, 1.0], [1.0, 1.0], [1.0, 1.0]]"),
            "Pad '1' per_layer_sizes is given but stack_mode is simple",
        ),
        (
            stacked("full_stack", "per_layer_shapes", "\"round\""),
            "Pad '1' per_layer_shapes must be an array, got \"round\"",
        ),
    ];
    for (err, expected) in cases {
        assert!(err.contains(expected), "expected {expected:?}, got {err:?}");
    }
    // A stack the record can hold is read, and its lists counted.
    let pad = McpServer::read_pad(&parse(&format!(
        r#"{{ {BASE_PAD}, "stack_mode": "top_middle_bottom", "per_layer_sizes": [[1, 1], [1, 1], [1, 1]] }}"#
    )))
    .expect("a top-middle-bottom stack");
    assert_eq!(pad.per_layer_size_count, Some(3));
    assert_eq!(pad.per_layer_offset_count, None);

    // The pad's own corner radius is held to the same range.
    for value in ["150", "-5", "12.5"] {
        let err = McpServer::read_pad(&parse(&format!(r#"{{ {BASE_PAD}, "corner_radius_percent": {value} }}"#)))
            .unwrap_err();
        let expected = format!("Pad '1' corner_radius_percent must be a whole number from 0 to 100, got {value}");
        assert!(err.contains(&expected), "expected {expected:?}, got {err:?}");
    }
    assert_eq!(
        McpServer::read_pad(&parse(&format!(r#"{{ {BASE_PAD}, "corner_radius_percent": 100 }}"#)))
            .unwrap()
            .settings
            .corner_radius_percent,
        Some(100)
    );
}
