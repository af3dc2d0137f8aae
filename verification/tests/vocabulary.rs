use altium_tools::accepted::{
    DRILL_LAYER_PAIR_TYPES, HOLE_SHAPES, HOLE_SHAPE_SYNONYMS, MASK_EXPANSION_MODES,
    PIN_ELECTRICAL_TYPES, PIN_ELECTRICAL_TYPE_SYNONYMS, PIN_ORIENTATIONS, PIN_SYMBOLS,
    PIN_SYMBOL_SYNONYMS, POWER_PLANE_CONNECT_STYLES, REGION_KINDS, STACK_MODES, STROKE_FONTS,
    TEXT_JUSTIFICATIONS, TEXT_JUSTIFICATION_SYNONYMS, TEXT_KINDS,
};
use altium_tools::json::{Json, JsonNode};
use altium_tools::vocab::{
    enum_field, fold_spelling, ieee_designator_prefix, parse_enum, PadShape,
};
use altium_tools::McpServer;
use serde_json::Value;

fn to_json(v: &Value) -> Json {
    let node = match v {
        Value::Null => JsonNode::Null,
        Value::Bool(b) => JsonNode::Bool(*b),
        Value::Number(n) => match (n.as_u64(), n.as_i64()) {
            (Some(u), _) => JsonNode::PosInt(u),
            (None, Some(i)) => JsonNode::NegInt(i),
            _ => JsonNode::Float,
        },
        Value::String(s) => JsonNode::Str(s.clone()),
        Value::Array(items) => JsonNode::Array(items.iter().map(to_json).collect()),
        Value::Object(members) => {
            JsonNode::Object(members.iter().map(|(k, v)| (k.clone(), to_json(v))).collect())
        }
    };
    Json { node, text: v.to_string() }
}

fn parse(text: &str) -> Json {
    to_json(&serde_json::from_str::<Value>(text).expect("test JSON"))
}

#[test]
fn pad_shape_vocabulary_is_shared_and_lenient() {
    for (input, want) in [
        ("rectangle", PadShape::Rectangle),
        ("rect", PadShape::Rectangle),
        ("round", PadShape::Round),
        ("circle", PadShape::Round),
        ("circular", PadShape::Round),
        ("oval", PadShape::Oval),
        ("oblong", PadShape::Oval),
        ("octagonal", PadShape::Octagonal),
        ("octagon", PadShape::Octagonal),
        ("rounded_rectangle", PadShape::RoundedRectangle),
        ("roundedrectangle", PadShape::RoundedRectangle),
        ("rounded-rectangle", PadShape::RoundedRectangle),
        ("rounded", PadShape::RoundedRectangle),
        ("Round", PadShape::Round),
        ("ROUNDED_RECTANGLE", PadShape::RoundedRectangle),
    ] {
        assert_eq!(
            McpServer::parse_pad_shape(input),
            Some(want),
            "shape {input:?} must resolve"
        );
    }
    assert_eq!(McpServer::parse_pad_shape("hexagon"), None);
}

#[test]
fn pad_shape_ignores_dashes_anywhere() {
    assert_eq!(McpServer::parse_pad_shape("r-e_c-t"), Some(PadShape::Rectangle));
    assert_eq!(McpServer::parse_pad_shape("Oct_Agon"), Some(PadShape::Octagonal));
    assert_eq!(McpServer::parse_pad_shape(""), None);
    assert_eq!(McpServer::parse_pad_shape("round rect"), None);
}

#[test]
fn ieee_map_known_types() {
    assert_eq!(ieee_designator_prefix("resistor"), "R");
    assert_eq!(ieee_designator_prefix("capacitor"), "C");
    assert_eq!(ieee_designator_prefix("inductor"), "L");
    assert_eq!(ieee_designator_prefix("diode"), "D");
    assert_eq!(ieee_designator_prefix("led"), "D");
    assert_eq!(ieee_designator_prefix("transistor"), "Q");
    assert_eq!(ieee_designator_prefix("mosfet"), "Q");
    assert_eq!(ieee_designator_prefix("connector"), "J");
    assert_eq!(ieee_designator_prefix("crystal"), "Y");
    assert_eq!(ieee_designator_prefix("ic"), "U");
    assert_eq!(ieee_designator_prefix("regulator"), "U");
}

#[test]
fn ieee_map_is_case_and_whitespace_insensitive() {
    assert_eq!(ieee_designator_prefix("  Resistor "), "R");
    assert_eq!(ieee_designator_prefix("CAPACITOR"), "C");
}

#[test]
fn ieee_map_unknown_falls_back_to_u() {
    assert_eq!(ieee_designator_prefix("flux_capacitor"), "U");
    assert_eq!(ieee_designator_prefix(""), "U");
}

#[test]
fn ieee_map_covers_every_class() {
    for (t, p) in [
        ("rheostat", "R"),
        ("resistor_array", "RN"),
        ("ntc", "RT"),
        ("mov", "RV"),
        ("cap", "C"),
        ("ferrite_bead", "L"),
        ("zener", "D"),
        ("lightbulb", "DS"),
        ("igbt", "Q"),
        ("voltage_regulator", "U"),
        ("receptacle", "J"),
        ("plug", "P"),
        ("socket", "X"),
        ("xtal", "Y"),
        ("dipswitch", "S"),
        ("contactor", "K"),
        ("transformer", "T"),
        ("fuse", "F"),
        ("filter", "FL"),
        ("cell", "BT"),
        ("testpoint", "TP"),
        ("terminal", "TB"),
        ("buzzer", "LS"),
        ("microphone", "MK"),
        ("blower", "B"),
        ("subassembly", "A"),
        ("standoff", "MP"),
        ("cable", "W"),
    ] {
        assert_eq!(ieee_designator_prefix(t), p, "{t}");
    }
    // Only white space of the ends is trimmed; an inner space is kept.
    assert_eq!(ieee_designator_prefix("\t\nfuse \u{3000}"), "F");
    assert_eq!(ieee_designator_prefix("test point"), "U");
}

#[test]
fn fold_spelling_drops_separators_and_case() {
    assert_eq!(fold_spelling("Top_Middle-Bottom"), "topmiddlebottom");
    assert_eq!(fold_spelling("top middle bottom"), "topmiddlebottom");
    assert_eq!(fold_spelling("TopMiddleBottom"), "topmiddlebottom");
    assert_eq!(fold_spelling(""), "");
    // Case is mapped in full Unicode, not only in ASCII.
    assert_eq!(fold_spelling("ÄÖ"), "äö");
}

#[test]
fn parse_enum_resolves_names_and_synonyms_and_names_the_field() {
    assert_eq!(
        parse_enum("Top-Middle-Bottom", "stack_mode", &STACK_MODES, &[]),
        Ok("top_middle_bottom".to_string())
    );
    assert_eq!(
        parse_enum("circle", "hole_shape", &HOLE_SHAPES, &HOLE_SHAPE_SYNONYMS),
        Ok("round".to_string())
    );
    assert_eq!(
        parse_enum("hexagon", "hole_shape", &HOLE_SHAPES, &HOLE_SHAPE_SYNONYMS),
        Err("hole_shape 'hexagon' is not recognised. Accepted values: round, square, slot"
            .to_string())
    );
}

#[test]
fn enum_field_reads_absent_null_string_and_refuses_the_rest() {
    let json = parse(r#"{"a": null, "b": "Manual", "c": 3, "d": "sometimes"}"#);
    let read = |key: &str| enum_field(&json, key, "mode", &MASK_EXPANSION_MODES, &[]);
    assert_eq!(read("missing"), Ok(None));
    assert_eq!(read("a"), Ok(None));
    assert_eq!(read("b"), Ok(Some("manual".to_string())));
    assert_eq!(
        read("c"),
        Err("mode must be a string, got 3. Accepted values: none, manual, from_rule".to_string())
    );
    assert_eq!(
        read("d"),
        Err("mode 'sometimes' is not recognised. Accepted values: none, manual, from_rule"
            .to_string())
    );
}

fn check(names: &[&'static str], synonyms: &[(&'static str, &'static str)], what: &str) {
    assert!(!names.is_empty(), "{what}: no accepted values");
    for name in names {
        let got = parse_enum(name, what, names, synonyms)
            .unwrap_or_else(|e| panic!("{what} '{name}': {e}"));
        assert_eq!(got, *name, "{what}: an accepted name resolves to itself");
    }
    for (synonym, name) in synonyms {
        assert!(
            names.contains(name),
            "{what}: synonym '{synonym}' points at '{name}', which is not accepted"
        );
        let got = parse_enum(synonym, what, names, synonyms)
            .unwrap_or_else(|e| panic!("{what} synonym '{synonym}': {e}"));
        assert_eq!(got, *name);
    }
}

#[test]
fn every_advertised_enum_value_parses() {
    check(&HOLE_SHAPES, &HOLE_SHAPE_SYNONYMS, "hole_shape");
    check(&MASK_EXPANSION_MODES, &[], "mask_expansion_mode");
    check(&POWER_PLANE_CONNECT_STYLES, &[], "power_plane_connect_style");
    check(&STACK_MODES, &[], "stack_mode");
    check(&DRILL_LAYER_PAIR_TYPES, &[], "drill_layer_pair_type");
    check(&TEXT_KINDS, &[], "kind");
    check(&STROKE_FONTS, &[], "stroke_font");
    check(&REGION_KINDS, &[], "region kind");
    check(&TEXT_JUSTIFICATIONS, &TEXT_JUSTIFICATION_SYNONYMS, "justification");
    check(&PIN_ORIENTATIONS, &[], "orientation");
    check(&PIN_ELECTRICAL_TYPES, &PIN_ELECTRICAL_TYPE_SYNONYMS, "electrical_type");
    check(&PIN_SYMBOLS, &PIN_SYMBOL_SYNONYMS, "symbol");
}

#[test]
fn a_fold_is_its_own_fold_and_holds_no_separator() {
    for s in ["Top_Middle-Bottom", "full stack", "ROUNDED_rectangle", "", "__"] {
        let once = fold_spelling(s);
        assert_eq!(fold_spelling(&once), once, "{s}");
        assert!(!once.contains([' ', '-', '_']), "{s}");
        assert_eq!(fold_spelling(&s.to_ascii_uppercase()), once, "{s}");
    }
}

#[test]
fn a_pad_shape_reads_the_same_from_its_normalised_name() {
    for s in ["Rounded_Rectangle", "ROUND", "oct-agon", "Circle__", "nonsense", "Rect"] {
        let normal = s.to_lowercase().replace(['_', '-'], "");
        assert_eq!(McpServer::parse_pad_shape(s), McpServer::parse_pad_shape(&normal), "{s}");
    }
}
