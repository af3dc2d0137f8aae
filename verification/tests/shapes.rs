use altium_tools::json::{Json, JsonNode};
use altium_tools::McpServer;
use serde_json::Value;

fn to_json(v: &Value) -> Json {
    let node = match v {
        Value::Null => JsonNode::Null,
        Value::Bool(b) => JsonNode::Bool(*b),
        Value::Number(n) => match (n.as_u64(), n.as_i64()) {
            (Some(u), _) => JsonNode::PosInt(u),
            (None, Some(i)) => JsonNode::NegInt(i),
            _ => JsonNode::Float,
        },
        Value::String(s) => JsonNode::Str(s.clone()),
        Value::Array(items) => JsonNode::Array(items.iter().map(to_json).collect()),
        Value::Object(members) => {
            JsonNode::Object(members.iter().map(|(k, v)| (k.clone(), to_json(v))).collect())
        }
    };
    Json { node, text: v.to_string() }
}

fn parse(text: &str) -> Json {
    to_json(&serde_json::from_str::<Value>(text).expect("test JSON"))
}

/// How many items of a point list read as a coordinate pair, `{x, y}` or `[x, y]`.
fn pairs(json: &Json) -> usize {
    let number = |j: &Json| matches!(j.node, JsonNode::PosInt(_) | JsonNode::NegInt(_) | JsonNode::Float);
    match McpServer::schlib_point_list(json) {
        Some(items) => items
            .iter()
            .filter(|item| match &item.node {
                JsonNode::Array(xy) => xy.len() == 2 && number(&xy[0]) && number(&xy[1]),
                JsonNode::Object(_) => {
                    item.get("x").is_some_and(|x| number(x)) && item.get("y").is_some_and(|y| number(y))
                }
                _ => false,
            })
            .count(),
        None => 0,
    }
}

fn polyline(text: &str) -> Option<altium_tools::shapes::Polyline> {
    let json = parse(text);
    McpServer::parse_schlib_polyline(&json, pairs(&json))
}

fn polygon(text: &str) -> Option<altium_tools::shapes::Polygon> {
    let json = parse(text);
    McpServer::parse_schlib_polygon(&json, pairs(&json))
}

#[test]
fn parse_schlib_rectangle_reads_line_style_and_transparent() {
    let rect = McpServer::parse_schlib_rectangle(&parse(
        r#"{ "x1": 0.0, "y1": 0.0, "x2": 10.0, "y2": 10.0, "line_style": 2, "transparent": true }"#,
    ))
    .expect("rectangle should parse");
    assert_eq!(rect.line_style, 2);
    assert!(rect.transparent);
    assert_eq!(rect.line_color, 0x00_00_80);
    assert_eq!(rect.fill_color, 0xB0_FF_FF);
    assert!(rect.filled);
}

#[test]
fn parse_schlib_round_rect_reads_line_style_and_transparent() {
    let rr = McpServer::parse_schlib_round_rect(&parse(
        r#"{ "x1": 0.0, "y1": 0.0, "x2": 10.0, "y2": 10.0,
             "corner_x_radius": 2.0, "corner_y_radius": 2.0,
             "line_style": 1, "transparent": true }"#,
    ))
    .expect("round_rect should parse");
    assert_eq!(rr.line_style, 1);
    assert!(rr.transparent);
}

#[test]
fn parse_schlib_line_reads_line_style() {
    let line = McpServer::parse_schlib_line(&parse(
        r#"{ "x1": 0.0, "y1": 0.0, "x2": 10.0, "y2": 0.0, "line_style": 2 }"#,
    ))
    .expect("line should parse");
    assert_eq!(line.line_style, 2);
    assert!(line.is_not_accessible);
}

#[test]
fn a_fractional_line_still_parses() {
    // A fractional line parses rather than being dropped.
    assert!(McpServer::parse_schlib_line(&parse(
        r#"{ "x1": -28.995, "y1": 7.5, "x2": 10.0, "y2": 0.0 }"#
    ))
    .is_some());
    assert!(McpServer::parse_schlib_line(&parse(
        r#"{ "x1": "1", "y1": 7.5, "x2": 10.0, "y2": 0.0 }"#
    ))
    .is_none());
}

#[test]
fn parse_schlib_arc_reads_fill_color() {
    let arc = McpServer::parse_schlib_arc(&parse(
        r#"{ "x": 0.0, "y": 0.0, "radius": 5.0, "fill_color": 1122867 }"#,
    ))
    .expect("arc should parse");
    assert_eq!(arc.fill_color, 0x11_22_33);
    assert!(McpServer::parse_schlib_arc(&parse(r#"{ "x": 0.0, "y": 0.0 }"#)).is_none());
}

#[test]
fn parse_schlib_ellipse_reads_transparent() {
    let el = McpServer::parse_schlib_ellipse(&parse(
        r#"{ "x": 0.0, "y": 0.0, "radius_x": 5.0, "radius_y": 3.0, "transparent": true }"#,
    ))
    .expect("ellipse should parse");
    assert!(el.transparent);
}

#[test]
fn parse_schlib_rectangle_preserves_provided_unique_id() {
    let rect = McpServer::parse_schlib_rectangle(&parse(
        r#"{ "x1": 0.0, "y1": 0.0, "x2": 10.0, "y2": 10.0, "unique_id": "RECTUID1" }"#,
    ))
    .expect("rectangle should parse");
    assert_eq!(rect.unique_id.as_deref(), Some("RECTUID1"));
    let plain = McpServer::parse_schlib_rectangle(&parse(
        r#"{ "x1": 0.0, "y1": 0.0, "x2": 10.0, "y2": 10.0 }"#,
    ))
    .expect("rectangle should parse");
    assert_eq!(plain.unique_id, None);
}

#[test]
fn parse_schlib_parameter_reads_justification() {
    let p = McpServer::parse_schlib_parameter(&parse(
        r#"{ "name": "Value", "value": "10k", "justification": 8 }"#,
    ))
    .expect("parameter should parse");
    assert_eq!(p.justification, 8);
    assert_eq!(p.value, "10k");
    let p = McpServer::parse_schlib_parameter(&parse(r#"{ "name": "Value" }"#))
        .expect("parameter should parse");
    assert_eq!(p.justification, 0, "absent justification defaults to 0");
    assert_eq!(p.value, "*");
    assert!(p.auto_position);
    assert!(McpServer::parse_schlib_parameter(&parse(r#"{ "value": "10k" }"#)).is_none());
}

#[test]
fn byte_and_colour_fields_keep_their_low_bits() {
    let p = McpServer::parse_schlib_parameter(&parse(
        r#"{ "name": "N", "font_id": 258, "color": 4294967297 }"#,
    ))
    .expect("parameter should parse");
    assert_eq!(p.font_id, 2);
    assert_eq!(p.color, 1);
    let g = McpServer::parse_schlib_ieee_symbol(&parse(
        r#"{ "x": 0, "y": 0, "symbol": 3, "line_width": 300, "color": 5 }"#,
    ))
    .expect("IEEE symbol should parse");
    assert_eq!(g.line_width, 1, "a width that does not fit takes the default");
    assert_eq!(g.color, 5);
    assert!(McpServer::parse_schlib_ieee_symbol(&parse(
        r#"{ "x": 0, "y": 0, "symbol": 4294967296 }"#
    ))
    .is_none());
}

#[test]
fn an_image_with_undecodable_data_still_parses_without_it() {
    let image = McpServer::parse_schlib_image(&parse(
        r#"{ "x1": 0.0, "y1": 0.0, "x2": 10.0, "y2": 10.0,
             "filename": "logo.bmp", "image_data": "!!! not base64 !!!" }"#,
    ))
    .expect("image should parse");
    assert!(image.image_data.is_none());
    let image = McpServer::parse_schlib_image(&parse(
        r#"{ "x1": 0, "y1": 0, "x2": 1, "y2": 1, "image_data": "AAEC", "file_name": "a.bmp" }"#,
    ))
    .expect("image should parse");
    assert_eq!(image.image_data, Some(vec![0, 1, 2]));
    assert_eq!(image.file_name, "a.bmp");
}

#[test]
fn a_text_frame_needs_its_text() {
    let frame = McpServer::parse_schlib_text_frame(&parse(
        r#"{ "x1": 0, "y1": 0, "x2": 40, "y2": 20, "text": "NOTE" }"#,
    ))
    .expect("text frame should parse");
    assert_eq!(frame.text, "NOTE");
    assert_eq!(frame.area_color, 16_777_215);
    assert!(frame.word_wrap && frame.show_border && frame.clip_to_rect);
    assert!(McpServer::parse_schlib_text_frame(&parse(
        r#"{ "x1": 0, "y1": 0, "x2": 40, "y2": 20 }"#
    ))
    .is_none());
}

#[test]
fn curves_need_every_control_point() {
    let full = r#"{ "x1": 0, "y1": 0, "x2": 1, "y2": 1, "x3": 2, "y3": 2, "x4": 3, "y4": 3 }"#;
    assert!(McpServer::parse_schlib_bezier(&parse(full)).is_some());
    assert!(McpServer::parse_schlib_bezier(&parse(
        r#"{ "x1": 0, "y1": 0, "x2": 1, "y2": 1, "x3": 2, "y3": 2, "x4": 3 }"#
    ))
    .is_none());
    let ea = McpServer::parse_schlib_elliptical_arc(&parse(
        r#"{ "x": 0, "y": 0, "radius": 4, "secondary_radius": 2 }"#,
    ))
    .expect("elliptical arc should parse");
    assert_eq!(ea.color, 0x00_00_80);
    let pie = McpServer::parse_schlib_pie(&parse(r#"{ "x": 0, "y": 0, "radius": 4 }"#))
        .expect("pie should parse");
    assert!(pie.filled && pie.is_not_accessible && !pie.transparent);
}

#[test]
fn label_justification_accepts_the_spelling_variants() {
    let justified = |s: &str| {
        McpServer::parse_schlib_label(&parse(&format!(
            r#"{{ "x": 0.0, "y": 0.0, "text": "REF", "justification": "{s}" }}"#
        )))
        .expect("label should parse")
        .justification
    };
    assert_eq!(justified("middle-center"), "middle_center");
    assert_eq!(justified("middle_centre"), "middle_center");
    assert_eq!(justified("center"), "middle_center");
    assert_eq!(justified("bottom-centre"), "bottom_center");
    assert_eq!(justified("bottomright"), "bottom_right");
    assert_eq!(justified("center-left"), "middle_left");
    assert_eq!(justified("centre-right"), "middle_right");
    assert_eq!(justified("topleft"), "top_left");
    assert_eq!(justified("top-centre"), "top_center");
    let err = McpServer::parse_schlib_label(&parse(
        r#"{ "x": 0.0, "y": 0.0, "text": "REF", "justification": "sideways" }"#,
    ))
    .unwrap_err();
    assert!(err.contains("Label justification 'sideways'"), "{err}");
    assert!(err.contains("bottom_left, bottom_center"), "{err}");
}

#[test]
fn a_label_names_what_it_is_missing() {
    let err = |text: &str| McpServer::parse_schlib_label(&parse(text)).unwrap_err();
    assert_eq!(err(r#"{ "y": 0, "text": "A" }"#), "Label is missing a numeric 'x'");
    assert_eq!(err(r#"{ "x": 0, "y": "0", "text": "A" }"#), "Label is missing a numeric 'y'");
    assert_eq!(err(r#"{ "x": 0, "y": 0 }"#), "Label is missing its 'text' string");
    let label = McpServer::parse_schlib_label(&parse(r#"{ "x": 0, "y": 0, "text": "A", "hidden": true }"#))
        .expect("label should parse");
    assert_eq!(label.justification, "bottom_left");
    assert!(label.is_hidden);
    let label = McpServer::parse_schlib_label(&parse(
        r#"{ "x": 0, "y": 0, "text": "A", "is_hidden": null, "hidden": true }"#,
    ))
    .expect("label should parse");
    assert!(!label.is_hidden, "is_hidden, when present, decides alone");
}

#[test]
fn parse_schlib_polyline_reads_style_and_arrowheads() {
    let pl = polyline(
        r#"{ "points": [{"x": 0.0, "y": 0.0}, {"x": 10.0, "y": 0.0}],
             "line_style": 1, "start_line_shape": 2, "end_line_shape": 3,
             "line_shape_size": 4, "transparent": true }"#,
    )
    .expect("polyline should parse");
    assert_eq!(pl.line_style, 1);
    assert_eq!(pl.start_line_shape, 2);
    assert_eq!(pl.end_line_shape, 3);
    assert_eq!(pl.line_shape_size, 4);
    assert!(pl.transparent);
}

#[test]
fn parse_schlib_ellipse_and_polyline_read_is_not_accessible() {
    let el = McpServer::parse_schlib_ellipse(&parse(
        r#"{ "x": 0.0, "y": 0.0, "radius_x": 5.0, "radius_y": 3.0 }"#,
    ))
    .expect("ellipse should parse");
    assert!(el.is_not_accessible, "ellipse defaults true");
    let el = McpServer::parse_schlib_ellipse(&parse(
        r#"{ "x": 0.0, "y": 0.0, "radius_x": 5.0, "radius_y": 3.0, "is_not_accessible": false }"#,
    ))
    .expect("ellipse should parse");
    assert!(!el.is_not_accessible, "explicit false is honoured");

    let pl = polyline(r#"{ "points": [{ "x": 0.0, "y": 0.0 }, { "x": 5.0, "y": 5.0 }] }"#)
        .expect("polyline should parse");
    assert!(pl.is_not_accessible, "polyline defaults true");
    let pl = polyline(
        r#"{ "points": [{ "x": 0.0, "y": 0.0 }, { "x": 5.0, "y": 5.0 }], "is_not_accessible": false }"#,
    )
    .expect("polyline should parse");
    assert!(!pl.is_not_accessible, "explicit false is honoured");
}

#[test]
fn polylines_and_polygons_need_enough_points_to_draw() {
    // A polyline is a run of segments, so one point draws nothing.
    assert!(polyline(r#"{ "points": [{ "x": 0.0, "y": 0.0 }] }"#).is_none());
    assert!(polyline(r#"{ "points": [{ "x": 0.0, "y": 0.0 }, { "x": 1.0, "y": 1.0 }] }"#).is_some());

    // A polygon is a closed area, so it needs a third point.
    assert!(polygon(r#"{ "points": [{ "x": 0.0, "y": 0.0 }, { "x": 1.0, "y": 0.0 }] }"#).is_none());
    assert!(polygon(
        r#"{ "points": [{ "x": 0.0, "y": 0.0 }, { "x": 1.0, "y": 0.0 }, { "x": 0.0, "y": 1.0 }] }"#
    )
    .is_some());
}

#[test]
fn a_polyline_reads_its_vertices_when_it_has_no_points() {
    let json = parse(r#"{ "vertices": [[0, 0], [3, 4]], "color": 255 }"#);
    assert_eq!(pairs(&json), 2);
    let pl = McpServer::parse_schlib_polyline(&json, 2).expect("polyline should parse");
    assert_eq!(pl.color, 255);
    assert_eq!(pl.owner_part_id, 1);
    // A `points` member that is not an array leaves no coordinate list.
    let json = parse(r#"{ "points": 3, "vertices": [[0, 0], [3, 4]] }"#);
    assert!(McpServer::schlib_point_list(&json).is_none());
    assert!(McpServer::parse_schlib_polyline(&json, 2).is_none());
}

#[test]
fn a_polygon_takes_its_fill_defaults() {
    let pg = polygon(r#"{ "points": [[0, 0], [1, 0], [0, 1]] }"#).expect("polygon should parse");
    assert_eq!(pg.line_color, 0x00_00_80);
    assert_eq!(pg.fill_color, 0xB0_FF_FF);
    assert!(pg.filled);
    assert!(!pg.transparent);
    assert_eq!(pg.line_width, 1);
    let pg = polygon(r#"{ "points": [[0, 0], [1, 0], [0, 1]], "filled": false, "fill_color": 7 }"#)
        .expect("polygon should parse");
    assert!(!pg.filled);
    assert_eq!(pg.fill_color, 7);
}
