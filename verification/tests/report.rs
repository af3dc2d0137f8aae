use altium_tools::json::{Json, JsonNode};
use altium_tools::records::Pin;
use altium_tools::report::{
    body_source, bounding_box, needs_designator_text, overlap_report_lines, page_window,
    pin_extent, silk_faces_pad, BodySource, Page, PadCopper, SilkSide,
};
use altium_tools::McpServer;
use serde_json::Value;

fn to_json(v: &Value) -> Json {
    let node = match v {
        Value::Null => JsonNode::Null,
        Value::Bool(b) => JsonNode::Bool(*b),
        Value::Number(n) => match (n.as_u64(), n.as_i64()) {
            (Some(u), _) => JsonNode::PosInt(u),
            (None, Some(i)) => JsonNode::NegInt(i),
            _ => JsonNode::Float,
        },
        Value::String(s) => JsonNode::Str(s.clone()),
        Value::Array(items) => JsonNode::Array(items.iter().map(to_json).collect()),
        Value::Object(members) => {
            JsonNode::Object(members.iter().map(|(k, v)| (k.clone(), to_json(v))).collect())
        }
    };
    Json { node, text: v.to_string() }
}

fn parse(text: &str) -> Json {
    to_json(&serde_json::from_str::<Value>(text).expect("test JSON"))
}

fn pin(x: i32, y: i32, length: i32, orientation: &str) -> Pin {
    let json = parse(&format!(
        r#"{{ "designator": "1", "x": {x}, "y": {y}, "length": {length}, "orientation": "{orientation}" }}"#
    ));
    McpServer::parse_schlib_pin(&json).expect("pin should parse")
}

#[test]
fn page_window_skips_takes_and_reports_more() {
    assert_eq!(
        page_window(10, 10, 0, Some(4), false),
        Page { start: 0, end: 4, has_more: true }
    );
    assert_eq!(
        page_window(10, 10, 8, Some(4), false),
        Page { start: 8, end: 10, has_more: false }
    );
    assert_eq!(
        page_window(10, 10, 12, Some(4), false),
        Page { start: 10, end: 10, has_more: false }
    );
    assert_eq!(
        page_window(10, 10, 3, None, false),
        Page { start: 3, end: 10, has_more: false }
    );
    // A single-component fetch never has more.
    assert_eq!(
        page_window(1, 10, 0, Some(1), true),
        Page { start: 0, end: 1, has_more: false }
    );
    // A listing filtered below the library's size still reports the rest.
    assert_eq!(
        page_window(2, 10, 0, None, false),
        Page { start: 0, end: 2, has_more: true }
    );
}

#[test]
fn successive_pages_follow_on() {
    let first = page_window(7, 7, 0, Some(3), false);
    let second = page_window(7, 7, 3, Some(3), false);
    let third = page_window(7, 7, 6, Some(3), false);
    assert_eq!(first.end, second.start);
    assert_eq!(second.end, third.start);
    assert!(first.has_more && second.has_more && !third.has_more);
}

#[test]
fn most_common_picks_the_most_frequent_value() {
    assert_eq!(McpServer::most_common(&[3, 5, 5, 1, 5, 3]), 5);
    assert_eq!(McpServer::most_common(&[i64::MIN, 20, i64::MIN]), i64::MIN);
    assert_eq!(McpServer::most_common(&[]), 0);
    assert_eq!(McpServer::most_common(&[-7]), -7);
    let tie = McpServer::most_common(&[1, 2, 2, 1]);
    assert!(tie == 1 || tie == 2);
}

#[test]
fn pin_extent_and_bounding_box_cover_body_ends_and_tips() {
    let pins = [pin(-50, 20, 30, "left"), pin(50, 20, 30, "right"), pin(0, -40, 10, "down")];
    let (xs, ys) = pin_extent(&pins);
    assert_eq!(xs, vec![-50, -80, 50, 80, 0, 0]);
    assert_eq!(ys, vec![20, 20, 20, 20, -40, -50]);
    assert_eq!(bounding_box(&xs, &ys), Some((-80, 80, -50, 20)));
    assert_eq!(bounding_box(&[], &[]), None);
}

#[test]
fn body_source_prefers_embedded_then_external_then_extruded() {
    let names = |v: &[&str]| v.iter().map(|s| s.to_string()).collect::<Vec<_>>();
    assert_eq!(body_source(true, &names(&["a.step"]), false), BodySource::StepEmbedded);
    assert_eq!(body_source(false, &names(&["", "b.step"]), false), BodySource::StepExternal(1));
    assert_eq!(body_source(false, &names(&["", ""]), false), BodySource::Extruded(0));
    assert_eq!(body_source(false, &names(&[""]), true), BodySource::AutoExtruded(0));
    assert_eq!(body_source(false, &[], false), BodySource::NoBody);
}

#[test]
fn designator_text_is_added_only_where_missing() {
    let texts = |v: &[&str]| v.iter().map(|s| s.to_string()).collect::<Vec<_>>();
    assert!(needs_designator_text(true, false, &texts(&["REF", ".Comment"])));
    assert!(!needs_designator_text(true, false, &texts(&[" .DESIGNATOR "])));
    assert!(!needs_designator_text(false, false, &[]));
    assert!(!needs_designator_text(true, true, &[]));
}

#[test]
fn silk_is_checked_only_against_pads_on_its_side() {
    assert!(silk_faces_pad(SilkSide::Bottom, PadCopper::Bottom));
    assert!(!silk_faces_pad(SilkSide::Bottom, PadCopper::Top));
    assert!(silk_faces_pad(SilkSide::Top, PadCopper::Multi));
    assert!(silk_faces_pad(SilkSide::Bottom, PadCopper::Multi));
    assert!(!silk_faces_pad(SilkSide::Elsewhere, PadCopper::Multi));
    assert!(!silk_faces_pad(SilkSide::Top, PadCopper::Elsewhere));
}

#[test]
fn overlap_reports_are_capped_with_the_true_total() {
    assert_eq!(overlap_report_lines(1, 5), (1, None));
    assert_eq!(overlap_report_lines(5, 5), (5, None));
    assert_eq!(
        overlap_report_lines(28, 5),
        (5, Some("28 overlapping pad pairs total; 5 shown".to_string()))
    );
}
