use altium_tools::json::{Json, JsonNode};
use altium_tools::requests::{
    duplicate_name_error, first_repeat, request_names, RenderLimits, UpdateTarget, WriteSwitches,
};
use altium_tools::McpServer;
use serde_json::Value;

fn to_json(v: &Value) -> Json {
    let node = match v {
        Value::Null => JsonNode::Null,
        Value::Bool(b) => JsonNode::Bool(*b),
        Value::Number(n) => match (n.as_u64(), n.as_i64()) {
            (Some(u), _) => JsonNode::PosInt(u),
            (None, Some(i)) => JsonNode::NegInt(i),
            _ => JsonNode::Float,
        },
        Value::String(s) => JsonNode::Str(s.clone()),
        Value::Array(items) => JsonNode::Array(items.iter().map(to_json).collect()),
        Value::Object(members) => {
            JsonNode::Object(members.iter().map(|(k, v)| (k.clone(), to_json(v))).collect())
        }
    };
    Json { node, text: v.to_string() }
}

fn parse(text: &str) -> Json {
    to_json(&serde_json::from_str::<Value>(text).expect("test JSON"))
}

#[test]
fn a_search_names_its_missing_arguments_and_bad_pattern_type() {
    let err = |text: &str| McpServer::search_request(&parse(text)).expect_err(text);
    assert_eq!(err(r#"{ "pattern": "*" }"#), "Missing required parameter: filepaths");
    assert_eq!(err(r#"{ "filepaths": "Lib.PcbLib", "pattern": "*" }"#), "Missing required parameter: filepaths");
    assert_eq!(err(r#"{ "filepaths": [], "pattern": "*" }"#), "filepaths must contain at least one path");
    // Present but carrying nothing usable.
    assert_eq!(err(r#"{ "filepaths": [1, true], "pattern": "*" }"#), "filepaths must contain at least one path");
    assert_eq!(err(r#"{ "filepaths": ["Lib.PcbLib"] }"#), "Missing required parameter: pattern");
    assert_eq!(
        err(r#"{ "filepaths": ["Lib.PcbLib"], "pattern": "*", "pattern_type": "fuzzy" }"#),
        "pattern_type must be one of: 'glob', 'regex'"
    );
}

#[test]
fn a_search_keeps_its_string_paths_and_defaults_to_a_glob() {
    let q = McpServer::search_request(&parse(r#"{ "filepaths": ["A.PcbLib", 7, "B.SchLib"], "pattern": "R*" }"#))
        .expect("a search");
    assert_eq!(q.paths, vec!["A.PcbLib".to_string(), "B.SchLib".to_string()]);
    assert_eq!(q.pattern, "R*");
    assert_eq!(q.pattern_type, "glob");
    let q = McpServer::search_request(&parse(
        r#"{ "filepaths": ["A.PcbLib"], "pattern": "R.*", "pattern_type": "regex" }"#,
    ))
    .expect("a regex search");
    assert_eq!(q.pattern_type, "regex");
}

#[test]
fn an_existence_check_names_its_missing_arguments() {
    let err = |text: &str| McpServer::exists_request(&parse(text)).expect_err(text);
    assert_eq!(err(r#"{ "component_names": ["A"] }"#), "Missing required parameter: filepath");
    assert_eq!(err(r#"{ "filepath": "Lib.PcbLib" }"#), "Missing required parameter: component_names");
    assert_eq!(
        err(r#"{ "filepath": "Lib.PcbLib", "component_names": [1, 2] }"#),
        "component_names array is empty or contains non-string values"
    );
    let q = McpServer::exists_request(&parse(r#"{ "filepath": "Lib.PcbLib", "component_names": ["A", 3, "B"] }"#))
        .expect("a check");
    assert_eq!(q.filepath, "Lib.PcbLib");
    assert_eq!(q.names, vec!["A".to_string(), "B".to_string()]);
}

#[test]
fn a_component_request_needs_its_library_then_its_name() {
    let err = |text: &str| McpServer::component_request(&parse(text)).expect_err(text);
    assert_eq!(err(r#"{ "component_name": "A" }"#), "Missing required parameter: filepath");
    assert_eq!(err(r#"{ "filepath": "Lib.PcbLib" }"#), "Missing required parameter: component_name");
    assert_eq!(err(r#"{}"#), "Missing required parameter: filepath");
    let q = McpServer::component_request(&parse(r#"{ "filepath": "Lib.SchLib", "component_name": "R" }"#))
        .expect("a request");
    assert_eq!((q.filepath.as_str(), q.component_name.as_str()), ("Lib.SchLib", "R"));
}

#[test]
fn render_limits_default_to_an_eighty_by_forty_canvas_of_part_one() {
    assert_eq!(
        McpServer::render_limits(&parse("{}")),
        RenderLimits { max_width: 80, max_height: 40, part_id: 1 }
    );
    assert_eq!(
        McpServer::render_limits(&parse(r#"{ "max_width": 120, "max_height": 10, "part_id": 0, "scale": 2.5 }"#)),
        RenderLimits { max_width: 120, max_height: 10, part_id: 0 }
    );
    // A limit that is not a whole number keeps the default.
    assert_eq!(McpServer::render_limits(&parse(r#"{ "max_width": 12.5 }"#)).max_width, 80);
}

#[test]
fn an_update_names_each_missing_argument_by_library_kind() {
    let err = |text: &str, path: &str| McpServer::update_request(&parse(text), path).expect_err(text);
    assert_eq!(err(r#"{ "footprint": {} }"#, "Lib.PcbLib"), "Missing required parameter: component_name");
    assert_eq!(
        err(r#"{ "component_name": "CHIP_0402" }"#, "Lib.PcbLib"),
        "Missing required parameter: footprint (required for .PcbLib files)"
    );
    assert_eq!(
        err(r#"{ "component_name": "RESISTOR" }"#, "Lib.SchLib"),
        "Missing required parameter: symbol (required for .SchLib files)"
    );
    let q = McpServer::update_request(&parse(r#"{ "component_name": "A", "footprint": {} }"#), "Lib.txt")
        .expect("an update of an unsupported file");
    assert_eq!(q.target, UpdateTarget::Unsupported);
    let q = McpServer::update_request(&parse(r#"{ "component_name": "A", "symbol": {}, "dry_run": true }"#), "Lib.SCHLIB")
        .expect("a dry run");
    assert_eq!(q.target, UpdateTarget::Symbol);
    assert!(q.dry_run);
    assert_eq!(q.component_name, "A");
    let q = McpServer::update_request(&parse(r#"{ "component_name": "A", "footprint": {} }"#), "Lib.PcbLib")
        .expect("an update");
    assert_eq!(q.target, UpdateTarget::Footprint);
    assert!(!q.dry_run);
}

#[test]
fn a_package_request_needs_a_libpkg_and_a_document() {
    let err = |text: &str, path: &str| McpServer::libpkg_documents(&parse(text), path).expect_err(text);
    assert_eq!(err(r#"{ "documents": ["A.SchLib"] }"#, "P.PcbLib"), "write_libpkg only supports .LibPkg files");
    assert_eq!(err(r#"{}"#, "P.LibPkg"), "Missing required parameter: documents");
    assert_eq!(err(r#"{ "documents": [] }"#, "P.LibPkg"), "documents must contain at least one .SchLib/.PcbLib path");
    let docs = McpServer::libpkg_documents(&parse(r#"{ "documents": ["A.SchLib", "B.PcbLib"] }"#), "p.libpkg")
        .expect("a package");
    assert_eq!(docs, vec!["A.SchLib".to_string(), "B.PcbLib".to_string()]);
}

#[test]
fn a_write_request_finds_the_first_name_taken_twice() {
    let json = parse(r#"[{ "name": "R1" }, { "description": "no name" }, { "name": "C1" }, { "name": "r1" }, { "name": "C1" }]"#);
    let items = match &json.node {
        JsonNode::Array(items) => items,
        _ => unreachable!(),
    };
    let names = request_names(items);
    assert_eq!(names, vec!["R1".to_string(), "C1".to_string(), "r1".to_string(), "C1".to_string()]);
    // Exact names: the second "C1" is the first repeat.
    assert_eq!(first_repeat(&names), Some(3));
    // Folded to one case, "r1" already repeats "R1".
    let folded: Vec<String> = names.iter().map(|n| n.to_lowercase()).collect();
    assert_eq!(first_repeat(&folded), Some(2));
    assert_eq!(first_repeat(&["A".to_string(), "B".to_string()]), None);
    assert_eq!(first_repeat(&[]), None);

    let e = duplicate_name_error("write_schlib", "Lib.SchLib", "symbol", &names[2]);
    assert_eq!(e.message, "Duplicate symbol name: 'r1'");
    assert_eq!(e.details.as_deref(), Some("Each symbol in the request must have a unique name"));
    assert_eq!(e.component.as_deref(), Some("r1"));
    assert_eq!(e.filepath.as_deref(), Some("Lib.SchLib"));
}

#[test]
fn write_switches_default_to_a_fresh_library_with_designators() {
    assert_eq!(
        McpServer::write_switches(&parse("{}")),
        WriteSwitches { append: false, auto_designator: true, auto_3d_body: false }
    );
    assert_eq!(
        McpServer::write_switches(&parse(r#"{ "append": true, "auto_designator": false, "auto_3d_body": true }"#)),
        WriteSwitches { append: true, auto_designator: false, auto_3d_body: true }
    );
}
