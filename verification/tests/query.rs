use altium_tools::query::{
    compile_search_pattern, existence_summary, library_kind, matching_names, search_regex_source,
    FootprintSummary, LibraryKind, SymbolSummary,
};
use altium_tools::McpServer;

fn footprint(description: &str, counts: &[usize]) -> FootprintSummary {
    FootprintSummary { description: description.to_string(), counts: counts.to_vec() }
}

fn symbol(description: &str, designator: &str, part_count: u32, counts: &[usize], footprints: usize) -> SymbolSummary {
    SymbolSummary {
        description: description.to_string(),
        designator: designator.to_string(),
        part_count,
        counts: counts.to_vec(),
        footprint_count: footprints,
    }
}

#[test]
fn glob_to_regex_escapes_metacharacters() {
    assert_eq!(McpServer::glob_to_regex("CHIP_*"), "CHIP_.*");
    assert_eq!(McpServer::glob_to_regex("R?"), "R.");
    assert_eq!(McpServer::glob_to_regex("a.b+c"), "a\\.b\\+c");
}

#[test]
fn glob_to_regex_escapes_every_metacharacter() {
    assert_eq!(
        McpServer::glob_to_regex(".+^$()[]{}|\\"),
        "\\.\\+\\^\\$\\(\\)\\[\\]\\{\\}\\|\\\\"
    );
    assert_eq!(McpServer::glob_to_regex("SOT-23"), "SOT-23");
    assert_eq!(McpServer::glob_to_regex(""), "");
}

#[test]
fn library_kind_reads_the_extension_in_any_case() {
    assert_eq!(library_kind("/libs/Parts.PcbLib"), Some(LibraryKind::PcbLib));
    assert_eq!(library_kind("parts.SCHLIB"), Some(LibraryKind::SchLib));
    assert_eq!(library_kind("a/b.libpkg"), Some(LibraryKind::LibPkg));
    assert_eq!(library_kind("notes.txt"), None);
    assert_eq!(library_kind("PcbLib"), None);
    assert_eq!(library_kind("dir.PcbLib/file"), None);
}

#[test]
fn search_regex_source_wraps_and_translates() {
    assert_eq!(search_regex_source("CHIP_*", "glob"), Ok("(?i)^CHIP_.*$".to_string()));
    assert_eq!(search_regex_source("R[0-9]+", "regex"), Ok("(?i)^R[0-9]+$".to_string()));
    assert_eq!(
        search_regex_source("R", "fuzzy"),
        Err("pattern_type must be one of: 'glob', 'regex'".to_string())
    );
}

#[test]
fn search_is_case_insensitive_and_matches_whole_names() {
    let source = search_regex_source("chip_*", "glob").unwrap();
    let pattern = compile_search_pattern(&source).expect("a valid pattern");
    let names: Vec<String> =
        ["CHIP_0402", "SOIC8", "chip_0603", "MYCHIP_1"].iter().map(|s| s.to_string()).collect();
    assert_eq!(matching_names(&pattern, &names), vec!["CHIP_0402", "chip_0603"]);
}

#[test]
fn an_invalid_regex_is_reported_as_an_invalid_pattern() {
    let err = compile_search_pattern("(?i)^R[$").err().expect("an unclosed class is refused");
    assert!(err.starts_with("Invalid pattern: "), "{err}");
    assert!(err.len() > "Invalid pattern: ".len());
}

#[test]
fn existence_summary_counts_and_agrees() {
    assert_eq!(existence_summary(&[true, false, true]), (2, false));
    assert_eq!(existence_summary(&[true, true]), (2, true));
    assert_eq!(existence_summary(&[]), (0, true));
}

#[test]
fn previewing_against_no_previous_component_reports_a_creation() {
    let kinds = ["pad", "track"];
    let changes = McpServer::preview_footprint_changes(&kinds, None, &footprint("", &[0, 0]));
    assert_eq!(changes, ["component will be created"], "{changes:?}");

    let changes = McpServer::preview_symbol_changes(&kinds, None, &symbol("", "U?", 1, &[0, 0], 0));
    assert_eq!(changes, ["component will be created"], "{changes:?}");
}

#[test]
fn a_preview_that_changes_nothing_says_so() {
    let kinds = ["pad", "track"];
    let f = footprint("0402 chip resistor", &[2, 0]);
    let changes = McpServer::preview_footprint_changes(&kinds, Some(&f), &f);
    assert_eq!(changes, ["no structural changes detected"]);
    let s = symbol("Resistor", "R?", 1, &[2, 1], 1);
    let changes = McpServer::preview_symbol_changes(&kinds, Some(&s), &s);
    assert_eq!(changes, ["no structural changes detected"]);
}

#[test]
fn a_preview_lists_each_change_in_order() {
    let kinds = ["pad", "track"];
    let changes = McpServer::preview_footprint_changes(
        &kinds,
        Some(&footprint("old", &[2, 0])),
        &footprint("new", &[4, 0]),
    );
    assert_eq!(changes, ["description: 'old' -> 'new'", "pad_count: 2 -> 4"]);
    let changes = McpServer::preview_symbol_changes(
        &kinds,
        Some(&symbol("d", "U?", 1, &[1, 1], 0)),
        &symbol("d", "R?", 2, &[1, 3], 1),
    );
    assert_eq!(
        changes,
        [
            "designator: 'U?' -> 'R?'",
            "part_count: 1 -> 2",
            "track_count: 1 -> 3",
            "footprint_count: 0 -> 1"
        ]
    );
}
