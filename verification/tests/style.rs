use altium_tools::style::{colour_key, colour_tally, tally, IntStats};
use altium_tools::McpServer;

fn count_of(counts: &[(String, usize)], key: &str) -> Option<usize> {
    counts.iter().find(|(k, _)| k == key).map(|(_, n)| *n)
}

#[test]
fn pin_lengths_all_alike_summarise_to_that_length() {
    let stats = McpServer::int_stats(&[10, 10, 10, 10]).expect("four lengths");
    assert_eq!(stats, IntStats { min: 10, max: 10, most_common: 10, count: 4 });
}

#[test]
fn no_measures_summarise_to_nothing() {
    assert_eq!(McpServer::int_stats(&[]), None);
}

#[test]
fn mixed_measures_report_their_extremes_and_most_common() {
    let stats = McpServer::int_stats(&[5, -3, 20, 5, 7]).expect("five measures");
    assert_eq!(stats.min, -3);
    assert_eq!(stats.max, 20);
    assert_eq!(stats.most_common, 5);
    assert_eq!(stats.count, 5);
}

#[test]
fn colours_are_named_in_six_upper_case_hex_digits() {
    assert_eq!(colour_key(0x00_00FF), "#0000FF");
    assert_eq!(colour_key(0x80_0000), "#800000");
    assert_eq!(colour_key(0xB0_FFFF), "#B0FFFF");
    assert_eq!(colour_key(0x00_8000), "#008000");
    assert_eq!(colour_key(0), "#000000");
    assert_eq!(colour_key(0x123_4567), "#1234567");
}

#[test]
fn a_tally_counts_each_name_once() {
    let names: Vec<String> = ["Round", "Rectangular", "Round", "Octagonal", "Round"]
        .iter()
        .map(|s| s.to_string())
        .collect();
    let counts = tally(&names);
    assert_eq!(
        counts,
        vec![
            ("Round".to_string(), 3),
            ("Rectangular".to_string(), 1),
            ("Octagonal".to_string(), 1)
        ]
    );
    assert!(tally(&[]).is_empty());
}

#[test]
fn a_colour_tally_groups_equal_colours() {
    let counts = colour_tally(&[0xFF, 0x80_0000, 0xFF]);
    assert_eq!(count_of(&counts, "#0000FF"), Some(2));
    assert_eq!(count_of(&counts, "#800000"), Some(1));
    assert_eq!(counts.len(), 2);
}

#[test]
fn extract_style_schlib_counts_every_kind_in_widths_and_colours() {
    // The library's one symbol: an op-amp triangle (width 2, blue stroke,
    // light fill), a red pin 10 long and a green label.
    let style = McpServer::schlib_style(&[10], &[2], &[0x00_00FF, 0x80_0000], &[0xB0_FFFF], &[0x00_8000], &[]);
    let widths = style.line_widths.expect("one stroke width");
    assert_eq!(widths.count, 1);
    assert_eq!(widths.most_common, 2);
    assert_eq!(count_of(&style.line_colors, "#0000FF"), Some(1));
    assert_eq!(count_of(&style.line_colors, "#800000"), Some(1));
    assert_eq!(count_of(&style.fill_colors, "#B0FFFF"), Some(1));
    assert_eq!(count_of(&style.text_colors, "#008000"), Some(1));
    assert_eq!(style.filled_count, 0);
    assert_eq!(style.unfilled_count, 0);
}

#[test]
fn a_schlib_style_counts_filled_and_unfilled_rectangles() {
    let style = McpServer::schlib_style(&[10, 10, 10, 10], &[1], &[0x80], &[0xB0_FFFF], &[], &[true, false, true]);
    assert_eq!(style.pin_lengths.expect("pins").most_common, 10);
    assert_eq!(style.filled_count, 2);
    assert_eq!(style.unfilled_count, 1);
    assert!(style.text_colors.is_empty());
}

#[test]
fn extract_style_schlib_reports_null_stats_for_a_bare_symbol() {
    // A symbol with no pins and no lines has nothing to summarise.
    let style = McpServer::schlib_style(&[], &[], &[], &[], &[], &[]);
    assert!(style.pin_lengths.is_none());
    assert!(style.line_widths.is_none());
    assert!(style.line_colors.is_empty());
}

#[test]
fn extract_style_schlib_reports_pin_and_line_statistics() {
    // Four pins, all 10 units long; one filled rectangle contributes the
    // only stroke width.
    let style = McpServer::schlib_style(&[10, 10, 10, 10], &[1], &[0x80], &[0xB0_FFFF], &[], &[true]);
    let pins = style.pin_lengths.expect("four pins");
    assert_eq!(pins.count, 4);
    assert_eq!(pins.min, 10);
    assert_eq!(pins.max, 10);
    assert_eq!(pins.most_common, 10);
    assert_eq!(style.line_widths.expect("one width").count, 1);
    assert_eq!(style.filled_count, 1);
    assert_eq!(style.unfilled_count, 0);
}

#[test]
fn extract_style_schlib_unfilled_rect_and_lines() {
    // A pin 10 long, an unfilled rectangle and a line of width 1.
    let style = McpServer::schlib_style(&[10], &[1, 1], &[0x80, 0x80], &[0xB0_FFFF], &[], &[false]);
    assert_eq!(style.unfilled_count, 1);
    assert_eq!(style.filled_count, 0);
    assert!(style.line_widths.expect("widths").count >= 1);
}

#[test]
fn extract_style_pcblib_pad_shape_distribution() {
    // A rounded-rectangle SMD pad on the top layer and a round through-hole
    // pad on the multi-layer.
    let shapes = tally(&["RoundedRectangle".to_string(), "Round".to_string()]);
    assert_eq!(count_of(&shapes, "RoundedRectangle"), Some(1));
    assert_eq!(count_of(&shapes, "Round"), Some(1));
    let layers = tally(&["Top Layer".to_string(), "Multi-Layer".to_string()]);
    assert!(count_of(&layers, "Multi-Layer").is_some());
}

#[test]
fn the_most_common_value_of_integers_and_of_flags() {
    assert_eq!(McpServer::most_common(&[3, 1, 3, 2]), 3);
    assert_eq!(McpServer::most_common(&[]), 0);
    assert!(McpServer::most_common_flag(&[false, true, true]));
    assert!(!McpServer::most_common_flag(&[false, false, true]));
    assert!(!McpServer::most_common_flag(&[]));
}
