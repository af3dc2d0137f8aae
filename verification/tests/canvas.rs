use altium_tools::canvas::{fit_extent, Canvas};
use altium_tools::render::{
    labelled_counts, part_shown, shown_count, shown_part, symbol_counts, symbol_title,
    SymbolOwners,
};
use altium_tools::McpServer;

fn rows(canvas: &Canvas) -> Vec<String> {
    (0..canvas.height())
        .map(|y| (0..canvas.width()).map(|x| canvas.get(x, y)).collect())
        .collect()
}

#[test]
fn a_new_canvas_is_blank_and_framed() {
    let c = Canvas::new(3, 2);
    assert_eq!(rows(&c), ["   ", "   "]);
    assert_eq!(c.framed(), "-----\n|   |\n|   |\n-----\n");
}

#[test]
fn fitted_canvases_are_clamped() {
    let c = Canvas::fitted(3, 2, 80, 40);
    assert_eq!((c.width(), c.height()), (10, 5));
    let c = Canvas::fitted(500, 500, 80, 40);
    assert_eq!((c.width(), c.height()), (80, 40));
    let c = Canvas::fitted(500, 7, 4, 4);
    assert_eq!((c.width(), c.height()), (10, 5));
    assert_eq!(fit_extent(12, 10, 20), 12);
    assert_eq!(fit_extent(25, 10, 20), 20);
    assert_eq!(fit_extent(25, 10, 3), 10);
}

#[test]
fn cells_are_clamped_and_rows_count_down() {
    let c = Canvas::new(10, 5);
    assert_eq!(c.cell_of(0, 0), (0, 4));
    assert_eq!(c.cell_of(3, 1), (3, 3));
    assert_eq!(c.cell_of(99, 99), (9, 0));
}

#[test]
fn lines_are_drawn_cell_by_cell() {
    let mut c = Canvas::new(5, 3);
    c.line((0, 0), (4, 2), '-');
    assert_eq!(rows(&c), ["--   ", "  -- ", "    -"]);
    let mut c = Canvas::new(4, 4);
    c.line((3, 0), (3, 3), '|');
    assert_eq!(rows(&c), ["   |", "   |", "   |", "   |"]);
    let mut c = Canvas::new(4, 4);
    c.line((3, 3), (0, 0), '\\');
    assert_eq!(rows(&c), ["\\   ", " \\  ", "  \\ ", "   \\"]);
    let mut c = Canvas::new(3, 3);
    c.line((1, 1), (1, 1), '@');
    assert_eq!(rows(&c), ["   ", " @ ", "   "]);
}

#[test]
fn boxes_are_filled_and_outlined() {
    let mut c = Canvas::new(6, 4);
    c.rect_fill((4, 2), (1, 1), '=');
    assert_eq!(rows(&c), ["      ", " ==== ", " ==== ", "      "]);
    let mut c = Canvas::new(6, 4);
    c.rect_outline((0, 0), (5, 3), ('-', '|', '+'));
    assert_eq!(rows(&c), ["+----+", "|    |", "|    |", "+----+"]);
    let mut c = Canvas::new(3, 3);
    c.rect_outline((1, 0), (1, 2), ('-', '|', '+'));
    assert_eq!(rows(&c), [" + ", " | ", " + "]);
}

#[test]
fn labels_are_placed_and_clipped() {
    let mut c = Canvas::new(6, 3);
    c.put(4, 0, "abc");
    c.label_ending_at((2, 1), "xyz1");
    c.label_centred((3, 2), "mid");
    assert_eq!(rows(&c), ["    ab", "xyz1  ", "  mid "]);
    let mut c = Canvas::new(4, 1);
    c.label_centred((0, 0), "wide");
    assert_eq!(rows(&c), ["wide"]);
}

#[test]
fn the_origin_never_hides_a_primitive() {
    let mut c = Canvas::new(3, 1);
    c.set(1, 0, '#');
    c.origin((1, 0));
    c.origin((2, 0));
    assert_eq!(rows(&c), [" #+"]);
}

#[test]
fn parts_and_headers_of_a_symbol_rendering() {
    assert!(part_shown(0, 3));
    assert!(part_shown(2, 0));
    assert!(part_shown(2, 2));
    assert!(!part_shown(2, 1));
    assert_eq!(shown_count(1, &[1, 2, 0, 1]), 3);
    assert_eq!(shown_count(0, &[1, 2, 0, 1]), 4);
    assert_eq!(shown_part(5, 2), 2);
    assert_eq!(shown_part(0, 2), 1);
    assert_eq!(shown_part(3, 0), 1);
    assert_eq!(shown_part(7, u32::MAX), 7);
    assert_eq!(symbol_title("LM358", 5, 2), "Symbol: LM358 (part 2/2)");
    assert_eq!(
        symbol_counts(2, 1, 0, &[("Polylines", 0), ("Arcs", 3), ("IEEE symbols", 1)]),
        "Pins: 2, Rectangles: 1, Lines: 0, Arcs: 3, IEEE symbols: 1"
    );
    assert_eq!(labelled_counts(&[("Pads", 4), ("Tracks", 0)]), "Pads: 4, Tracks: 0");
    assert_eq!(labelled_counts(&[]), "");
}

fn owners() -> SymbolOwners {
    SymbolOwners {
        pins: vec![],
        rectangles: vec![],
        lines: vec![],
        polylines: vec![],
        polygons: vec![],
        arcs: vec![],
        pies: vec![],
        ellipses: vec![],
        round_rects: vec![],
        elliptical_arcs: vec![],
        beziers: vec![],
        images: vec![],
        text_frames: vec![],
        labels: vec![],
        ieee_symbols: vec![],
        polyline_points: vec![],
        polygon_points: vec![],
    }
}

#[test]
fn a_symbol_with_nothing_in_its_part_renders_as_empty() {
    let mut o = owners();
    assert!(McpServer::symbol_is_empty(1, &o));
    // A pin of part 2 is not shown in part 1, but is in part 0 (every part).
    o.pins = vec![2];
    assert!(McpServer::symbol_is_empty(1, &o));
    assert!(!McpServer::symbol_is_empty(0, &o));
    // A polyline without points draws nothing.
    o.polylines = vec![1];
    o.polyline_points = vec![0];
    assert!(McpServer::symbol_is_empty(1, &o));
    o.polyline_points = vec![2];
    assert!(!McpServer::symbol_is_empty(1, &o));
}

#[test]
fn the_count_line_names_every_kind_the_part_shows() {
    let mut o = owners();
    o.polygons = vec![1];
    o.polygon_points = vec![3];
    o.pies = vec![1];
    o.round_rects = vec![0];
    o.elliptical_arcs = vec![1];
    o.beziers = vec![1];
    o.images = vec![1];
    o.text_frames = vec![1];
    o.labels = vec![1];
    o.ieee_symbols = vec![1];
    o.arcs = vec![2];
    assert_eq!(
        McpServer::symbol_count_line(1, &o),
        "Pins: 0, Rectangles: 0, Lines: 0, Polygons: 1, Pies: 1, Round rects: 1, \
         Elliptical arcs: 1, Beziers: 1, Images: 1, Text frames: 1, Labels: 1, \
         IEEE symbols: 1"
    );
    o.pins = vec![1, 1];
    o.rectangles = vec![1];
    assert!(McpServer::symbol_count_line(1, &o).starts_with("Pins: 2, Rectangles: 1, Lines: 0, "));
}
