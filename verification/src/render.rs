//! What the render tools decide besides drawing: which primitives of a
//! multi-part symbol are shown, the part number a header names, whether a
//! symbol renders as empty, and the count lines printed above a rendering.
use vstd::prelude::*;
use crate::McpServer;
use crate::text::{decimal, join, push_str, signed_decimal, u64_text, i64_text};

verus! {

/// Whether a primitive owned by part `owner` is drawn when part `part_id`
/// is asked for: part 0 asks for every part, and a primitive of part 0
/// belongs to every part.
pub open spec fn shown(part_id: int, owner: int) -> bool {
    part_id == 0 || owner == part_id || owner == 0
}

/// Whether a primitive owned by part `owner` is drawn for part `part_id`.
pub fn part_shown(part_id: i32, owner: i32) -> (drawn: bool)
    ensures
        drawn == shown(part_id as int, owner as int),
{
    part_id == 0 || owner == part_id || owner == 0
}

/// How many of `owners` are shown for part `part_id`.
pub open spec fn shown_among(part_id: int, owners: Seq<i32>) -> nat
    decreases owners.len(),
{
    if owners.len() == 0 {
        0
    } else {
        shown_among(part_id, owners.drop_last()) + if shown(part_id, owners.last() as int) {
            1nat
        } else {
            0nat
        }
    }
}

proof fn lemma_shown_among_bound(part_id: int, owners: Seq<i32>)
    ensures
        shown_among(part_id, owners) <= owners.len(),
    decreases owners.len(),
{
    if owners.len() > 0 {
        lemma_shown_among_bound(part_id, owners.drop_last());
    }
}

/// Part 0 shows every primitive, and a primitive of part 0 shows in every
/// part.
pub proof fn lemma_part_zero_shows_all(part_id: int, owners: Seq<i32>)
    ensures
        shown_among(0, owners) == owners.len(),
        (forall|i: int| 0 <= i < owners.len() ==> owners[i] == 0) ==> shown_among(part_id, owners)
            == owners.len(),
    decreases owners.len(),
{
    if owners.len() > 0 {
        lemma_part_zero_shows_all(part_id, owners.drop_last());
        if forall|i: int| 0 <= i < owners.len() ==> owners[i] == 0 {
            let rest = owners.drop_last();
            assert forall|i: int| 0 <= i < rest.len() implies rest[i] == 0 by {
                assert(rest[i] == owners[i]);
            }
        }
    }
}

/// The number of primitives, owned by the parts in `owners`, that part
/// `part_id` shows.
pub fn shown_count(part_id: i32, owners: &[i32]) -> (count: usize)
    ensures
        count == shown_among(part_id as int, owners@),
{
    let mut count: usize = 0;
    let mut i: usize = 0;
    while i < owners.len()
        invariant
            i <= owners.len(),
            count == shown_among(part_id as int, owners@.take(i as int)),
        decreases owners.len() - i,
    {
        proof {
            assert(owners@.take(i + 1).drop_last() =~= owners@.take(i as int));
            lemma_shown_among_bound(part_id as int, owners@.take(i as int));
        }
        if part_shown(part_id, owners[i]) {
            count += 1;
        }
        i += 1;
    }
    assert(owners@.take(owners.len() as int) =~= owners@);
    count
}

/// The part a symbol header names: `part_id` clamped to `1 ..= part_count`,
/// with the count read as at least 1 and at most `i32::MAX`.
pub open spec fn shown_part_of(part_id: int, part_count: int) -> int {
    let top = if part_count < 1 {
        1
    } else if part_count > i32::MAX {
        i32::MAX as int
    } else {
        part_count
    };
    if part_id < 1 {
        1
    } else if part_id > top {
        top
    } else {
        part_id
    }
}

/// The part number a symbol header shows for part `part_id` of a symbol
/// with `part_count` parts.
pub fn shown_part(part_id: i32, part_count: u32) -> (part: i32)
    ensures
        part == shown_part_of(part_id as int, part_count as int),
{
    let top: i32 = if part_count < 1 {
        1
    } else if part_count > 2147483647u32 {
        2147483647i32
    } else {
        part_count as i32
    };
    if part_id < 1 {
        1
    } else if part_id > top {
        top
    } else {
        part_id
    }
}

/// `Symbol: <name> (part <shown>/<part_count>)`.
pub open spec fn symbol_title_text(name: Seq<char>, part_id: int, part_count: nat) -> Seq<char> {
    "Symbol: "@ + name + " (part "@ + signed_decimal(shown_part_of(part_id, part_count as int))
        + "/"@ + decimal(part_count) + ")"@
}

/// The title line of a symbol rendering.
pub fn symbol_title(name: &str, part_id: i32, part_count: u32) -> (title: String)
    ensures
        title@ == symbol_title_text(name@, part_id as int, part_count as nat),
{
    let part = shown_part(part_id, part_count);
    let mut title = String::new();
    push_str(&mut title, "Symbol: ");
    push_str(&mut title, name);
    push_str(&mut title, " (part ");
    let part_text = i64_text(part as i64);
    push_str(&mut title, part_text.as_str());
    push_str(&mut title, "/");
    let count_text = u64_text(part_count as u64);
    push_str(&mut title, count_text.as_str());
    push_str(&mut title, ")");
    title
}

/// `<name>: <count>`.
pub open spec fn entry_text(entry: (&str, usize)) -> Seq<char> {
    entry.0@ + ": "@ + decimal(entry.1 as nat)
}

/// Each entry as `<name>: <count>`, separated by commas.
pub open spec fn labelled(entries: Seq<(&str, usize)>) -> Seq<char> {
    join(entries.map_values(|e: (&str, usize)| entry_text(e)), ", "@)
}

/// The entries whose count is not zero, in order.
pub open spec fn nonzero(entries: Seq<(&str, usize)>) -> Seq<(&str, usize)>
    decreases entries.len(),
{
    if entries.len() == 0 {
        Seq::empty()
    } else if entries.last().1 > 0 {
        nonzero(entries.drop_last()).push(entries.last())
    } else {
        nonzero(entries.drop_last())
    }
}

/// A count line: each entry as `<name>: <count>`, separated by commas.
pub fn labelled_counts(entries: &[(&str, usize)]) -> (line: String)
    ensures
        line@ == labelled(entries@),
{
    let mut line = String::new();
    let mut i: usize = 0;
    while i < entries.len()
        invariant
            i <= entries.len(),
            line@ == labelled(entries@.take(i as int)),
        decreases entries.len() - i,
    {
        let ghost texts = entries@.take(i as int).map_values(|e: (&str, usize)| entry_text(e));
        let (name, count) = entries[i];
        if i > 0 {
            push_str(&mut line, ", ");
        }
        push_str(&mut line, name);
        push_str(&mut line, ": ");
        let digits = u64_text(count as u64);
        push_str(&mut line, digits.as_str());
        proof {
            let after = entries@.take((i + 1) as int).map_values(|e: (&str, usize)| entry_text(e));
            assert(after.drop_last() =~= texts);
            assert(after.last() == entry_text(entries@[i as int]));
            if i == 0 {
                assert(line@ =~= join(after, ", "@));
            } else {
                assert(line@ =~= join(texts, ", "@) + ", "@ + after.last());
            }
        }
        i += 1;
    }
    assert(entries@.take(entries.len() as int) =~= entries@);
    line
}

/// The count line of a symbol rendering: pins, rectangles and lines always,
/// then every other kind that the shown parts hold.
pub fn symbol_counts(pins: usize, rectangles: usize, lines: usize, others: &[(&str, usize)]) -> (line:
    String)
    ensures
        line@ == labelled(seq![("Pins", pins), ("Rectangles", rectangles), ("Lines", lines)]
            + nonzero(others@)),
{
    let mut entries: Vec<(&str, usize)> = Vec::new();
    entries.push(("Pins", pins));
    entries.push(("Rectangles", rectangles));
    entries.push(("Lines", lines));
    let ghost head = entries@;
    let mut i: usize = 0;
    while i < others.len()
        invariant
            i <= others.len(),
            entries@ == head + nonzero(others@.take(i as int)),
        decreases others.len() - i,
    {
        assert(others@.take(i + 1).drop_last() =~= others@.take(i as int));
        if others[i].1 > 0 {
            entries.push(others[i]);
        }
        i += 1;
    }
    assert(others@.take(others.len() as int) =~= others@);
    assert(head =~= seq![("Pins", pins), ("Rectangles", rectangles), ("Lines", lines)]);
    labelled_counts(entries.as_slice())
}


// ---------------------------------------------------------------- whole symbols

/// The parts that own a symbol's primitives, kind by kind, and how many
/// points each polyline and polygon has.
pub struct SymbolOwners {
    pub pins: Vec<i32>,
    pub rectangles: Vec<i32>,
    pub lines: Vec<i32>,
    pub polylines: Vec<i32>,
    pub polygons: Vec<i32>,
    pub arcs: Vec<i32>,
    pub pies: Vec<i32>,
    pub ellipses: Vec<i32>,
    pub round_rects: Vec<i32>,
    pub elliptical_arcs: Vec<i32>,
    pub beziers: Vec<i32>,
    pub images: Vec<i32>,
    pub text_frames: Vec<i32>,
    pub labels: Vec<i32>,
    pub ieee_symbols: Vec<i32>,
    /// The number of points of each polyline, by index.
    pub polyline_points: Vec<usize>,
    /// The number of points of each polygon, by index.
    pub polygon_points: Vec<usize>,
}

/// Part `part_id` shows a polyline or polygon with points among `owners`.
pub open spec fn shows_points(part_id: int, owners: Seq<i32>, points: Seq<usize>) -> bool {
    exists|i: int| 0 <= i < owners.len() && i < points.len() && shown(part_id, owners[i] as int) && #[trigger] points[i] > 0
}

/// A symbol renders as empty in part `part_id`: the part shows none of its
/// primitives (a polyline or polygon only counts with points).
pub open spec fn symbol_empty(part_id: int, o: SymbolOwners) -> bool {
    &&& shown_among(part_id, o.pins@) == 0
    &&& shown_among(part_id, o.rectangles@) == 0
    &&& shown_among(part_id, o.lines@) == 0
    &&& shown_among(part_id, o.arcs@) == 0
    &&& shown_among(part_id, o.pies@) == 0
    &&& shown_among(part_id, o.ellipses@) == 0
    &&& shown_among(part_id, o.round_rects@) == 0
    &&& shown_among(part_id, o.elliptical_arcs@) == 0
    &&& shown_among(part_id, o.beziers@) == 0
    &&& shown_among(part_id, o.images@) == 0
    &&& shown_among(part_id, o.text_frames@) == 0
    &&& shown_among(part_id, o.labels@) == 0
    &&& shown_among(part_id, o.ieee_symbols@) == 0
    &&& !shows_points(part_id, o.polylines@, o.polyline_points@)
    &&& !shows_points(part_id, o.polygons@, o.polygon_points@)
}

fn shows_any_points(part_id: i32, owners: &[i32], points: &[usize]) -> (r: bool)
    ensures
        r == shows_points(part_id as int, owners@, points@),
{
    let mut i: usize = 0;
    while i < owners.len()
        invariant
            i <= owners.len(),
            forall|k: int| 0 <= k < i && k < points.len() && shown(part_id as int, owners@[k] as int) ==> !(#[trigger] points@[k] > 0),
        decreases owners.len() - i,
    {
        if i < points.len() && part_shown(part_id, owners[i]) && points[i] > 0 {
            assert(points@[i as int] > 0);
            return true;
        }
        i += 1;
    }
    false
}

/// The count line a symbol rendering of part `part_id` carries.
pub open spec fn symbol_count_text(part_id: int, o: SymbolOwners) -> Seq<char> {
    labelled(seq![
        ("Pins", shown_among(part_id, o.pins@) as usize),
        ("Rectangles", shown_among(part_id, o.rectangles@) as usize),
        ("Lines", shown_among(part_id, o.lines@) as usize),
    ] + nonzero(seq![
        ("Polylines", shown_among(part_id, o.polylines@) as usize),
        ("Polygons", shown_among(part_id, o.polygons@) as usize),
        ("Arcs", shown_among(part_id, o.arcs@) as usize),
        ("Pies", shown_among(part_id, o.pies@) as usize),
        ("Ellipses", shown_among(part_id, o.ellipses@) as usize),
        ("Round rects", shown_among(part_id, o.round_rects@) as usize),
        ("Elliptical arcs", shown_among(part_id, o.elliptical_arcs@) as usize),
        ("Beziers", shown_among(part_id, o.beziers@) as usize),
        ("Images", shown_among(part_id, o.images@) as usize),
        ("Text frames", shown_among(part_id, o.text_frames@) as usize),
        ("Labels", shown_among(part_id, o.labels@) as usize),
        ("IEEE symbols", shown_among(part_id, o.ieee_symbols@) as usize),
    ]))
}

/// The owners of the primitives of kind `kind`, in the order the count line
/// lists the kinds: pins, rectangles, lines, polylines, polygons, arcs, pies,
/// ellipses, round rects, elliptical arcs, beziers, images, text frames,
/// labels, IEEE symbols.
pub open spec fn kind_owners(o: SymbolOwners, kind: int) -> Seq<i32> {
    if kind == 0 {
        o.pins@
    } else if kind == 1 {
        o.rectangles@
    } else if kind == 2 {
        o.lines@
    } else if kind == 3 {
        o.polylines@
    } else if kind == 4 {
        o.polygons@
    } else if kind == 5 {
        o.arcs@
    } else if kind == 6 {
        o.pies@
    } else if kind == 7 {
        o.ellipses@
    } else if kind == 8 {
        o.round_rects@
    } else if kind == 9 {
        o.elliptical_arcs@
    } else if kind == 10 {
        o.beziers@
    } else if kind == 11 {
        o.images@
    } else if kind == 12 {
        o.text_frames@
    } else if kind == 13 {
        o.labels@
    } else {
        o.ieee_symbols@
    }
}

/// The count line of part `part_id` counts only the primitives that part
/// shows: a symbol with one more primitive of some kind (pins among them),
/// owned by another part that is not part 0, has the same count line,
/// while one more primitive that the part shows adds one to the count of
/// its kind.
pub proof fn lemma_count_line_counts_shown_primitives(
    part_id: int,
    o: SymbolOwners,
    more: SymbolOwners,
    kind: int,
    owner: i32,
)
    requires
        0 <= kind < 15,
        kind_owners(more, kind) == kind_owners(o, kind).push(owner),
        forall|other: int| 0 <= other < 15 && other != kind ==> #[trigger] kind_owners(more, other)
            == kind_owners(o, other),
    ensures
        part_id != 0 && owner != part_id && owner != 0 ==> symbol_count_text(part_id, more)
            == symbol_count_text(part_id, o),
        !(part_id != 0 && owner != part_id && owner != 0) ==> shown_among(
            part_id,
            kind_owners(more, kind),
        ) == shown_among(part_id, kind_owners(o, kind)) + 1,
{
    assert(kind_owners(more, kind).drop_last() =~= kind_owners(o, kind));
    assert(shown_among(part_id, kind_owners(more, kind)) == shown_among(part_id, kind_owners(o, kind))
        + if shown(part_id, owner as int) { 1nat } else { 0nat });
    assert forall|k: int| 0 <= k < 15 implies shown_among(part_id, #[trigger] kind_owners(more, k))
        == shown_among(part_id, kind_owners(o, k)) + if k == kind && shown(part_id, owner as int) {
        1nat
    } else {
        0nat
    } by {
        if k != kind {
            assert(kind_owners(more, k) == kind_owners(o, k));
        }
    }
    assert(kind_owners(more, 0) == more.pins@ && kind_owners(o, 0) == o.pins@);
    assert(kind_owners(more, 1) == more.rectangles@ && kind_owners(o, 1) == o.rectangles@);
    assert(kind_owners(more, 2) == more.lines@ && kind_owners(o, 2) == o.lines@);
    assert(kind_owners(more, 3) == more.polylines@ && kind_owners(o, 3) == o.polylines@);
    assert(kind_owners(more, 4) == more.polygons@ && kind_owners(o, 4) == o.polygons@);
    assert(kind_owners(more, 5) == more.arcs@ && kind_owners(o, 5) == o.arcs@);
    assert(kind_owners(more, 6) == more.pies@ && kind_owners(o, 6) == o.pies@);
    assert(kind_owners(more, 7) == more.ellipses@ && kind_owners(o, 7) == o.ellipses@);
    assert(kind_owners(more, 8) == more.round_rects@ && kind_owners(o, 8) == o.round_rects@);
    assert(kind_owners(more, 9) == more.elliptical_arcs@ && kind_owners(o, 9) == o.elliptical_arcs@);
    assert(kind_owners(more, 10) == more.beziers@ && kind_owners(o, 10) == o.beziers@);
    assert(kind_owners(more, 11) == more.images@ && kind_owners(o, 11) == o.images@);
    assert(kind_owners(more, 12) == more.text_frames@ && kind_owners(o, 12) == o.text_frames@);
    assert(kind_owners(more, 13) == more.labels@ && kind_owners(o, 13) == o.labels@);
    assert(kind_owners(more, 14) == more.ieee_symbols@ && kind_owners(o, 14) == o.ieee_symbols@);
}

impl McpServer {
    /// Whether a symbol renders as "Empty symbol (no primitives)" in part
    /// `part_id`: it shows none of its primitives there.
    pub fn symbol_is_empty(part_id: i32, owners: &SymbolOwners) -> (r: bool)
        ensures
            r == symbol_empty(part_id as int, *owners),
    {
        shown_count(part_id, owners.pins.as_slice()) == 0
            && shown_count(part_id, owners.rectangles.as_slice()) == 0
            && shown_count(part_id, owners.lines.as_slice()) == 0
            && shown_count(part_id, owners.arcs.as_slice()) == 0
            && shown_count(part_id, owners.pies.as_slice()) == 0
            && shown_count(part_id, owners.ellipses.as_slice()) == 0
            && shown_count(part_id, owners.round_rects.as_slice()) == 0
            && shown_count(part_id, owners.elliptical_arcs.as_slice()) == 0
            && shown_count(part_id, owners.beziers.as_slice()) == 0
            && shown_count(part_id, owners.images.as_slice()) == 0
            && shown_count(part_id, owners.text_frames.as_slice()) == 0
            && shown_count(part_id, owners.labels.as_slice()) == 0
            && shown_count(part_id, owners.ieee_symbols.as_slice()) == 0
            && !shows_any_points(part_id, owners.polylines.as_slice(), owners.polyline_points.as_slice())
            && !shows_any_points(part_id, owners.polygons.as_slice(), owners.polygon_points.as_slice())
    }

    /// The count line of a symbol rendering of part `part_id`: pins,
    /// rectangles and lines always, then every other kind the part shows.
    pub fn symbol_count_line(part_id: i32, owners: &SymbolOwners) -> (line: String)
        ensures
            line@ == symbol_count_text(part_id as int, *owners),
    {
        let others = [
            ("Polylines", shown_count(part_id, owners.polylines.as_slice())),
            ("Polygons", shown_count(part_id, owners.polygons.as_slice())),
            ("Arcs", shown_count(part_id, owners.arcs.as_slice())),
            ("Pies", shown_count(part_id, owners.pies.as_slice())),
            ("Ellipses", shown_count(part_id, owners.ellipses.as_slice())),
            ("Round rects", shown_count(part_id, owners.round_rects.as_slice())),
            ("Elliptical arcs", shown_count(part_id, owners.elliptical_arcs.as_slice())),
            ("Beziers", shown_count(part_id, owners.beziers.as_slice())),
            ("Images", shown_count(part_id, owners.images.as_slice())),
            ("Text frames", shown_count(part_id, owners.text_frames.as_slice())),
            ("Labels", shown_count(part_id, owners.labels.as_slice())),
            ("IEEE symbols", shown_count(part_id, owners.ieee_symbols.as_slice())),
        ];
        let ghost expected = seq![
            ("Polylines", shown_among(part_id as int, owners.polylines@) as usize),
            ("Polygons", shown_among(part_id as int, owners.polygons@) as usize),
            ("Arcs", shown_among(part_id as int, owners.arcs@) as usize),
            ("Pies", shown_among(part_id as int, owners.pies@) as usize),
            ("Ellipses", shown_among(part_id as int, owners.ellipses@) as usize),
            ("Round rects", shown_among(part_id as int, owners.round_rects@) as usize),
            ("Elliptical arcs", shown_among(part_id as int, owners.elliptical_arcs@) as usize),
            ("Beziers", shown_among(part_id as int, owners.beziers@) as usize),
            ("Images", shown_among(part_id as int, owners.images@) as usize),
            ("Text frames", shown_among(part_id as int, owners.text_frames@) as usize),
            ("Labels", shown_among(part_id as int, owners.labels@) as usize),
            ("IEEE symbols", shown_among(part_id as int, owners.ieee_symbols@) as usize),
        ];
        assert(others@ =~= expected);
        symbol_counts(
            shown_count(part_id, owners.pins.as_slice()),
            shown_count(part_id, owners.rectangles.as_slice()),
            shown_count(part_id, owners.lines.as_slice()),
            &others,
        )
    }
}

} // verus!
