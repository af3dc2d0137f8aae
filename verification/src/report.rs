//! What the read and write tools report back: the page of a listing, the
//! pin geometry echo (tips and bounding box), the most common value of a
//! style statistic, the 3D-body source of a written footprint and whether a
//! footprint still needs its designator text.
use vstd::prelude::*;
use crate::McpServer;
use crate::records::{tip_of, Pin};
use crate::fields::opt_view;
use crate::text::{
    ascii_lowercase, ascii_lowercase_range, chars_eq, chars_of, decimal, push_str, trim,
    trim_bounds, u64_text,
};

verus! {

// ---------------------------------------------------------------- pages

/// The window a listing returns and whether more follow it.
#[derive(PartialEq, Eq, Structural, Clone, Copy, Debug)]
pub struct Page {
    /// Index of the first entry returned.
    pub start: usize,
    /// Index one past the last entry returned.
    pub end: usize,
    pub has_more: bool,
}

/// The page `offset`/`limit` select from `len` entries, of a library of
/// `total` components; a single-component fetch never has more.
pub open spec fn page_of(len: int, total: int, offset: int, limit: Option<usize>, single: bool) -> Page {
    let start: int = if offset < len {
        offset
    } else {
        len
    };
    let end: int = match limit {
        Some(l) => if start + l < len {
            start + l
        } else {
            len
        },
        None => len,
    };
    Page {
        start: start as usize,
        end: end as usize,
        has_more: !single && offset + (end - start) < total,
    }
}

/// The page a listing returns: entries are skipped up to `offset`, at most
/// `limit` are taken, and more follow when the offset plus the entries
/// returned fall short of the library's `total`.
pub fn page_window(len: usize, total: usize, offset: usize, limit: Option<usize>, single: bool) -> (r: Page)
    ensures
        r == page_of(len as int, total as int, offset as int, limit, single),
        r.start <= r.end <= len,
{
    let start = if offset < len {
        offset
    } else {
        len
    };
    let end = match limit {
        Some(l) => if l < len - start {
            start + l
        } else {
            len
        },
        None => len,
    };
    let returned = end - start;
    let has_more = if single {
        false
    } else if offset >= len {
        returned < total && offset < total - returned
    } else {
        offset + returned < total
    };
    Page { start, end, has_more }
}

/// Pages follow on: the page that starts where another one's limit ends
/// begins at that page's end, so paging through a listing skips nothing and
/// repeats nothing.
pub proof fn lemma_pages_follow_on(len: int, total: int, offset: int, limit: usize, single: bool)
    requires
        0 <= offset <= len,
        offset + limit <= usize::MAX,
        len <= usize::MAX,
    ensures
        page_of(len, total, offset + limit, Some(limit), single).start == page_of(
            len,
            total,
            offset,
            Some(limit),
            single,
        ).end,
{
}

/// No page is longer than its limit.
pub proof fn lemma_page_within_limit(len: int, total: int, offset: int, limit: usize, single: bool)
    requires
        0 <= len <= usize::MAX,
        0 <= offset,
    ensures
        page_of(len, total, offset, Some(limit), single).end - page_of(
            len,
            total,
            offset,
            Some(limit),
            single,
        ).start <= limit,
{
}

/// When the listing holds the whole library, more follow a page exactly when
/// the page stops short of the listing's end.
pub proof fn lemma_more_follow_until_the_end(len: int, offset: int, limit: Option<usize>)
    requires
        0 <= len <= usize::MAX,
        0 <= offset,
    ensures
        page_of(len, len, offset, limit, false).has_more == (page_of(len, len, offset, limit, false).end < len),
{
}

// ---------------------------------------------------------------- pin geometry

/// Whether every pin's tip lies in `i32` range.
pub open spec fn tips_fit(pins: Seq<Pin>) -> bool {
    forall|i: int|
        0 <= i < pins.len() ==> {
            &&& i32::MIN <= #[trigger] pins[i].x + pins[i].length <= i32::MAX
            &&& i32::MIN <= pins[i].x - pins[i].length <= i32::MAX
            &&& i32::MIN <= pins[i].y + pins[i].length <= i32::MAX
            &&& i32::MIN <= pins[i].y - pins[i].length <= i32::MAX
        }
}

/// The x (or, with `ys`, the y) coordinates a pin list spans: each pin's
/// body end followed by its tip.
pub open spec fn pin_coords(pins: Seq<Pin>, ys: bool) -> Seq<i32>
    decreases pins.len(),
{
    if pins.len() == 0 {
        Seq::empty()
    } else {
        let p = pins.last();
        let tip = tip_of(p.x as int, p.y as int, p.length as int, p.orientation);
        if ys {
            pin_coords(pins.drop_last(), ys).push(p.y).push(tip.1)
        } else {
            pin_coords(pins.drop_last(), ys).push(p.x).push(tip.0)
        }
    }
}

/// The coordinates the pins of a symbol span, for its bounding box: each
/// pin's body end and its connection tip, x and y separately.
pub fn pin_extent(pins: &[Pin]) -> (r: (Vec<i32>, Vec<i32>))
    requires
        tips_fit(pins@),
    ensures
        r.0@ == pin_coords(pins@, false),
        r.1@ == pin_coords(pins@, true),
{
    let mut xs: Vec<i32> = Vec::new();
    let mut ys: Vec<i32> = Vec::new();
    let mut i: usize = 0;
    while i < pins.len()
        invariant
            i <= pins.len(),
            tips_fit(pins@),
            xs@ == pin_coords(pins@.take(i as int), false),
            ys@ == pin_coords(pins@.take(i as int), true),
        decreases pins.len() - i,
    {
        assert(pins@.take((i + 1) as int).drop_last() =~= pins@.take(i as int));
        assert(pins@.take((i + 1) as int).last() == pins@[i as int]);
        let p = &pins[i];
        assert(i32::MIN <= pins@[i as int].x + pins@[i as int].length <= i32::MAX);
        let (tx, ty) = crate::records::pin_tip(p);
        xs.push(p.x);
        xs.push(tx);
        ys.push(p.y);
        ys.push(ty);
        i += 1;
    }
    assert(pins@.take(pins.len() as int) =~= pins@);
    (xs, ys)
}

/// The least and greatest of a non-empty list of coordinates.
pub open spec fn is_extent(values: Seq<i32>, lo: i32, hi: i32) -> bool {
    &&& values.contains(lo)
    &&& values.contains(hi)
    &&& forall|i: int| 0 <= i < values.len() ==> lo <= #[trigger] values[i] <= hi
}

fn extent(values: &[i32]) -> (r: (i32, i32))
    requires
        values.len() > 0,
    ensures
        is_extent(values@, r.0, r.1),
{
    let mut lo = values[0];
    let mut hi = values[0];
    let mut i: usize = 1;
    assert(values@.take(1)[0] == lo);
    while i < values.len()
        invariant
            1 <= i <= values.len(),
            values@.take(i as int).contains(lo),
            values@.take(i as int).contains(hi),
            forall|k: int| 0 <= k < i ==> lo <= #[trigger] values@[k] <= hi,
        decreases values.len() - i,
    {
        let v = values[i];
        if v < lo {
            lo = v;
        }
        if v > hi {
            hi = v;
        }
        assert(values@.take((i + 1) as int)[i as int] == v);
        assert forall|x: i32| values@.take(i as int).contains(x) implies values@.take(
            (i + 1) as int,
        ).contains(x) by {
            let k = choose|k: int| 0 <= k < i && values@.take(i as int)[k] == x;
            assert(values@.take((i + 1) as int)[k] == x);
        }
        i += 1;
    }
    assert(values@.take(values.len() as int) =~= values@);
    (lo, hi)
}

/// The bounding box `(min_x, max_x, min_y, max_y)` of the coordinates of a
/// symbol; `None` when it has none.
pub fn bounding_box(xs: &[i32], ys: &[i32]) -> (r: Option<(i32, i32, i32, i32)>)
    requires
        xs.len() == 0 <==> ys.len() == 0,
    ensures
        r is None <==> xs.len() == 0,
        r matches Some(b) ==> is_extent(xs@, b.0, b.1) && is_extent(ys@, b.2, b.3),
{
    if xs.len() == 0 {
        return None;
    }
    let (min_x, max_x) = extent(xs);
    let (min_y, max_y) = extent(ys);
    Some((min_x, max_x, min_y, max_y))
}

// ---------------------------------------------------------------- statistics

/// The number of times `v` occurs in `values`.
pub open spec fn occurrences(values: Seq<i64>, v: i64) -> nat
    decreases values.len(),
{
    if values.len() == 0 {
        0
    } else {
        occurrences(values.drop_last(), v) + (if values.last() == v {
            1nat
        } else {
            0nat
        })
    }
}

fn count_of(values: &[i64], v: i64) -> (r: usize)
    ensures
        r == occurrences(values@, v),
{
    let mut n: usize = 0;
    let mut i: usize = 0;
    while i < values.len()
        invariant
            i <= values.len(),
            n == occurrences(values@.take(i as int), v),
            n <= i,
        decreases values.len() - i,
    {
        assert(values@.take((i + 1) as int).drop_last() =~= values@.take(i as int));
        if values[i] == v {
            n += 1;
        }
        i += 1;
    }
    assert(values@.take(values.len() as int) =~= values@);
    n
}

impl McpServer {
    /// The most common value of `values`: one that occurs at least as often as
    /// any other (which of several equally common ones is not fixed), and `0`
    /// (the default) for an empty list.
    pub fn most_common(values: &[i64]) -> (r: i64)
        ensures
            values.len() == 0 ==> r == 0,
            values.len() > 0 ==> values@.contains(r),
            forall|i: int| 0 <= i < values.len() ==> occurrences(values@, #[trigger] values@[i]) <= occurrences(values@, r),
    {
        if values.len() == 0 {
            return 0;
        }
        let mut best = values[0];
        let mut best_count = count_of(values, best);
        let mut i: usize = 1;
        while i < values.len()
            invariant
                1 <= i <= values.len(),
                values@.contains(best),
                best_count == occurrences(values@, best),
                forall|k: int| 0 <= k < i ==> occurrences(values@, #[trigger] values@[k]) <= best_count,
            decreases values.len() - i,
        {
            let c = count_of(values, values[i]);
            if c > best_count {
                best = values[i];
                best_count = c;
            }
            i += 1;
        }
        best
    }
}

// ---------------------------------------------------------------- 3D bodies

/// Where a written footprint's 3D body comes from, with the index of the
/// component body it was read from.
#[derive(PartialEq, Eq, Structural, Clone, Copy, Debug)]
pub enum BodySource {
    /// An embedded STEP model.
    StepEmbedded,
    /// A body naming an external STEP file.
    StepExternal(usize),
    /// An extruded body given by the caller.
    Extruded(usize),
    /// An extruded body the tool created with an assumed height.
    AutoExtruded(usize),
    /// No 3D body at all.
    NoBody,
}

/// The first index whose model name is (or, with `empty`, is not) non-empty.
pub open spec fn first_named(names: Seq<Seq<char>>, empty: bool) -> Option<int>
    decreases names.len(),
{
    if names.len() == 0 {
        None
    } else if first_named(names.drop_last(), empty) is Some {
        first_named(names.drop_last(), empty)
    } else if (names.last().len() == 0) == empty {
        Some(names.len() - 1)
    } else {
        None
    }
}

/// Where a footprint's body comes from: an embedded model first, then the
/// first body naming an external model, then the first extruded body
/// (auto-created when `assumed_height`), else none.
pub open spec fn body_source_of(has_model_3d: bool, names: Seq<Seq<char>>, assumed_height: bool) -> BodySource {
    if has_model_3d {
        BodySource::StepEmbedded
    } else if first_named(names, false) is Some {
        BodySource::StepExternal(first_named(names, false)->0 as usize)
    } else if first_named(names, true) is Some {
        if assumed_height {
            BodySource::AutoExtruded(first_named(names, true)->0 as usize)
        } else {
            BodySource::Extruded(first_named(names, true)->0 as usize)
        }
    } else {
        BodySource::NoBody
    }
}

fn first_with_name(names: &[String], empty: bool) -> (r: Option<usize>)
    ensures
        r matches Some(i) ==> first_named(crate::query::names_view(names@), empty) == Some(i as int),
        r is None ==> first_named(crate::query::names_view(names@), empty) is None,
{
    let mut i: usize = 0;
    while i < names.len()
        invariant
            i <= names.len(),
            first_named(crate::query::names_view(names@).take(i as int), empty) is None,
        decreases names.len() - i,
    {
        let ghost v = crate::query::names_view(names@);
        assert(v.take((i + 1) as int).drop_last() =~= v.take(i as int));
        let n = chars_of(names[i].as_str());
        if (n.len() == 0) == empty {
            proof {
                lemma_first_named_prefix(v, empty, i as int);
            }
            return Some(i);
        }
        i += 1;
    }
    assert(crate::query::names_view(names@).take(names.len() as int) =~= crate::query::names_view(
        names@,
    ));
    None
}

proof fn lemma_first_named_prefix(names: Seq<Seq<char>>, empty: bool, i: int)
    requires
        0 <= i < names.len(),
        first_named(names.take(i), empty) is None,
        (names[i].len() == 0) == empty,
    ensures
        first_named(names, empty) == Some(i),
    decreases names.len() - i,
{
    assert(names.take(i + 1).drop_last() =~= names.take(i));
    if i + 1 < names.len() {
        lemma_first_named_extend(names, empty, i + 1);
    } else {
        assert(names.take(i + 1) =~= names);
    }
}

proof fn lemma_first_named_extend(names: Seq<Seq<char>>, empty: bool, j: int)
    requires
        0 < j <= names.len(),
        first_named(names.take(j), empty) is Some,
    ensures
        first_named(names, empty) == first_named(names.take(j), empty),
    decreases names.len() - j,
{
    if j < names.len() {
        assert(names.take(j + 1).drop_last() =~= names.take(j));
        lemma_first_named_extend(names, empty, j + 1);
    } else {
        assert(names.take(j) =~= names);
    }
}

/// Where a written footprint's 3D body comes from, for the body echo of
/// the write response. `body_model_names` are the model names of its
/// component bodies in order.
pub fn body_source(has_model_3d: bool, body_model_names: &[String], assumed_height: bool) -> (r: BodySource)
    ensures
        r == body_source_of(has_model_3d, crate::query::names_view(body_model_names@), assumed_height),
{
    if has_model_3d {
        return BodySource::StepEmbedded;
    }
    match first_with_name(body_model_names, false) {
        Some(i) => return BodySource::StepExternal(i),
        None => {},
    }
    match first_with_name(body_model_names, true) {
        Some(i) => if assumed_height {
            BodySource::AutoExtruded(i)
        } else {
            BodySource::Extruded(i)
        },
        None => BodySource::NoBody,
    }
}

// ---------------------------------------------------------------- write warnings

/// The side a track's silkscreen is on, as the silk-over-pad check sees it.
#[derive(PartialEq, Eq, Structural, Clone, Copy, Debug)]
pub enum SilkSide {
    Top,
    Bottom,
    /// Not an overlay: never checked.
    Elsewhere,
}

/// The copper a pad sits on, as the silk-over-pad check sees it.
#[derive(PartialEq, Eq, Structural, Clone, Copy, Debug)]
pub enum PadCopper {
    Top,
    Bottom,
    /// Both sides (a through-hole pad).
    Multi,
    Elsewhere,
}

/// Whether silkscreen on `silk` can be printed over a pad on `copper`: only
/// on the same side of the board.
pub open spec fn silk_meets(silk: SilkSide, copper: PadCopper) -> bool {
    ||| silk == SilkSide::Top && (copper == PadCopper::Top || copper == PadCopper::Multi)
    ||| silk == SilkSide::Bottom && (copper == PadCopper::Bottom || copper == PadCopper::Multi)
}

/// Whether a track on `silk` is checked against a pad on `copper` for
/// silkscreen over the pad: top overlay against top and through-hole pads,
/// bottom overlay against bottom and through-hole pads, nothing else.
pub fn silk_faces_pad(silk: SilkSide, copper: PadCopper) -> (r: bool)
    ensures
        r == silk_meets(silk, copper),
{
    match silk {
        SilkSide::Top => copper == PadCopper::Top || copper == PadCopper::Multi,
        SilkSide::Bottom => copper == PadCopper::Bottom || copper == PadCopper::Multi,
        SilkSide::Elsewhere => false,
    }
}

/// The overlay on the other side of the board.
pub open spec fn flip_silk(silk: SilkSide) -> SilkSide {
    match silk {
        SilkSide::Top => SilkSide::Bottom,
        SilkSide::Bottom => SilkSide::Top,
        SilkSide::Elsewhere => SilkSide::Elsewhere,
    }
}

/// The copper on the other side of the board; a through-hole pad is on both.
pub open spec fn flip_copper(copper: PadCopper) -> PadCopper {
    match copper {
        PadCopper::Top => PadCopper::Bottom,
        PadCopper::Bottom => PadCopper::Top,
        PadCopper::Multi => PadCopper::Multi,
        PadCopper::Elsewhere => PadCopper::Elsewhere,
    }
}

/// The copper on the same side of the board as an overlay.
pub open spec fn copper_beside(silk: SilkSide) -> PadCopper {
    match silk {
        SilkSide::Top => PadCopper::Top,
        SilkSide::Bottom => PadCopper::Bottom,
        SilkSide::Elsewhere => PadCopper::Elsewhere,
    }
}

/// Silkscreen on either side of the board is checked against every pad on
/// that side and every through-hole pad, never against a pad on the other
/// side; and turning the board over gives the same answer.
pub proof fn lemma_silk_faces_its_own_side(silk: SilkSide, copper: PadCopper)
    ensures
        silk_meets(silk, copper) == silk_meets(flip_silk(silk), flip_copper(copper)),
        silk != SilkSide::Elsewhere ==> silk_meets(silk, copper_beside(silk)),
        silk != SilkSide::Elsewhere ==> silk_meets(silk, PadCopper::Multi),
        silk != SilkSide::Elsewhere ==> !silk_meets(silk, flip_copper(copper_beside(silk))),
        silk_meets(silk, copper) ==> silk != SilkSide::Elsewhere && copper != PadCopper::Elsewhere,
{
}

/// How many of `total` overlapping pad pairs are reported one by one, and
/// the closing line carrying the true total when the list is cut short.
pub open spec fn overlap_report(total: nat, cap: nat) -> (nat, Option<Seq<char>>) {
    if total > cap {
        (cap, Some(decimal(total) + " overlapping pad pairs total; "@ + decimal(cap) + " shown"@))
    } else {
        (total, None)
    }
}

/// How many of `total` overlapping pad pairs a write lists, at most
/// `cap`, and the summary line that carries the true total when the list
/// is cut short, so a systematic error on a large array cannot bury the
/// response.
pub fn overlap_report_lines(total: usize, cap: usize) -> (r: (usize, Option<String>))
    ensures
        r.0 == overlap_report(total as nat, cap as nat).0,
        opt_view(r.1) == overlap_report(total as nat, cap as nat).1,
{
    if total > cap {
        let mut line = u64_text(total as u64);
        push_str(&mut line, " overlapping pad pairs total; ");
        let shown = u64_text(cap as u64);
        push_str(&mut line, shown.as_str());
        push_str(&mut line, " shown");
        (cap, Some(line))
    } else {
        (total, None)
    }
}

// ---------------------------------------------------------------- designator text

/// Whether a text is the `.Designator` special string: trimmed, it reads
/// `.designator` in any ASCII case.
pub open spec fn is_designator_text(text: Seq<char>) -> bool {
    ascii_lowercase(trim(text)) == ascii_lowercase(".designator"@)
}

/// Whether a footprint being written still needs its `.Designator` text:
/// the caller left automatic designators on, the footprint is not an echo
/// of a read (which carries its own texts) and none of its texts is one.
pub fn needs_designator_text(auto_designator: bool, is_read_echo: bool, texts: &[String]) -> (r: bool)
    ensures
        r == (auto_designator && !is_read_echo && !(exists|i: int|
            0 <= i < texts.len() && is_designator_text(#[trigger] texts@[i]@))),
{
    if !auto_designator || is_read_echo {
        return false;
    }
    let target_chars = chars_of(".designator");
    let target = ascii_lowercase_range(target_chars.as_slice(), 0, target_chars.len());
    assert(target_chars@.subrange(0, target_chars@.len() as int) =~= target_chars@);
    let mut i: usize = 0;
    while i < texts.len()
        invariant
            i <= texts.len(),
            target@ == ascii_lowercase(".designator"@),
            forall|k: int| 0 <= k < i ==> !is_designator_text(#[trigger] texts@[k]@),
        decreases texts.len() - i,
    {
        let v = chars_of(texts[i].as_str());
        let (a, b) = trim_bounds(v.as_slice());
        let key = ascii_lowercase_range(v.as_slice(), a, b);
        if chars_eq(key.as_slice(), target.as_slice()) {
            return false;
        }
        i += 1;
    }
    true
}

} // verus!
