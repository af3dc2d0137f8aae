//! A whole symbol object of a write or update request: the guard against
//! unknown keys on the symbol and on each of its records, and every record
//! list read in turn, so that a record its reader cannot build refuses the
//! whole symbol, named by kind and index, rather than being left out of the
//! file.
use vstd::prelude::*;
use crate::McpServer;
use crate::json::{Json, JsonNode};
use crate::records::{
    parse_footprint_link, parse_symbol_header, unknown_field_error, ErrorContext, FootprintLink,
    Pin, SymbolHeader,
};
use crate::shapes::{
    Arc, Bezier, Ellipse, EllipticalArc, IeeeSymbol, Image, Label, Line, Parameter, Pie, Polygon,
    Polyline, Rectangle, TextFrame,
};

verus! {

/// Why a symbol or footprint object was refused.
#[derive(Debug)]
pub enum Refusal {
    /// An object carries a key its kind does not accept: the guard's message.
    UnknownField(String),
    /// A record its reader could not build, reported as malformed.
    Malformed(ErrorContext),
    /// A record its reader could not build, reported with the reader's own
    /// reason as the message.
    Failed(ErrorContext),
    /// A fault of the object itself rather than of one of its records.
    Plain(String),
}

/// The records of the list under `key`: its items when it is an array,
/// none otherwise.
pub open spec fn list_at(json: Json, key: Seq<char>) -> Seq<Json> {
    match json.spec_get(key) {
        Some(v) => match v.node {
            JsonNode::Array(items) => items@,
            _ => Seq::empty(),
        },
        None => Seq::empty(),
    }
}

/// The error [`McpServer::malformed`] builds for the record of `kind` at
/// `index` of `component`.
pub open spec fn is_malformed(
    m: ErrorContext,
    operation: Seq<char>,
    filepath: Seq<char>,
    component: Seq<char>,
    kind: Seq<char>,
    index: int,
    reason: Seq<char>,
) -> bool {
    &&& m.operation@ == operation
    &&& m.message@ == "Malformed "@ + kind + ": "@ + reason
    &&& m.filepath matches Some(f) && f@ == filepath
    &&& m.component matches Some(c) && c@ == component
    &&& m.details matches Some(d) && d@ == "Failed to parse "@ + kind + " at index "@
        + crate::text::decimal(index as nat)
}

/// The reason a reader that gives no value is reported with.
pub open spec fn missing_or_invalid() -> Seq<char> {
    "a required field is missing or invalid"@
}

/// Where a record list's names come from: the request being served, the
/// file it names and the component the records belong to.
pub struct Origin<'a> {
    pub operation: &'a str,
    pub filepath: &'a str,
    pub component: &'a str,
}

/// A record that `read` can build: its keys are allowed and the reader
/// gives a value for it.
pub open spec fn readable<T, F: Fn(&Json) -> Option<T>>(read: F, item: Json, allowed: Seq<&str>) -> bool {
    &&& unknown_field_error(item, allowed) is None
    &&& exists|v: T| call_ensures(read, (&item,), Some(v))
}

/// The refusal of a record that is not readable.
pub open spec fn refuses<T, F: Fn(&Json) -> Option<T>>(
    read: F,
    item: Json,
    allowed: Seq<&str>,
    operation: Seq<char>,
    filepath: Seq<char>,
    component: Seq<char>,
    kind: Seq<char>,
    index: int,
    e: Refusal,
) -> bool {
    match e {
        Refusal::UnknownField(msg) => unknown_field_error(item, allowed) == Some(msg@),
        Refusal::Malformed(m) => {
            &&& unknown_field_error(item, allowed) is None
            &&& call_ensures(read, (&item,), None)
            &&& is_malformed(m, operation, filepath, component, kind, index, missing_or_invalid())
        },
        _ => false,
    }
}

/// What reading every record of `items` with `read` refuses with: the
/// refusal of the first record that is not readable, every one before it
/// being readable.
pub open spec fn list_refuses<T, F: Fn(&Json) -> Option<T>>(
    read: F,
    items: Seq<Json>,
    allowed: Seq<&str>,
    operation: Seq<char>,
    filepath: Seq<char>,
    component: Seq<char>,
    kind: Seq<char>,
    e: Refusal,
) -> bool {
    exists|i: int|
        #![trigger items[i]]
        0 <= i < items.len() && (forall|j: int| 0 <= j < i ==> readable(read, #[trigger] items[j], allowed))
            && refuses(read, items[i], allowed, operation, filepath, component, kind, i, e)
}

/// Reads every record of `items` with `read`, each first held to the
/// `allowed` keys; the first record that fails refuses the list.
pub fn read_records<T, F: Fn(&Json) -> Option<T>>(
    items: &[Json],
    allowed: &[&str],
    read: F,
    origin: &Origin,
    kind: &str,
) -> (r: Result<Vec<T>, Refusal>)
    requires
        forall|j: &Json| call_requires(read, (j,)),
    ensures
        r matches Ok(v) ==> v.len() == items.len() && forall|i: int|
            0 <= i < items.len() ==> unknown_field_error(#[trigger] items@[i], allowed@) is None
                && call_ensures(read, (&items@[i],), Some(v@[i])),
        r matches Err(e) ==> list_refuses(read, items@, allowed@, origin.operation@, origin.filepath@, origin.component@, kind@, e),
{
    let mut out: Vec<T> = Vec::new();
    let mut i: usize = 0;
    while i < items.len()
        invariant
            i <= items.len(),
            out.len() == i,
            forall|j: &Json| call_requires(read, (j,)),
            forall|k: int|
                0 <= k < i ==> unknown_field_error(#[trigger] items@[k], allowed@) is None
                    && call_ensures(read, (&items@[k],), Some(out@[k])),
        decreases items.len() - i,
    {
        let item = &items[i];
        match McpServer::check_unknown_fields(item, allowed) {
            Err(msg) => {
                let e = Refusal::UnknownField(msg);
                proof {
                    assert forall|j: int| 0 <= j < i implies readable(read, #[trigger] items@[j], allowed@) by {
                        assert(call_ensures(read, (&items@[j],), Some(out@[j])));
                    }
                    assert(refuses(read, items@[i as int], allowed@, origin.operation@, origin.filepath@, origin.component@, kind@, i as int, e));
                }
                return Err(e);
            },
            Ok(()) => {},
        }
        match read(item) {
            Some(v) => {
                out.push(v);
            },
            None => {
                let m = McpServer::malformed(
                    origin.operation,
                    origin.filepath,
                    origin.component,
                    kind,
                    i,
                    "a required field is missing or invalid",
                );
                let e = Refusal::Malformed(m);
                proof {
                    assert forall|j: int| 0 <= j < i implies readable(read, #[trigger] items@[j], allowed@) by {
                        assert(call_ensures(read, (&items@[j],), Some(out@[j])));
                    }
                    assert(refuses(read, items@[i as int], allowed@, origin.operation@, origin.filepath@, origin.component@, kind@, i as int, e));
                }
                return Err(e);
            },
        }
        i += 1;
    }
    Ok(out)
}


/// A record that `read`, a reader that explains a refusal, can build.
pub open spec fn readable_explained<T, F: Fn(&Json) -> Result<T, String>>(read: F, item: Json, allowed: Seq<&str>) -> bool {
    &&& unknown_field_error(item, allowed) is None
    &&& exists|v: T| call_ensures(read, (&item,), Ok(v))
}

/// The refusal of a record that a reader explaining its refusals cannot
/// build: the reader's own reason stands in the error.
pub open spec fn refuses_explained<T, F: Fn(&Json) -> Result<T, String>>(
    read: F,
    item: Json,
    allowed: Seq<&str>,
    operation: Seq<char>,
    filepath: Seq<char>,
    component: Seq<char>,
    kind: Seq<char>,
    index: int,
    e: Refusal,
) -> bool {
    match e {
        Refusal::UnknownField(msg) => unknown_field_error(item, allowed) == Some(msg@),
        Refusal::Malformed(m) => {
            &&& unknown_field_error(item, allowed) is None
            &&& exists|reason: String|
                call_ensures(read, (&item,), Err(reason)) && is_malformed(
                    m,
                    operation,
                    filepath,
                    component,
                    kind,
                    index,
                    reason@,
                )
        },
        _ => false,
    }
}

/// What reading every record of `items` with a reader explaining its
/// refusals refuses with: the refusal of the first record it cannot build.
pub open spec fn list_refuses_explained<T, F: Fn(&Json) -> Result<T, String>>(
    read: F,
    items: Seq<Json>,
    allowed: Seq<&str>,
    operation: Seq<char>,
    filepath: Seq<char>,
    component: Seq<char>,
    kind: Seq<char>,
    e: Refusal,
) -> bool {
    exists|i: int|
        #![trigger items[i]]
        0 <= i < items.len() && (forall|j: int|
            0 <= j < i ==> readable_explained(read, #[trigger] items[j], allowed))
            && refuses_explained(read, items[i], allowed, operation, filepath, component, kind, i, e)
}

/// Reads every record of `items` with `read`, a reader that explains why it
/// cannot build a record; otherwise as [`read_records`].
pub fn read_explained_records<T, F: Fn(&Json) -> Result<T, String>>(
    items: &[Json],
    allowed: &[&str],
    read: F,
    origin: &Origin,
    kind: &str,
) -> (r: Result<Vec<T>, Refusal>)
    requires
        forall|j: &Json| call_requires(read, (j,)),
    ensures
        r matches Ok(v) ==> v.len() == items.len() && forall|i: int|
            0 <= i < items.len() ==> unknown_field_error(#[trigger] items@[i], allowed@) is None
                && call_ensures(read, (&items@[i],), Ok(v@[i])),
        r matches Err(e) ==> list_refuses_explained(read, items@, allowed@, origin.operation@, origin.filepath@, origin.component@, kind@, e),
{
    let mut out: Vec<T> = Vec::new();
    let mut i: usize = 0;
    while i < items.len()
        invariant
            i <= items.len(),
            out.len() == i,
            forall|j: &Json| call_requires(read, (j,)),
            forall|k: int|
                0 <= k < i ==> unknown_field_error(#[trigger] items@[k], allowed@) is None
                    && call_ensures(read, (&items@[k],), Ok(out@[k])),
        decreases items.len() - i,
    {
        let item = &items[i];
        match McpServer::check_unknown_fields(item, allowed) {
            Err(msg) => {
                let e = Refusal::UnknownField(msg);
                proof {
                    assert forall|j: int| 0 <= j < i implies readable_explained(read, #[trigger] items@[j], allowed@) by {
                        assert(call_ensures(read, (&items@[j],), Ok(out@[j])));
                    }
                    assert(refuses_explained(read, items@[i as int], allowed@, origin.operation@, origin.filepath@, origin.component@, kind@, i as int, e));
                }
                return Err(e);
            },
            Ok(()) => {},
        }
        match read(item) {
            Ok(v) => {
                out.push(v);
            },
            Err(reason) => {
                let m = McpServer::malformed(
                    origin.operation,
                    origin.filepath,
                    origin.component,
                    kind,
                    i,
                    reason.as_str(),
                );
                assert(is_malformed(m, origin.operation@, origin.filepath@, origin.component@, kind@, i as int, reason@));
                let e = Refusal::Malformed(m);
                proof {
                    assert forall|j: int| 0 <= j < i implies readable_explained(read, #[trigger] items@[j], allowed@) by {
                        assert(call_ensures(read, (&items@[j],), Ok(out@[j])));
                    }
                    assert(call_ensures(read, (&items@[i as int],), Err(reason)));
                    assert(refuses_explained(read, items@[i as int], allowed@, origin.operation@, origin.filepath@, origin.component@, kind@, i as int, e));
                }
                return Err(e);
            },
        }
        i += 1;
    }
    Ok(out)
}

/// The count of coordinate pairs the caller read for record `i`: none when
/// it gave fewer counts than there are records.
pub open spec fn pairs_of(counts: Seq<usize>, i: int) -> usize {
    if 0 <= i < counts.len() {
        counts[i]
    } else {
        0
    }
}

/// A record of points that `read` can build from it and its count of
/// coordinate pairs.
pub open spec fn readable_points<T, F: Fn(&Json, usize) -> Option<T>>(
    read: F,
    item: Json,
    pairs: usize,
    allowed: Seq<&str>,
) -> bool {
    &&& unknown_field_error(item, allowed) is None
    &&& exists|v: T| call_ensures(read, (&item, pairs), Some(v))
}

/// What reading every record of points of `items` refuses with: the
/// refusal of the first record that cannot be built.
pub open spec fn list_refuses_points<T, F: Fn(&Json, usize) -> Option<T>>(
    read: F,
    items: Seq<Json>,
    pairs: Seq<usize>,
    allowed: Seq<&str>,
    operation: Seq<char>,
    filepath: Seq<char>,
    component: Seq<char>,
    kind: Seq<char>,
    e: Refusal,
) -> bool {
    exists|i: int|
        #![trigger items[i]]
        0 <= i < items.len() && (forall|j: int|
            0 <= j < i ==> readable_points(read, #[trigger] items[j], pairs_of(pairs, j), allowed))
            && match e {
            Refusal::UnknownField(msg) => unknown_field_error(items[i], allowed) == Some(msg@),
            Refusal::Malformed(m) => {
                &&& unknown_field_error(items[i], allowed) is None
                &&& call_ensures(read, (&items[i], pairs_of(pairs, i)), None)
                &&& is_malformed(m, operation, filepath, component, kind, i, missing_or_invalid())
            },
            _ => false,
        }
}

/// Reads every record of points of `items` with `read`, given for each the
/// count of its coordinate pairs that the caller read (`pairs`, by index);
/// otherwise as [`read_records`].
pub fn read_point_records<T, F: Fn(&Json, usize) -> Option<T>>(
    items: &[Json],
    pairs: &[usize],
    allowed: &[&str],
    read: F,
    origin: &Origin,
    kind: &str,
) -> (r: Result<Vec<T>, Refusal>)
    requires
        forall|j: &Json, n: usize| call_requires(read, (j, n)),
    ensures
        r matches Ok(v) ==> v.len() == items.len() && forall|i: int|
            0 <= i < items.len() ==> unknown_field_error(#[trigger] items@[i], allowed@) is None
                && call_ensures(read, (&items@[i], pairs_of(pairs@, i)), Some(v@[i])),
        r matches Err(e) ==> list_refuses_points(read, items@, pairs@, allowed@, origin.operation@, origin.filepath@, origin.component@, kind@, e),
{
    let mut out: Vec<T> = Vec::new();
    let mut i: usize = 0;
    while i < items.len()
        invariant
            i <= items.len(),
            out.len() == i,
            forall|j: &Json, n: usize| call_requires(read, (j, n)),
            forall|k: int|
                0 <= k < i ==> unknown_field_error(#[trigger] items@[k], allowed@) is None
                    && call_ensures(read, (&items@[k], pairs_of(pairs@, k)), Some(out@[k])),
        decreases items.len() - i,
    {
        let item = &items[i];
        let count: usize = if i < pairs.len() {
            pairs[i]
        } else {
            0
        };
        assert(count == pairs_of(pairs@, i as int));
        match McpServer::check_unknown_fields(item, allowed) {
            Err(msg) => {
                let e = Refusal::UnknownField(msg);
                proof {
                    assert forall|j: int| 0 <= j < i implies readable_points(read, #[trigger] items@[j], pairs_of(pairs@, j), allowed@) by {
                        assert(call_ensures(read, (&items@[j], pairs_of(pairs@, j)), Some(out@[j])));
                    }
                }
                return Err(e);
            },
            Ok(()) => {},
        }
        match read(item, count) {
            Some(v) => {
                out.push(v);
            },
            None => {
                let m = McpServer::malformed(
                    origin.operation,
                    origin.filepath,
                    origin.component,
                    kind,
                    i,
                    "a required field is missing or invalid",
                );
                let e = Refusal::Malformed(m);
                proof {
                    assert forall|j: int| 0 <= j < i implies readable_points(read, #[trigger] items@[j], pairs_of(pairs@, j), allowed@) by {
                        assert(call_ensures(read, (&items@[j], pairs_of(pairs@, j)), Some(out@[j])));
                    }
                }
                return Err(e);
            },
        }
        i += 1;
    }
    Ok(out)
}


// ---------------------------------------------------------------- whole lists

/// Every record of `items` is readable.
pub open spec fn all_readable<T, F: Fn(&Json) -> Option<T>>(read: F, items: Seq<Json>, allowed: Seq<&str>) -> bool {
    forall|i: int| 0 <= i < items.len() ==> readable(read, #[trigger] items[i], allowed)
}

/// Every record of `items` is readable by a reader explaining its refusals.
pub open spec fn all_readable_explained<T, F: Fn(&Json) -> Result<T, String>>(
    read: F,
    items: Seq<Json>,
    allowed: Seq<&str>,
) -> bool {
    forall|i: int| 0 <= i < items.len() ==> readable_explained(read, #[trigger] items[i], allowed)
}

/// Every record of points of `items` is readable with its count of pairs.
pub open spec fn all_readable_points<T, F: Fn(&Json, usize) -> Option<T>>(
    read: F,
    items: Seq<Json>,
    pairs: Seq<usize>,
    allowed: Seq<&str>,
) -> bool {
    forall|i: int| 0 <= i < items.len() ==> readable_points(read, #[trigger] items[i], pairs_of(pairs, i), allowed)
}

/// `values` are what `read` gives for the records of `items`, one for one.
pub open spec fn read_as<T, F: Fn(&Json) -> Option<T>>(read: F, items: Seq<Json>, values: Seq<T>) -> bool {
    &&& values.len() == items.len()
    &&& forall|i: int| 0 <= i < items.len() ==> call_ensures(read, (&items[i],), Some(#[trigger] values[i]))
}

/// `values` are what a reader explaining its refusals gives for the
/// records of `items`, one for one.
pub open spec fn read_as_explained<T, F: Fn(&Json) -> Result<T, String>>(read: F, items: Seq<Json>, values: Seq<T>) -> bool {
    &&& values.len() == items.len()
    &&& forall|i: int| 0 <= i < items.len() ==> call_ensures(read, (&items[i],), Ok(#[trigger] values[i]))
}

/// `values` are what `read` gives for the records of points of `items`
/// and their counts of pairs, one for one.
pub open spec fn read_as_points<T, F: Fn(&Json, usize) -> Option<T>>(
    read: F,
    items: Seq<Json>,
    pairs: Seq<usize>,
    values: Seq<T>,
) -> bool {
    &&& values.len() == items.len()
    &&& forall|i: int| 0 <= i < items.len() ==> call_ensures(read, (&items[i], pairs_of(pairs, i)), Some(#[trigger] values[i]))
}

proof fn lemma_all_readable<T, F: Fn(&Json) -> Option<T>>(read: F, items: Seq<Json>, allowed: Seq<&str>, values: Seq<T>)
    requires
        values.len() == items.len(),
        forall|i: int| 0 <= i < items.len() ==> unknown_field_error(#[trigger] items[i], allowed) is None
            && call_ensures(read, (&items[i],), Some(values[i])),
    ensures
        all_readable(read, items, allowed),
        read_as(read, items, values),
{
    assert forall|i: int| 0 <= i < items.len() implies readable(read, #[trigger] items[i], allowed) by {
        assert(call_ensures(read, (&items[i],), Some(values[i])));
    }
}

proof fn lemma_all_readable_explained<T, F: Fn(&Json) -> Result<T, String>>(
    read: F,
    items: Seq<Json>,
    allowed: Seq<&str>,
    values: Seq<T>,
)
    requires
        values.len() == items.len(),
        forall|i: int| 0 <= i < items.len() ==> unknown_field_error(#[trigger] items[i], allowed) is None
            && call_ensures(read, (&items[i],), Ok(values[i])),
    ensures
        all_readable_explained(read, items, allowed),
        read_as_explained(read, items, values),
{
    assert forall|i: int| 0 <= i < items.len() implies readable_explained(read, #[trigger] items[i], allowed) by {
        assert(call_ensures(read, (&items[i],), Ok(values[i])));
    }
}

proof fn lemma_all_readable_points<T, F: Fn(&Json, usize) -> Option<T>>(
    read: F,
    items: Seq<Json>,
    pairs: Seq<usize>,
    allowed: Seq<&str>,
    values: Seq<T>,
)
    requires
        values.len() == items.len(),
        forall|i: int| 0 <= i < items.len() ==> unknown_field_error(#[trigger] items[i], allowed) is None
            && call_ensures(read, (&items[i], pairs_of(pairs, i)), Some(values[i])),
    ensures
        all_readable_points(read, items, pairs, allowed),
        read_as_points(read, items, pairs, values),
{
    assert forall|i: int| 0 <= i < items.len() implies readable_points(read, #[trigger] items[i], pairs_of(pairs, i), allowed) by {
        assert(call_ensures(read, (&items[i], pairs_of(pairs, i)), Some(values[i])));
    }
}

/// The records under `key`: the items when it is an array, none otherwise.
pub fn records_under<'a>(json: &'a Json, key: &str) -> (r: &'a [Json])
    ensures
        r@ == list_at(*json, key@),
{
    match json.get(key) {
        Some(v) => match &v.node {
            JsonNode::Array(items) => items.as_slice(),
            _ => &[],
        },
        None => &[],
    }
}


// ---------------------------------------------------------------- symbols

/// The keys each object of a symbol may carry: the symbol itself, and each
/// kind of record it holds.
pub struct SymbolKeys<'a> {
    pub symbol: &'a [&'a str],
    pub pin: &'a [&'a str],
    pub rectangle: &'a [&'a str],
    pub round_rect: &'a [&'a str],
    pub line: &'a [&'a str],
    pub polyline: &'a [&'a str],
    pub polygon: &'a [&'a str],
    pub arc: &'a [&'a str],
    pub pie: &'a [&'a str],
    pub image: &'a [&'a str],
    pub text_frame: &'a [&'a str],
    pub bezier: &'a [&'a str],
    pub elliptical_arc: &'a [&'a str],
    pub ellipse: &'a [&'a str],
    pub label: &'a [&'a str],
    pub ieee_symbol: &'a [&'a str],
    pub parameter: &'a [&'a str],
    pub footprint: &'a [&'a str],
}

/// A symbol object read whole: its header and each of its record lists,
/// in the order the request gives them.
pub struct SymbolParts {
    pub header: SymbolHeader,
    pub pins: Vec<Pin>,
    pub rectangles: Vec<Rectangle>,
    pub round_rects: Vec<Rectangle>,
    pub lines: Vec<Line>,
    pub polylines: Vec<Polyline>,
    pub polygons: Vec<Polygon>,
    pub arcs: Vec<Arc>,
    pub pies: Vec<Pie>,
    pub images: Vec<Image>,
    pub text_frames: Vec<TextFrame>,
    pub beziers: Vec<Bezier>,
    pub elliptical_arcs: Vec<EllipticalArc>,
    pub ellipses: Vec<Ellipse>,
    pub labels: Vec<Label>,
    pub ieee_symbols: Vec<IeeeSymbol>,
    pub parameters: Vec<Parameter>,
    pub footprints: Vec<FootprintLink>,
}

/// How many record lists a symbol has.
pub open spec fn symbol_kinds() -> int {
    17
}

/// The record list `k` of a symbol (in the order the symbol is read) is
/// readable whole.
pub open spec fn symbol_kind_readable(json: Json, keys: SymbolKeys, polyline_pairs: Seq<usize>, polygon_pairs: Seq<usize>, k: int) -> bool {
    if k == 0 {
        all_readable_explained(McpServer::parse_schlib_pin, list_at(json, "pins"@), keys.pin@)
    } else if k == 1 {
        all_readable(McpServer::parse_schlib_rectangle, list_at(json, "rectangles"@), keys.rectangle@)
    } else if k == 2 {
        all_readable(McpServer::parse_schlib_round_rect, list_at(json, "round_rects"@), keys.round_rect@)
    } else if k == 3 {
        all_readable(McpServer::parse_schlib_line, list_at(json, "lines"@), keys.line@)
    } else if k == 4 {
        all_readable_points(McpServer::parse_schlib_polyline, list_at(json, "polylines"@), polyline_pairs, keys.polyline@)
    } else if k == 5 {
        all_readable_points(McpServer::parse_schlib_polygon, list_at(json, "polygons"@), polygon_pairs, keys.polygon@)
    } else if k == 6 {
        all_readable(McpServer::parse_schlib_arc, list_at(json, "arcs"@), keys.arc@)
    } else if k == 7 {
        all_readable(McpServer::parse_schlib_pie, list_at(json, "pies"@), keys.pie@)
    } else if k == 8 {
        all_readable(McpServer::parse_schlib_image, list_at(json, "images"@), keys.image@)
    } else if k == 9 {
        all_readable(McpServer::parse_schlib_text_frame, list_at(json, "text_frames"@), keys.text_frame@)
    } else if k == 10 {
        all_readable(McpServer::parse_schlib_bezier, list_at(json, "beziers"@), keys.bezier@)
    } else if k == 11 {
        all_readable(McpServer::parse_schlib_elliptical_arc, list_at(json, "elliptical_arcs"@), keys.elliptical_arc@)
    } else if k == 12 {
        all_readable(McpServer::parse_schlib_ellipse, list_at(json, "ellipses"@), keys.ellipse@)
    } else if k == 13 {
        all_readable_explained(McpServer::parse_schlib_label, list_at(json, "labels"@), keys.label@)
    } else if k == 14 {
        all_readable(McpServer::parse_schlib_ieee_symbol, list_at(json, "ieee_symbols"@), keys.ieee_symbol@)
    } else if k == 15 {
        all_readable(McpServer::parse_schlib_parameter, list_at(json, "parameters"@), keys.parameter@)
    } else {
        all_readable(parse_footprint_link, list_at(json, "footprints"@), keys.footprint@)
    }
}

/// The record list `k` of a symbol refuses the symbol with `e`.
pub open spec fn symbol_kind_refuses(
    json: Json,
    keys: SymbolKeys,
    polyline_pairs: Seq<usize>,
    polygon_pairs: Seq<usize>,
    operation: Seq<char>,
    filepath: Seq<char>,
    component: Seq<char>,
    k: int,
    e: Refusal,
) -> bool {
    if k == 0 {
        list_refuses_explained(McpServer::parse_schlib_pin, list_at(json, "pins"@), keys.pin@, operation, filepath, component, "pin"@, e)
    } else if k == 1 {
        list_refuses(McpServer::parse_schlib_rectangle, list_at(json, "rectangles"@), keys.rectangle@, operation, filepath, component, "rectangle"@, e)
    } else if k == 2 {
        list_refuses(McpServer::parse_schlib_round_rect, list_at(json, "round_rects"@), keys.round_rect@, operation, filepath, component, "round_rect"@, e)
    } else if k == 3 {
        list_refuses(McpServer::parse_schlib_line, list_at(json, "lines"@), keys.line@, operation, filepath, component, "line"@, e)
    } else if k == 4 {
        list_refuses_points(McpServer::parse_schlib_polyline, list_at(json, "polylines"@), polyline_pairs, keys.polyline@, operation, filepath, component, "polyline"@, e)
    } else if k == 5 {
        list_refuses_points(McpServer::parse_schlib_polygon, list_at(json, "polygons"@), polygon_pairs, keys.polygon@, operation, filepath, component, "polygon"@, e)
    } else if k == 6 {
        list_refuses(McpServer::parse_schlib_arc, list_at(json, "arcs"@), keys.arc@, operation, filepath, component, "arc"@, e)
    } else if k == 7 {
        list_refuses(McpServer::parse_schlib_pie, list_at(json, "pies"@), keys.pie@, operation, filepath, component, "pie"@, e)
    } else if k == 8 {
        list_refuses(McpServer::parse_schlib_image, list_at(json, "images"@), keys.image@, operation, filepath, component, "image"@, e)
    } else if k == 9 {
        list_refuses(McpServer::parse_schlib_text_frame, list_at(json, "text_frames"@), keys.text_frame@, operation, filepath, component, "text_frame"@, e)
    } else if k == 10 {
        list_refuses(McpServer::parse_schlib_bezier, list_at(json, "beziers"@), keys.bezier@, operation, filepath, component, "bezier"@, e)
    } else if k == 11 {
        list_refuses(McpServer::parse_schlib_elliptical_arc, list_at(json, "elliptical_arcs"@), keys.elliptical_arc@, operation, filepath, component, "elliptical_arc"@, e)
    } else if k == 12 {
        list_refuses(McpServer::parse_schlib_ellipse, list_at(json, "ellipses"@), keys.ellipse@, operation, filepath, component, "ellipse"@, e)
    } else if k == 13 {
        list_refuses_explained(McpServer::parse_schlib_label, list_at(json, "labels"@), keys.label@, operation, filepath, component, "label"@, e)
    } else if k == 14 {
        list_refuses(McpServer::parse_schlib_ieee_symbol, list_at(json, "ieee_symbols"@), keys.ieee_symbol@, operation, filepath, component, "IEEE symbol"@, e)
    } else if k == 15 {
        list_refuses(McpServer::parse_schlib_parameter, list_at(json, "parameters"@), keys.parameter@, operation, filepath, component, "parameter"@, e)
    } else {
        list_refuses(parse_footprint_link, list_at(json, "footprints"@), keys.footprint@, operation, filepath, component, "footprint link"@, e)
    }
}

/// `parts` holds what each record's reader gives for the symbol's records.
pub open spec fn symbol_read_as(json: Json, polyline_pairs: Seq<usize>, polygon_pairs: Seq<usize>, parts: SymbolParts) -> bool {
    &&& read_as_explained(McpServer::parse_schlib_pin, list_at(json, "pins"@), parts.pins@)
    &&& read_as(McpServer::parse_schlib_rectangle, list_at(json, "rectangles"@), parts.rectangles@)
    &&& read_as(McpServer::parse_schlib_round_rect, list_at(json, "round_rects"@), parts.round_rects@)
    &&& read_as(McpServer::parse_schlib_line, list_at(json, "lines"@), parts.lines@)
    &&& read_as_points(McpServer::parse_schlib_polyline, list_at(json, "polylines"@), polyline_pairs, parts.polylines@)
    &&& read_as_points(McpServer::parse_schlib_polygon, list_at(json, "polygons"@), polygon_pairs, parts.polygons@)
    &&& read_as(McpServer::parse_schlib_arc, list_at(json, "arcs"@), parts.arcs@)
    &&& read_as(McpServer::parse_schlib_pie, list_at(json, "pies"@), parts.pies@)
    &&& read_as(McpServer::parse_schlib_image, list_at(json, "images"@), parts.images@)
    &&& read_as(McpServer::parse_schlib_text_frame, list_at(json, "text_frames"@), parts.text_frames@)
    &&& read_as(McpServer::parse_schlib_bezier, list_at(json, "beziers"@), parts.beziers@)
    &&& read_as(McpServer::parse_schlib_elliptical_arc, list_at(json, "elliptical_arcs"@), parts.elliptical_arcs@)
    &&& read_as(McpServer::parse_schlib_ellipse, list_at(json, "ellipses"@), parts.ellipses@)
    &&& read_as_explained(McpServer::parse_schlib_label, list_at(json, "labels"@), parts.labels@)
    &&& read_as(McpServer::parse_schlib_ieee_symbol, list_at(json, "ieee_symbols"@), parts.ieee_symbols@)
    &&& read_as(McpServer::parse_schlib_parameter, list_at(json, "parameters"@), parts.parameters@)
    &&& read_as(parse_footprint_link, list_at(json, "footprints"@), parts.footprints@)
}

/// What refuses a symbol object: a key the symbol does not accept, or else
/// the first of its record lists that refuses, every list before it being
/// readable whole.
pub open spec fn symbol_refuses(
    json: Json,
    keys: SymbolKeys,
    polyline_pairs: Seq<usize>,
    polygon_pairs: Seq<usize>,
    operation: Seq<char>,
    filepath: Seq<char>,
    component: Seq<char>,
    e: Refusal,
) -> bool {
    match unknown_field_error(json, keys.symbol@) {
        Some(msg) => e matches Refusal::UnknownField(m) && m@ == msg,
        None => exists|k: int|
            0 <= k < symbol_kinds() && (forall|j: int|
                0 <= j < k ==> #[trigger] symbol_kind_readable(json, keys, polyline_pairs, polygon_pairs, j))
                && symbol_kind_refuses(json, keys, polyline_pairs, polygon_pairs, operation, filepath, component, k, e),
    }
}

proof fn lemma_refused_list_unreadable<T, F: Fn(&Json) -> Option<T>>(
    read: F,
    items: Seq<Json>,
    allowed: Seq<&str>,
    operation: Seq<char>,
    filepath: Seq<char>,
    component: Seq<char>,
    kind: Seq<char>,
    e: Refusal,
)
    requires
        list_refuses(read, items, allowed, operation, filepath, component, kind, e),
        forall|x: &Json, v: T| #[trigger] call_ensures(read, (x,), Some(v)) ==> !call_ensures(read, (x,), None),
    ensures
        !all_readable(read, items, allowed),
{
    let i = choose|i: int|
        #![trigger items[i]]
        0 <= i < items.len() && (forall|j: int| 0 <= j < i ==> readable(read, #[trigger] items[j], allowed))
            && refuses(read, items[i], allowed, operation, filepath, component, kind, i, e);
    if readable(read, items[i], allowed) {
        let v = choose|v: T| call_ensures(read, (&items[i],), Some(v));
        assert(call_ensures(read, (&items[i],), Some(v)));
    }
}

proof fn lemma_refused_list_unreadable_explained<T, F: Fn(&Json) -> Result<T, String>>(
    read: F,
    items: Seq<Json>,
    allowed: Seq<&str>,
    operation: Seq<char>,
    filepath: Seq<char>,
    component: Seq<char>,
    kind: Seq<char>,
    e: Refusal,
)
    requires
        list_refuses_explained(read, items, allowed, operation, filepath, component, kind, e),
        forall|x: &Json, v: T, reason: String|
            #![trigger call_ensures(read, (x,), Ok(v)), call_ensures(read, (x,), Err(reason))]
            call_ensures(read, (x,), Ok(v)) ==> !call_ensures(read, (x,), Err(reason)),
    ensures
        !all_readable_explained(read, items, allowed),
{
    let i = choose|i: int|
        #![trigger items[i]]
        0 <= i < items.len() && (forall|j: int| 0 <= j < i ==> readable_explained(read, #[trigger] items[j], allowed))
            && refuses_explained(read, items[i], allowed, operation, filepath, component, kind, i, e);
    if readable_explained(read, items[i], allowed) {
        let v = choose|v: T| call_ensures(read, (&items[i],), Ok(v));
        assert(call_ensures(read, (&items[i],), Ok(v)));
        if let Refusal::Malformed(m) = e {
            let reason = choose|reason: String|
                call_ensures(read, (&items[i],), Err(reason)) && is_malformed(
                    m,
                    operation,
                    filepath,
                    component,
                    kind,
                    i,
                    reason@,
                );
            assert(!call_ensures(read, (&items[i],), Err(reason)));
        }
    }
}

proof fn lemma_refused_list_unreadable_points<T, F: Fn(&Json, usize) -> Option<T>>(
    read: F,
    items: Seq<Json>,
    pairs: Seq<usize>,
    allowed: Seq<&str>,
    operation: Seq<char>,
    filepath: Seq<char>,
    component: Seq<char>,
    kind: Seq<char>,
    e: Refusal,
)
    requires
        list_refuses_points(read, items, pairs, allowed, operation, filepath, component, kind, e),
        forall|x: &Json, n: usize, v: T| #[trigger] call_ensures(read, (x, n), Some(v)) ==> !call_ensures(read, (x, n), None),
    ensures
        !all_readable_points(read, items, pairs, allowed),
{
    let i = choose|i: int|
        #![trigger items[i]]
        0 <= i < items.len() && (forall|j: int|
            0 <= j < i ==> readable_points(read, #[trigger] items[j], pairs_of(pairs, j), allowed))
            && match e {
            Refusal::UnknownField(msg) => unknown_field_error(items[i], allowed) == Some(msg@),
            Refusal::Malformed(m) => {
                &&& unknown_field_error(items[i], allowed) is None
                &&& call_ensures(read, (&items[i], pairs_of(pairs, i)), None)
                &&& is_malformed(m, operation, filepath, component, kind, i, missing_or_invalid())
            },
            _ => false,
        };
    if readable_points(read, items[i], pairs_of(pairs, i), allowed) {
        let v = choose|v: T| call_ensures(read, (&items[i], pairs_of(pairs, i)), Some(v));
        assert(call_ensures(read, (&items[i], pairs_of(pairs, i)), Some(v)));
    }
}

/// A symbol object is accepted: it carries only the keys a symbol accepts
/// and every one of its record lists is readable whole.
pub open spec fn symbol_accepted(json: Json, keys: SymbolKeys, polyline_pairs: Seq<usize>, polygon_pairs: Seq<usize>) -> bool {
    &&& unknown_field_error(json, keys.symbol@) is None
    &&& forall|k: int| 0 <= k < symbol_kinds() ==> #[trigger] symbol_kind_readable(json, keys, polyline_pairs, polygon_pairs, k)
}

impl McpServer {
    /// Reads a whole symbol object of a write or update request: the symbol
    /// is held to its allowed keys, its header is read (named `default_name`
    /// when it carries no name), then each record list in turn, each record
    /// held to its kind's keys and read by its kind's reader. The first
    /// record that fails refuses the whole symbol, named by the symbol, the
    /// kind and the index. Polylines and polygons are read with the count of
    /// coordinate pairs the caller read for each (`polyline_pairs`,
    /// `polygon_pairs`, by index; none past their end).
    pub fn parse_symbol_parts(
        json: &Json,
        keys: &SymbolKeys,
        operation: &str,
        filepath: &str,
        default_name: &str,
        polyline_pairs: &[usize],
        polygon_pairs: &[usize],
    ) -> (r: Result<SymbolParts, Refusal>)
        ensures
            r is Ok <==> symbol_accepted(*json, *keys, polyline_pairs@, polygon_pairs@),
            r matches Ok(parts) ==> {
                &&& call_ensures(parse_symbol_header, (json, default_name), parts.header)
                &&& symbol_read_as(*json, polyline_pairs@, polygon_pairs@, parts)
            },
            r matches Err(e) ==> symbol_refuses(
                *json,
                *keys,
                polyline_pairs@,
                polygon_pairs@,
                operation@,
                filepath@,
                crate::records::or_else(json.str_at("name"@), default_name@),
                e,
            ),
    {
        if let Err(msg) = McpServer::check_unknown_fields(json, keys.symbol) {
            return Err(Refusal::UnknownField(msg));
        }
        let header = parse_symbol_header(json, default_name);
        let origin = Origin { operation, filepath, component: header.name.as_str() };
        let ghost (pl, pg) = (polyline_pairs@, polygon_pairs@);
        let ghost (op, fp, component) = (operation@, filepath@, header.name@);
        let pins = match read_explained_records(
            records_under(json, "pins"),
            keys.pin,
            McpServer::parse_schlib_pin,
            &origin,
            "pin",
        ) {
            Ok(v) => v,
            Err(e) => {
                proof {
                    assert(symbol_kind_refuses(*json, *keys, pl, pg, op, fp, component, 0, e));
                    assert forall|x: &Json, v: Pin, reason: String|
                        #![trigger call_ensures(McpServer::parse_schlib_pin, (x,), Ok(v)), call_ensures(McpServer::parse_schlib_pin, (x,), Err(reason))]
                        call_ensures(McpServer::parse_schlib_pin, (x,), Ok(v)) implies !call_ensures(McpServer::parse_schlib_pin, (x,), Err(reason)) by {}
                    lemma_refused_list_unreadable_explained(
                        McpServer::parse_schlib_pin,
                        list_at(*json, "pins"@),
                        keys.pin@,
                        op,
                        fp,
                        component,
                        "pin"@,
                        e,
                    );
                    assert(!symbol_kind_readable(*json, *keys, pl, pg, 0));
                }
                return Err(e);
            },
        };
        proof {
            lemma_all_readable_explained(
                McpServer::parse_schlib_pin,
                list_at(*json, "pins"@),
                keys.pin@,
                pins@,
            );
            assert(symbol_kind_readable(*json, *keys, pl, pg, 0));
        }
        let rectangles = match read_records(
            records_under(json, "rectangles"),
            keys.rectangle,
            McpServer::parse_schlib_rectangle,
            &origin,
            "rectangle",
        ) {
            Ok(v) => v,
            Err(e) => {
                proof {
                    assert(symbol_kind_refuses(*json, *keys, pl, pg, op, fp, component, 1, e));
                    assert forall|x: &Json, v: Rectangle| #[trigger] call_ensures(McpServer::parse_schlib_rectangle, (x,), Some(v))
                        implies !call_ensures(McpServer::parse_schlib_rectangle, (x,), None) by {}
                    lemma_refused_list_unreadable(
                        McpServer::parse_schlib_rectangle,
                        list_at(*json, "rectangles"@),
                        keys.rectangle@,
                        op,
                        fp,
                        component,
                        "rectangle"@,
                        e,
                    );
                    assert(!symbol_kind_readable(*json, *keys, pl, pg, 1));
                }
                return Err(e);
            },
        };
        proof {
            lemma_all_readable(
                McpServer::parse_schlib_rectangle,
                list_at(*json, "rectangles"@),
                keys.rectangle@,
                rectangles@,
            );
            assert(symbol_kind_readable(*json, *keys, pl, pg, 1));
        }
        let round_rects = match read_records(
            records_under(json, "round_rects"),
            keys.round_rect,
            McpServer::parse_schlib_round_rect,
            &origin,
            "round_rect",
        ) {
            Ok(v) => v,
            Err(e) => {
                proof {
                    assert(symbol_kind_refuses(*json, *keys, pl, pg, op, fp, component, 2, e));
                    assert forall|x: &Json, v: Rectangle| #[trigger] call_ensures(McpServer::parse_schlib_round_rect, (x,), Some(v))
                        implies !call_ensures(McpServer::parse_schlib_round_rect, (x,), None) by {}
                    lemma_refused_list_unreadable(
                        McpServer::parse_schlib_round_rect,
                        list_at(*json, "round_rects"@),
                        keys.round_rect@,
                        op,
                        fp,
                        component,
                        "round_rect"@,
                        e,
                    );
                    assert(!symbol_kind_readable(*json, *keys, pl, pg, 2));
                }
                return Err(e);
            },
        };
        proof {
            lemma_all_readable(
                McpServer::parse_schlib_round_rect,
                list_at(*json, "round_rects"@),
                keys.round_rect@,
                round_rects@,
            );
            assert(symbol_kind_readable(*json, *keys, pl, pg, 2));
        }
        let lines = match read_records(
            records_under(json, "lines"),
            keys.line,
            McpServer::parse_schlib_line,
            &origin,
            "line",
        ) {
            Ok(v) => v,
            Err(e) => {
                proof {
                    assert(symbol_kind_refuses(*json, *keys, pl, pg, op, fp, component, 3, e));
                    assert forall|x: &Json, v: Line| #[trigger] call_ensures(McpServer::parse_schlib_line, (x,), Some(v))
                        implies !call_ensures(McpServer::parse_schlib_line, (x,), None) by {}
                    lemma_refused_list_unreadable(
                        McpServer::parse_schlib_line,
                        list_at(*json, "lines"@),
                        keys.line@,
                        op,
                        fp,
                        component,
                        "line"@,
                        e,
                    );
                    assert(!symbol_kind_readable(*json, *keys, pl, pg, 3));
                }
                return Err(e);
            },
        };
        proof {
            lemma_all_readable(
                McpServer::parse_schlib_line,
                list_at(*json, "lines"@),
                keys.line@,
                lines@,
            );
            assert(symbol_kind_readable(*json, *keys, pl, pg, 3));
        }
        let polylines = match read_point_records(
            records_under(json, "polylines"),
            polyline_pairs,
            keys.polyline,
            McpServer::parse_schlib_polyline,
            &origin,
            "polyline",
        ) {
            Ok(v) => v,
            Err(e) => {
                proof {
                    assert(symbol_kind_refuses(*json, *keys, pl, pg, op, fp, component, 4, e));
                    assert forall|x: &Json, n: usize, v: Polyline| #[trigger] call_ensures(McpServer::parse_schlib_polyline, (x, n), Some(v))
                        implies !call_ensures(McpServer::parse_schlib_polyline, (x, n), None) by {}
                    lemma_refused_list_unreadable_points(
                        McpServer::parse_schlib_polyline,
                        list_at(*json, "polylines"@),
                        pl,
                        keys.polyline@,
                        op,
                        fp,
                        component,
                        "polyline"@,
                        e,
                    );
                    assert(!symbol_kind_readable(*json, *keys, pl, pg, 4));
                }
                return Err(e);
            },
        };
        proof {
            lemma_all_readable_points(
                McpServer::parse_schlib_polyline,
                list_at(*json, "polylines"@),
                pl,
                keys.polyline@,
                polylines@,
            );
            assert(symbol_kind_readable(*json, *keys, pl, pg, 4));
        }
        let polygons = match read_point_records(
            records_under(json, "polygons"),
            polygon_pairs,
            keys.polygon,
            McpServer::parse_schlib_polygon,
            &origin,
            "polygon",
        ) {
            Ok(v) => v,
            Err(e) => {
                proof {
                    assert(symbol_kind_refuses(*json, *keys, pl, pg, op, fp, component, 5, e));
                    assert forall|x: &Json, n: usize, v: Polygon| #[trigger] call_ensures(McpServer::parse_schlib_polygon, (x, n), Some(v))
                        implies !call_ensures(McpServer::parse_schlib_polygon, (x, n), None) by {}
                    lemma_refused_list_unreadable_points(
                        McpServer::parse_schlib_polygon,
                        list_at(*json, "polygons"@),
                        pg,
                        keys.polygon@,
                        op,
                        fp,
                        component,
                        "polygon"@,
                        e,
                    );
                    assert(!symbol_kind_readable(*json, *keys, pl, pg, 5));
                }
                return Err(e);
            },
        };
        proof {
            lemma_all_readable_points(
                McpServer::parse_schlib_polygon,
                list_at(*json, "polygons"@),
                pg,
                keys.polygon@,
                polygons@,
            );
            assert(symbol_kind_readable(*json, *keys, pl, pg, 5));
        }
        let arcs = match read_records(
            records_under(json, "arcs"),
            keys.arc,
            McpServer::parse_schlib_arc,
            &origin,
            "arc",
        ) {
            Ok(v) => v,
            Err(e) => {
                proof {
                    assert(symbol_kind_refuses(*json, *keys, pl, pg, op, fp, component, 6, e));
                    assert forall|x: &Json, v: Arc| #[trigger] call_ensures(McpServer::parse_schlib_arc, (x,), Some(v))
                        implies !call_ensures(McpServer::parse_schlib_arc, (x,), None) by {}
                    lemma_refused_list_unreadable(
                        McpServer::parse_schlib_arc,
                        list_at(*json, "arcs"@),
                        keys.arc@,
                        op,
                        fp,
                        component,
                        "arc"@,
                        e,
                    );
                    assert(!symbol_kind_readable(*json, *keys, pl, pg, 6));
                }
                return Err(e);
            },
        };
        proof {
            lemma_all_readable(
                McpServer::parse_schlib_arc,
                list_at(*json, "arcs"@),
                keys.arc@,
                arcs@,
            );
            assert(symbol_kind_readable(*json, *keys, pl, pg, 6));
        }
        let pies = match read_records(
            records_under(json, "pies"),
            keys.pie,
            McpServer::parse_schlib_pie,
            &origin,
            "pie",
        ) {
            Ok(v) => v,
            Err(e) => {
                proof {
                    assert(symbol_kind_refuses(*json, *keys, pl, pg, op, fp, component, 7, e));
                    assert forall|x: &Json, v: Pie| #[trigger] call_ensures(McpServer::parse_schlib_pie, (x,), Some(v))
                        implies !call_ensures(McpServer::parse_schlib_pie, (x,), None) by {}
                    lemma_refused_list_unreadable(
                        McpServer::parse_schlib_pie,
                        list_at(*json, "pies"@),
                        keys.pie@,
                        op,
                        fp,
                        component,
                        "pie"@,
                        e,
                    );
                    assert(!symbol_kind_readable(*json, *keys, pl, pg, 7));
                }
                return Err(e);
            },
        };
        proof {
            lemma_all_readable(
                McpServer::parse_schlib_pie,
                list_at(*json, "pies"@),
                keys.pie@,
                pies@,
            );
            assert(symbol_kind_readable(*json, *keys, pl, pg, 7));
        }
        let images = match read_records(
            records_under(json, "images"),
            keys.image,
            McpServer::parse_schlib_image,
            &origin,
            "image",
        ) {
            Ok(v) => v,
            Err(e) => {
                proof {
                    assert(symbol_kind_refuses(*json, *keys, pl, pg, op, fp, component, 8, e));
                    assert forall|x: &Json, v: Image| #[trigger] call_ensures(McpServer::parse_schlib_image, (x,), Some(v))
                        implies !call_ensures(McpServer::parse_schlib_image, (x,), None) by {}
                    lemma_refused_list_unreadable(
                        McpServer::parse_schlib_image,
                        list_at(*json, "images"@),
                        keys.image@,
                        op,
                        fp,
                        component,
                        "image"@,
                        e,
                    );
                    assert(!symbol_kind_readable(*json, *keys, pl, pg, 8));
                }
                return Err(e);
            },
        };
        proof {
            lemma_all_readable(
                McpServer::parse_schlib_image,
                list_at(*json, "images"@),
                keys.image@,
                images@,
            );
            assert(symbol_kind_readable(*json, *keys, pl, pg, 8));
        }
        let text_frames = match read_records(
            records_under(json, "text_frames"),
            keys.text_frame,
            McpServer::parse_schlib_text_frame,
            &origin,
            "text_frame",
        ) {
            Ok(v) => v,
            Err(e) => {
                proof {
                    assert(symbol_kind_refuses(*json, *keys, pl, pg, op, fp, component, 9, e));
                    assert forall|x: &Json, v: TextFrame| #[trigger] call_ensures(McpServer::parse_schlib_text_frame, (x,), Some(v))
                        implies !call_ensures(McpServer::parse_schlib_text_frame, (x,), None) by {}
                    lemma_refused_list_unreadable(
                        McpServer::parse_schlib_text_frame,
                        list_at(*json, "text_frames"@),
                        keys.text_frame@,
                        op,
                        fp,
                        component,
                        "text_frame"@,
                        e,
                    );
                    assert(!symbol_kind_readable(*json, *keys, pl, pg, 9));
                }
                return Err(e);
            },
        };
        proof {
            lemma_all_readable(
                McpServer::parse_schlib_text_frame,
                list_at(*json, "text_frames"@),
                keys.text_frame@,
                text_frames@,
            );
            assert(symbol_kind_readable(*json, *keys, pl, pg, 9));
        }
        let beziers = match read_records(
            records_under(json, "beziers"),
            keys.bezier,
            McpServer::parse_schlib_bezier,
            &origin,
            "bezier",
        ) {
            Ok(v) => v,
            Err(e) => {
                proof {
                    assert(symbol_kind_refuses(*json, *keys, pl, pg, op, fp, component, 10, e));
                    assert forall|x: &Json, v: Bezier| #[trigger] call_ensures(McpServer::parse_schlib_bezier, (x,), Some(v))
                        implies !call_ensures(McpServer::parse_schlib_bezier, (x,), None) by {}
                    lemma_refused_list_unreadable(
                        McpServer::parse_schlib_bezier,
                        list_at(*json, "beziers"@),
                        keys.bezier@,
                        op,
                        fp,
                        component,
                        "bezier"@,
                        e,
                    );
                    assert(!symbol_kind_readable(*json, *keys, pl, pg, 10));
                }
                return Err(e);
            },
        };
        proof {
            lemma_all_readable(
                McpServer::parse_schlib_bezier,
                list_at(*json, "beziers"@),
                keys.bezier@,
                beziers@,
            );
            assert(symbol_kind_readable(*json, *keys, pl, pg, 10));
        }
        let elliptical_arcs = match read_records(
            records_under(json, "elliptical_arcs"),
            keys.elliptical_arc,
            McpServer::parse_schlib_elliptical_arc,
            &origin,
            "elliptical_arc",
        ) {
            Ok(v) => v,
            Err(e) => {
                proof {
                    assert(symbol_kind_refuses(*json, *keys, pl, pg, op, fp, component, 11, e));
                    assert forall|x: &Json, v: EllipticalArc| #[trigger] call_ensures(McpServer::parse_schlib_elliptical_arc, (x,), Some(v))
                        implies !call_ensures(McpServer::parse_schlib_elliptical_arc, (x,), None) by {}
                    lemma_refused_list_unreadable(
                        McpServer::parse_schlib_elliptical_arc,
                        list_at(*json, "elliptical_arcs"@),
                        keys.elliptical_arc@,
                        op,
                        fp,
                        component,
                        "elliptical_arc"@,
                        e,
                    );
                    assert(!symbol_kind_readable(*json, *keys, pl, pg, 11));
                }
                return Err(e);
            },
        };
        proof {
            lemma_all_readable(
                McpServer::parse_schlib_elliptical_arc,
                list_at(*json, "elliptical_arcs"@),
                keys.elliptical_arc@,
                elliptical_arcs@,
            );
            assert(symbol_kind_readable(*json, *keys, pl, pg, 11));
        }
        let ellipses = match read_records(
            records_under(json, "ellipses"),
            keys.ellipse,
            McpServer::parse_schlib_ellipse,
            &origin,
            "ellipse",
        ) {
            Ok(v) => v,
            Err(e) => {
                proof {
                    assert(symbol_kind_refuses(*json, *keys, pl, pg, op, fp, component, 12, e));
                    assert forall|x: &Json, v: Ellipse| #[trigger] call_ensures(McpServer::parse_schlib_ellipse, (x,), Some(v))
                        implies !call_ensures(McpServer::parse_schlib_ellipse, (x,), None) by {}
                    lemma_refused_list_unreadable(
                        McpServer::parse_schlib_ellipse,
                        list_at(*json, "ellipses"@),
                        keys.ellipse@,
                        op,
                        fp,
                        component,
                        "ellipse"@,
                        e,
                    );
                    assert(!symbol_kind_readable(*json, *keys, pl, pg, 12));
                }
                return Err(e);
            },
        };
        proof {
            lemma_all_readable(
                McpServer::parse_schlib_ellipse,
                list_at(*json, "ellipses"@),
                keys.ellipse@,
                ellipses@,
            );
            assert(symbol_kind_readable(*json, *keys, pl, pg, 12));
        }
        let labels = match read_explained_records(
            records_under(json, "labels"),
            keys.label,
            McpServer::parse_schlib_label,
            &origin,
            "label",
        ) {
            Ok(v) => v,
            Err(e) => {
                proof {
                    assert(symbol_kind_refuses(*json, *keys, pl, pg, op, fp, component, 13, e));
                    assert forall|x: &Json, v: Label, reason: String|
                        #![trigger call_ensures(McpServer::parse_schlib_label, (x,), Ok(v)), call_ensures(McpServer::parse_schlib_label, (x,), Err(reason))]
                        call_ensures(McpServer::parse_schlib_label, (x,), Ok(v)) implies !call_ensures(McpServer::parse_schlib_label, (x,), Err(reason)) by {}
                    lemma_refused_list_unreadable_explained(
                        McpServer::parse_schlib_label,
                        list_at(*json, "labels"@),
                        keys.label@,
                        op,
                        fp,
                        component,
                        "label"@,
                        e,
                    );
                    assert(!symbol_kind_readable(*json, *keys, pl, pg, 13));
                }
                return Err(e);
            },
        };
        proof {
            lemma_all_readable_explained(
                McpServer::parse_schlib_label,
                list_at(*json, "labels"@),
                keys.label@,
                labels@,
            );
            assert(symbol_kind_readable(*json, *keys, pl, pg, 13));
        }
        let ieee_symbols = match read_records(
            records_under(json, "ieee_symbols"),
            keys.ieee_symbol,
            McpServer::parse_schlib_ieee_symbol,
            &origin,
            "IEEE symbol",
        ) {
            Ok(v) => v,
            Err(e) => {
                proof {
                    assert(symbol_kind_refuses(*json, *keys, pl, pg, op, fp, component, 14, e));
                    assert forall|x: &Json, v: IeeeSymbol| #[trigger] call_ensures(McpServer::parse_schlib_ieee_symbol, (x,), Some(v))
                        implies !call_ensures(McpServer::parse_schlib_ieee_symbol, (x,), None) by {}
                    lemma_refused_list_unreadable(
                        McpServer::parse_schlib_ieee_symbol,
                        list_at(*json, "ieee_symbols"@),
                        keys.ieee_symbol@,
                        op,
                        fp,
                        component,
                        "IEEE symbol"@,
                        e,
                    );
                    assert(!symbol_kind_readable(*json, *keys, pl, pg, 14));
                }
                return Err(e);
            },
        };
        proof {
            lemma_all_readable(
                McpServer::parse_schlib_ieee_symbol,
                list_at(*json, "ieee_symbols"@),
                keys.ieee_symbol@,
                ieee_symbols@,
            );
            assert(symbol_kind_readable(*json, *keys, pl, pg, 14));
        }
        let parameters = match read_records(
            records_under(json, "parameters"),
            keys.parameter,
            McpServer::parse_schlib_parameter,
            &origin,
            "parameter",
        ) {
            Ok(v) => v,
            Err(e) => {
                proof {
                    assert(symbol_kind_refuses(*json, *keys, pl, pg, op, fp, component, 15, e));
                    assert forall|x: &Json, v: Parameter| #[trigger] call_ensures(McpServer::parse_schlib_parameter, (x,), Some(v))
                        implies !call_ensures(McpServer::parse_schlib_parameter, (x,), None) by {}
                    lemma_refused_list_unreadable(
                        McpServer::parse_schlib_parameter,
                        list_at(*json, "parameters"@),
                        keys.parameter@,
                        op,
                        fp,
                        component,
                        "parameter"@,
                        e,
                    );
                    assert(!symbol_kind_readable(*json, *keys, pl, pg, 15));
                }
                return Err(e);
            },
        };
        proof {
            lemma_all_readable(
                McpServer::parse_schlib_parameter,
                list_at(*json, "parameters"@),
                keys.parameter@,
                parameters@,
            );
            assert(symbol_kind_readable(*json, *keys, pl, pg, 15));
        }
        let footprints = match read_records(
            records_under(json, "footprints"),
            keys.footprint,
            parse_footprint_link,
            &origin,
            "footprint link",
        ) {
            Ok(v) => v,
            Err(e) => {
                proof {
                    assert(symbol_kind_refuses(*json, *keys, pl, pg, op, fp, component, 16, e));
                    assert forall|x: &Json, v: FootprintLink| #[trigger] call_ensures(parse_footprint_link, (x,), Some(v))
                        implies !call_ensures(parse_footprint_link, (x,), None) by {}
                    lemma_refused_list_unreadable(
                        parse_footprint_link,
                        list_at(*json, "footprints"@),
                        keys.footprint@,
                        op,
                        fp,
                        component,
                        "footprint link"@,
                        e,
                    );
                    assert(!symbol_kind_readable(*json, *keys, pl, pg, 16));
                }
                return Err(e);
            },
        };
        proof {
            lemma_all_readable(
                parse_footprint_link,
                list_at(*json, "footprints"@),
                keys.footprint@,
                footprints@,
            );
            assert(symbol_kind_readable(*json, *keys, pl, pg, 16));
        }
        Ok(SymbolParts {
            header,
            pins,
            rectangles,
            round_rects,
            lines,
            polylines,
            polygons,
            arcs,
            pies,
            images,
            text_frames,
            beziers,
            elliptical_arcs,
            ellipses,
            labels,
            ieee_symbols,
            parameters,
            footprints,
        })
    }
}

} // verus!
