//! A whole footprint object of a write or update request: the guard against
//! unknown keys on the footprint and on each of its records, each record
//! list read in turn by its kind's reader, the 3D model it names and its
//! identity. The first fault refuses the whole footprint, named by kind and
//! index where it is a record's. What the library cannot decide itself (a
//! layer name, a fractional comparison, a model file on disk, the ranges the
//! record format holds) the caller decides and hands in as plain refusals.
use vstd::prelude::*;
use crate::McpServer;
use crate::accepted::{REGION_KINDS, STACK_MODES};
use crate::bodies::BodyFields;
use crate::connect::{is_length, polygon_connect_error, polygon_connect_field, PolygonConnectSettings};
use crate::fields::{
    base64_field, guid_field, guid_field_result, json_base64, opt_result_view, opt_view,
    stack_entries, stack_entries_result, PadStackMode,
};
use crate::json::{Json, JsonNode};
use crate::pads::{
    pad_enum, pad_field, pad_field_text, pad_identity_error, pad_required_error,
    pad_settings_error, pad_shape_result, per_layer_corner_radii, per_layer_corner_radii_result,
    per_layer_shapes, per_layer_shapes_result, stack_mode_named, PadIdentity, PadSettings,
};
use crate::records::{or_else, unknown_field_error, ErrorContext};
use crate::symbol::{is_malformed, list_at, Origin, Refusal};
use crate::primitives::{first_missing, guid_name, holes_result, missing_field, outline_result, PrimitiveTail};
use crate::text::{chars_of, push_str, str_views, trim, trim_bounds, u64_text};
use crate::texts::{font_names_fit, TextFields};
use crate::vias::{via_options_error, via_required_error, ViaOptions};
use crate::vocab::{parse_enum, parse_enum_result, PadShape};

verus! {

// ---------------------------------------------------------------- whole numbers in text

/// The value of a run of decimal digits.
pub open spec fn digits_value(s: Seq<char>) -> int
    decreases s.len(),
{
    if s.len() == 0 {
        0
    } else {
        digits_value(s.drop_last()) * 10 + (s.last() as int - 48)
    }
}

/// Every character of `s` is a decimal digit.
pub open spec fn all_digits(s: Seq<char>) -> bool {
    forall|i: int| 0 <= i < s.len() ==> '0' <= #[trigger] s[i] <= '9'
}

/// What `str::parse::<i32>` gives: an optional sign, then at least one
/// decimal digit and nothing else, of a value that fits.
pub open spec fn i32_text(s: Seq<char>) -> Option<i32> {
    let negative = s.len() > 0 && s[0] == '-';
    let body = if s.len() > 0 && (s[0] == '-' || s[0] == '+') {
        s.drop_first()
    } else {
        s
    };
    let v = if negative {
        -digits_value(body)
    } else {
        digits_value(body)
    };
    if body.len() == 0 || !all_digits(body) || v < i32::MIN || v > i32::MAX {
        None
    } else {
        Some(v as i32)
    }
}

/// Reads a whole number the way `str::parse::<i32>` does.
pub fn parse_i32(s: &[char]) -> (r: Option<i32>)
    ensures
        r == i32_text(s@),
{
    let negative = s.len() > 0 && s[0] == '-';
    let start: usize = if s.len() > 0 && (s[0] == '-' || s[0] == '+') {
        1
    } else {
        0
    };
    let ghost body = s@.subrange(start as int, s.len() as int);
    assert(body =~= if s@.len() > 0 && (s@[0] == '-' || s@[0] == '+') {
        s@.drop_first()
    } else {
        s@
    });
    if start == s.len() {
        return None;
    }
    // The value so far, held at 2^31 + 1 once it passes what any i32 holds.
    let cap: i64 = 2147483649;
    let mut acc: i64 = 0;
    let mut i: usize = start;
    while i < s.len()
        invariant
            start <= i <= s.len(),
            body == s@.subrange(start as int, s.len() as int),
            body == (if s@.len() > 0 && (s@[0] == '-' || s@[0] == '+') {
                s@.drop_first()
            } else {
                s@
            }),
            negative == (s@.len() > 0 && s@[0] == '-'),
            body.len() > 0,
            all_digits(s@.subrange(start as int, i as int)),
            acc == if digits_value(s@.subrange(start as int, i as int)) < cap {
                digits_value(s@.subrange(start as int, i as int))
            } else {
                cap as int
            },
            digits_value(s@.subrange(start as int, i as int)) >= 0,
            cap == 2147483649,
        decreases s.len() - i,
    {
        let c = s[i];
        let ghost prefix = s@.subrange(start as int, i as int);
        let ghost next = s@.subrange(start as int, i + 1);
        assert(next.drop_last() =~= prefix);
        assert(next.last() == c);
        if !('0' <= c && c <= '9') {
            assert(!all_digits(body)) by {
                assert(body[i - start] == c);
            }
            proof {
                let sb = if s@.len() > 0 && (s@[0] == '-' || s@[0] == '+') {
                    s@.drop_first()
                } else {
                    s@
                };
                assert(sb == body);
                assert(!all_digits(sb));
            }
            return None;
        }
        let d: i64 = (c as u32 - 48) as i64;
        assert(d == c as int - 48);
        assert(digits_value(next) == digits_value(prefix) * 10 + d);
        acc = if acc >= cap {
            cap
        } else {
            let v = acc * 10 + d;
            if v < cap {
                v
            } else {
                cap
            }
        };
        assert(all_digits(next)) by {
            assert forall|k: int| 0 <= k < next.len() implies '0' <= #[trigger] next[k] <= '9' by {
                if k < prefix.len() {
                    assert(next[k] == prefix[k]);
                }
            }
        }
        i += 1;
    }
    assert(s@.subrange(start as int, s.len() as int) == body);
    if acc >= cap {
        return None;
    }
    let v: i64 = if negative {
        -acc
    } else {
        acc
    };
    if v < -2147483648 || v > 2147483647 {
        return None;
    }
    Some(v as i32)
}

// ---------------------------------------------------------------- region kinds

/// What a region's `kind` names.
#[derive(Debug)]
pub enum RegionKindValue {
    /// A kind by its accepted name (`copper` when the region gives none).
    Named(String),
    /// A raw KIND integer, which the record format maps to its kind.
    Id(i32),
    /// Another JSON value, in the form a read writes a kind outside the
    /// named ones; the caller reads it in that form and refuses it there.
    Serialized,
}

/// The views of a region kind.
pub enum RegionKindView {
    Named(Seq<char>),
    Id(i32),
    Serialized,
}

pub open spec fn region_kind_view(k: RegionKindValue) -> RegionKindView {
    match k {
        RegionKindValue::Named(s) => RegionKindView::Named(s@),
        RegionKindValue::Id(i) => RegionKindView::Id(i),
        RegionKindValue::Serialized => RegionKindView::Serialized,
    }
}

/// What a region's `kind` gives: `copper` when absent or `null`; a string
/// that reads as a whole number (around white space) is a KIND integer,
/// any other string an accepted name; an integer that fits is a KIND
/// integer, any other number refused; another value is left in its
/// serialised form.
pub open spec fn region_kind_result(json: Json) -> Result<RegionKindView, Seq<char>> {
    match json.spec_get("kind"@) {
        None => Ok(RegionKindView::Named("copper"@)),
        Some(v) => match v.node {
            JsonNode::Null => Ok(RegionKindView::Named("copper"@)),
            JsonNode::Str(s) => match i32_text(trim(s@)) {
                Some(id) => Ok(RegionKindView::Id(id)),
                None => match parse_enum_result(s@, "Region kind"@, str_views(REGION_KINDS@), Seq::empty()) {
                    Ok(name) => Ok(RegionKindView::Named(name)),
                    Err(e) => Err(e),
                },
            },
            JsonNode::PosInt(n) => if n <= i32::MAX as u64 {
                Ok(RegionKindView::Id(n as i32))
            } else {
                Err("Region kind "@ + v.text@ + " is not a KIND integer"@)
            },
            JsonNode::NegInt(n) => if n >= i32::MIN as i64 {
                Ok(RegionKindView::Id(n as i32))
            } else {
                Err("Region kind "@ + v.text@ + " is not a KIND integer"@)
            },
            JsonNode::Float => Err("Region kind "@ + v.text@ + " is not a KIND integer"@),
            _ => Ok(RegionKindView::Serialized),
        },
    }
}

fn not_a_kind(text: &str) -> (e: String)
    ensures
        e@ == "Region kind "@ + text@ + " is not a KIND integer"@,
{
    let mut e = String::new();
    push_str(&mut e, "Region kind ");
    push_str(&mut e, text);
    push_str(&mut e, " is not a KIND integer");
    e
}

impl McpServer {
    /// Reads a region's kind, by name or by KIND integer.
    pub fn region_kind(json: &Json) -> (r: Result<RegionKindValue, String>)
        ensures
            (match r {
                Ok(k) => Ok(region_kind_view(k)),
                Err(e) => Err(e@),
            }) == region_kind_result(*json),
    {
        let v = match json.get("kind") {
            None => return Ok(RegionKindValue::Named("copper".to_string())),
            Some(v) => v,
        };
        match &v.node {
            JsonNode::Null => Ok(RegionKindValue::Named("copper".to_string())),
            JsonNode::Str(s) => {
                let cs = chars_of(s.as_str());
                let (a, b) = trim_bounds(cs.as_slice());
                let mut t: Vec<char> = Vec::new();
                let mut i: usize = a;
                while i < b
                    invariant
                        a <= i <= b <= cs.len(),
                        t@ == cs@.subrange(a as int, i as int),
                    decreases b - i,
                {
                    t.push(cs[i]);
                    assert(t@ =~= cs@.subrange(a as int, i + 1));
                    i += 1;
                }
                match parse_i32(t.as_slice()) {
                    Some(id) => Ok(RegionKindValue::Id(id)),
                    None => {
                        assert(crate::vocab::pair_views(Seq::<(&str, &str)>::empty()) =~= Seq::empty());
                        let r = parse_enum(s.as_str(), "Region kind", &REGION_KINDS, &[]);
                        match r {
                            Ok(name) => Ok(RegionKindValue::Named(name)),
                            Err(e) => Err(e),
                        }
                    },
                }
            },
            JsonNode::PosInt(n) => if *n <= 2147483647 {
                Ok(RegionKindValue::Id(*n as i32))
            } else {
                Err(not_a_kind(v.text.as_str()))
            },
            JsonNode::NegInt(n) => if *n >= -2147483648 {
                Ok(RegionKindValue::Id(*n as i32))
            } else {
                Err(not_a_kind(v.text.as_str()))
            },
            JsonNode::Float => Err(not_a_kind(v.text.as_str())),
            _ => Ok(RegionKindValue::Serialized),
        }
    }
}


// ---------------------------------------------------------------- pads

/// The stack mode a pad names (`simple` unless it names another).
pub open spec fn pad_stack_mode(json: Json, d: Seq<char>) -> PadStackMode {
    match pad_enum(json, d, "stack_mode"@, STACK_MODES@, Seq::empty()) {
        Ok(Some(name)) => stack_mode_named(name),
        _ => PadStackMode::Simple,
    }
}

/// The refusal of a pad's polygon-connect override, if it has one.
pub open spec fn pad_connect_error(json: Json, d: Seq<char>) -> Option<Seq<char>> {
    match json.present("polygon_connect"@) {
        Some(v) => polygon_connect_error(v, pad_field(d, "polygon_connect"@)),
        None => None,
    }
}

/// The per-layer entries of a pad under `key`, held to what its stack
/// mode stores (`full_stack_only` for offsets and corner radii).
pub open spec fn pad_entries(json: Json, d: Seq<char>, key: Seq<char>, full_stack_only: bool) -> Result<
    Option<Seq<Json>>,
    Seq<char>,
> {
    stack_entries_result(json, key, pad_stack_mode(json, d), full_stack_only, pad_field(d, key))
}

/// The number of entries a per-layer list holds, when it is given.
pub open spec fn entry_count(r: Result<Option<Seq<Json>>, Seq<char>>) -> Option<usize> {
    match r {
        Ok(Some(entries)) => Some(entries.len() as usize),
        _ => None,
    }
}

/// The first fault of a pad the library decides, in the order the pad is
/// read: its required fields, its shape, its settings, its polygon-connect
/// override, its identity and stack mode, its per-layer sizes, offsets,
/// shapes and corner radii, its GUID.
pub open spec fn pad_record_error(json: Json) -> Option<Seq<char>> {
    match pad_required_error(json) {
        Some(e) => Some(e),
        None => {
            let d = json.str_at("designator"@)->0;
            if pad_shape_result(json, d) is Err {
                Some(pad_shape_result(json, d)->Err_0)
            } else if pad_settings_error(json, d) is Some {
                pad_settings_error(json, d)
            } else if pad_connect_error(json, d) is Some {
                pad_connect_error(json, d)
            } else if pad_identity_error(json, d) is Some {
                pad_identity_error(json, d)
            } else if pad_entries(json, d, "per_layer_sizes"@, false) is Err {
                Some(pad_entries(json, d, "per_layer_sizes"@, false)->Err_0)
            } else if pad_entries(json, d, "per_layer_offsets"@, true) is Err {
                Some(pad_entries(json, d, "per_layer_offsets"@, true)->Err_0)
            } else if per_layer_shapes_result(json, d, pad_stack_mode(json, d)) is Err {
                Some(per_layer_shapes_result(json, d, pad_stack_mode(json, d))->Err_0)
            } else if per_layer_corner_radii_result(json, d, pad_stack_mode(json, d)) is Err {
                Some(per_layer_corner_radii_result(json, d, pad_stack_mode(json, d))->Err_0)
            } else if guid_field_result(json, "guid"@, pad_field(d, "guid"@)) is Err {
                Some(guid_field_result(json, "guid"@, pad_field(d, "guid"@))->Err_0)
            } else {
                None
            }
        },
    }
}

/// A pad as the library reads it. Its fractional geometry, its layer and
/// the coordinate pairs of its per-layer sizes and offsets are read by the
/// caller, which hands in its refusal of the pad (see [`FootprintChecks`]).
#[derive(Debug)]
pub struct PadRecord {
    pub designator: String,
    pub shape: PadShape,
    pub settings: PadSettings,
    pub polygon_connect: Option<PolygonConnectSettings>,
    pub identity: PadIdentity,
    /// How many per-layer sizes the stack holds, when they are given.
    pub per_layer_size_count: Option<usize>,
    /// How many per-layer offsets the stack holds, when they are given.
    pub per_layer_offset_count: Option<usize>,
    pub per_layer_shapes: Option<Vec<PadShape>>,
    pub per_layer_corner_radii: Option<Vec<u8>>,
    /// The pad's own GUID, verbatim.
    pub guid: Option<String>,
    /// The replay tail, decoded from base64 (invalid base64 is absent).
    pub raw_tail: Option<Vec<u8>>,
}

/// The view of an optional list.
pub open spec fn opt_seq<T>(v: Option<Vec<T>>) -> Option<Seq<T>> {
    match v {
        Some(v) => Some(v@),
        None => None,
    }
}

impl McpServer {
    /// Reads a pad: refused with the first fault of [`pad_record_error`];
    /// otherwise each part is what its reader gives for the pad.
    pub fn read_pad(json: &Json) -> (r: Result<PadRecord, String>)
        ensures
            r is Err <==> pad_record_error(*json) is Some,
            r matches Err(e) ==> pad_record_error(*json) == Some(e@),
            r matches Ok(p) ==> {
                let d = p.designator@;
                &&& json.str_at("designator"@) == Some(d)
                &&& p.shape == pad_shape_result(*json, d)->Ok_0
                &&& exists|ds: &str| ds@ == d && call_ensures(McpServer::pad_settings, (json, ds), Ok(p.settings))
                &&& exists|ds: &str| ds@ == d && call_ensures(McpServer::pad_identity, (json, ds), Ok(p.identity))
                &&& p.identity.stack_mode == pad_stack_mode(*json, d)
                &&& (match json.present("polygon_connect"@) {
                    None => p.polygon_connect is None,
                    Some(v) => exists|f: &str, c: PolygonConnectSettings|
                        f@ == pad_field(d, "polygon_connect"@) && p.polygon_connect == Some(c)
                            && call_ensures(polygon_connect_field, (&v, f), Ok(c)),
                })
                &&& opt_seq(p.per_layer_shapes) == per_layer_shapes_result(*json, d, pad_stack_mode(*json, d))->Ok_0
                &&& opt_seq(p.per_layer_corner_radii) == per_layer_corner_radii_result(*json, d, pad_stack_mode(*json, d))->Ok_0
                &&& p.per_layer_size_count == entry_count(pad_entries(*json, d, "per_layer_sizes"@, false))
                &&& p.per_layer_offset_count == entry_count(pad_entries(*json, d, "per_layer_offsets"@, true))
                &&& Ok::<Option<Seq<char>>, Seq<char>>(opt_view(p.guid)) == guid_field_result(
                    *json,
                    "guid"@,
                    pad_field(d, "guid"@),
                )
                &&& (match p.raw_tail {
                    Some(b) => Some(b@),
                    None => None,
                }) == base64_field(*json, "raw_tail"@)
            },
    {
        let designator = McpServer::pad_designator(json)?;
        let shape = McpServer::pad_shape(json, designator)?;
        let settings = McpServer::pad_settings(json, designator)?;
        let polygon_connect = match json.present_field("polygon_connect") {
            None => None,
            Some(v) => {
                let field = pad_field_text(designator, "polygon_connect");
                let c = polygon_connect_field(v, field.as_str())?;
                Some(c)
            },
        };
        let identity = McpServer::pad_identity(json, designator)?;
        let sizes_field = pad_field_text(designator, "per_layer_sizes");
        let sizes = stack_entries(json, "per_layer_sizes", identity.stack_mode, false, sizes_field.as_str())?;
        let per_layer_size_count = match sizes {
            Some(e) => Some(e.len()),
            None => None,
        };
        let offsets_field = pad_field_text(designator, "per_layer_offsets");
        let offsets = stack_entries(json, "per_layer_offsets", identity.stack_mode, true, offsets_field.as_str())?;
        let per_layer_offset_count = match offsets {
            Some(e) => Some(e.len()),
            None => None,
        };
        let shapes = per_layer_shapes(json, designator, identity.stack_mode)?;
        let radii = per_layer_corner_radii(json, designator, identity.stack_mode)?;
        let guid_name = pad_field_text(designator, "guid");
        let guid = guid_field(json, "guid", guid_name.as_str());
        assert(opt_result_view(guid) == guid_field_result(*json, "guid"@, pad_field(designator@, "guid"@)));
        let guid = guid?;
        let raw_tail = json_base64(json, "raw_tail");
        Ok(PadRecord {
            designator: designator.to_string(),
            shape,
            settings,
            polygon_connect,
            identity,
            per_layer_size_count,
            per_layer_offset_count,
            per_layer_shapes: shapes,
            per_layer_corner_radii: radii,
            guid,
            raw_tail,
        })
    }
}

// ---------------------------------------------------------------- tracks, arcs, fills, vias

/// The first fault of a layered primitive the library decides: the first of
/// `keys` that is not a number, then a malformed GUID.
pub open spec fn layered_error(json: Json, record: Seq<char>, keys: Seq<Seq<char>>) -> Option<Seq<char>> {
    match first_missing(json, keys, 0) {
        Some(k) => Some(missing_field(record, k)),
        None => match guid_field_result(json, "guid"@, guid_name(record)) {
            Err(e) => Some(e),
            Ok(_) => None,
        },
    }
}

pub open spec fn track_keys() -> Seq<Seq<char>> {
    seq!["x1"@, "y1"@, "x2"@, "y2"@, "width"@]
}

pub open spec fn arc_keys() -> Seq<Seq<char>> {
    seq!["x"@, "y"@, "radius"@, "start_angle"@, "end_angle"@, "width"@]
}

pub open spec fn fill_keys() -> Seq<Seq<char>> {
    seq!["x1"@, "y1"@, "x2"@, "y2"@]
}

fn read_layered(json: &Json, record: &str, keys: &[&str]) -> (r: Result<PrimitiveTail, String>)
    ensures
        r is Err <==> layered_error(*json, record@, str_views(keys@)) is Some,
        r matches Err(e) ==> layered_error(*json, record@, str_views(keys@)) == Some(e@),
        r matches Ok(t) ==> call_ensures(McpServer::primitive_tail, (json, record), Ok(t)),
{
    McpServer::required_numbers(json, record, keys)?;
    McpServer::primitive_tail(json, record)
}

impl McpServer {
    /// Reads a track: its numeric ends and width, then its header tail.
    pub fn read_track(json: &Json) -> (r: Result<PrimitiveTail, String>)
        ensures
            r is Err <==> layered_error(*json, "Track"@, track_keys()) is Some,
            r matches Err(e) ==> layered_error(*json, "Track"@, track_keys()) == Some(e@),
            r matches Ok(t) ==> call_ensures(McpServer::primitive_tail, (json, "Track"), Ok(t)),
    {
        let keys = ["x1", "y1", "x2", "y2", "width"];
        assert(str_views(keys@) =~= track_keys());
        read_layered(json, "Track", &keys)
    }

    /// Reads an arc: its numeric centre, radius, angles and width, then its
    /// header tail.
    pub fn read_arc(json: &Json) -> (r: Result<PrimitiveTail, String>)
        ensures
            r is Err <==> layered_error(*json, "Arc"@, arc_keys()) is Some,
            r matches Err(e) ==> layered_error(*json, "Arc"@, arc_keys()) == Some(e@),
            r matches Ok(t) ==> call_ensures(McpServer::primitive_tail, (json, "Arc"), Ok(t)),
    {
        let keys = ["x", "y", "radius", "start_angle", "end_angle", "width"];
        assert(str_views(keys@) =~= arc_keys());
        read_layered(json, "Arc", &keys)
    }

    /// Reads a fill: its numeric corners, then its header tail.
    pub fn read_fill(json: &Json) -> (r: Result<PrimitiveTail, String>)
        ensures
            r is Err <==> layered_error(*json, "Fill"@, fill_keys()) is Some,
            r matches Err(e) ==> layered_error(*json, "Fill"@, fill_keys()) == Some(e@),
            r matches Ok(t) ==> call_ensures(McpServer::primitive_tail, (json, "Fill"), Ok(t)),
    {
        let keys = ["x1", "y1", "x2", "y2"];
        assert(str_views(keys@) =~= fill_keys());
        read_layered(json, "Fill", &keys)
    }

    /// Reads a via: its required numbers, then its optional tail.
    pub fn read_via(json: &Json) -> (r: Result<ViaOptions, String>)
        ensures
            r is Err <==> (via_required_error(*json) is Some || via_options_error(*json) is Some),
            r matches Err(e) ==> (if via_required_error(*json) is Some {
                via_required_error(*json)
            } else {
                via_options_error(*json)
            }) == Some(e@),
            r matches Ok(v) ==> call_ensures(McpServer::via_options, (json,), Ok(v)),
    {
        McpServer::via_required(json)?;
        McpServer::via_options(json)
    }
}

// ---------------------------------------------------------------- regions

/// A region as the library reads it; its vertices are fractional and read
/// by the caller.
#[derive(Debug)]
pub struct RegionRecord {
    pub vertex_count: usize,
    pub kind: RegionKindValue,
    pub name: String,
    /// The vertex count of each hole contour, in order.
    pub hole_sizes: Vec<usize>,
    /// The region's GUID, verbatim.
    pub guid: Option<String>,
}

/// The vertex list of a region, when it is a list.
pub open spec fn region_vertices(json: Json) -> Option<Seq<Json>> {
    match json.spec_get("vertices"@) {
        Some(v) => match v.node {
            JsonNode::Array(items) => Some(items@),
            _ => None,
        },
        None => None,
    }
}

/// The first fault of a region the library decides: no vertex list, a
/// malformed outline, an unknown kind, malformed holes, a malformed GUID.
pub open spec fn region_record_error(json: Json) -> Option<Seq<char>> {
    match region_vertices(json) {
        None => Some("Region is missing its vertices array"@),
        Some(points) => if outline_result(points) is Err {
            Some(outline_result(points)->Err_0)
        } else if region_kind_result(json) is Err {
            Some(region_kind_result(json)->Err_0)
        } else if holes_result(json) is Err {
            Some(holes_result(json)->Err_0)
        } else if guid_field_result(json, "guid"@, "Region guid"@) is Err {
            Some(guid_field_result(json, "guid"@, "Region guid"@)->Err_0)
        } else {
            None
        },
    }
}

impl McpServer {
    /// Reads a region: refused with the first fault of
    /// [`region_record_error`]; otherwise its vertex count, kind, name (empty
    /// unless given) and hole sizes.
    pub fn read_region(json: &Json) -> (r: Result<RegionRecord, String>)
        ensures
            r is Err <==> region_record_error(*json) is Some,
            r matches Err(e) ==> region_record_error(*json) == Some(e@),
            r matches Ok(g) ==> {
                &&& Ok::<nat, Seq<char>>(g.vertex_count as nat) == outline_result(region_vertices(*json)->0)
                &&& Ok::<RegionKindView, Seq<char>>(region_kind_view(g.kind)) == region_kind_result(*json)
                &&& g.name@ == crate::records::or_else(json.str_at("name"@), Seq::empty())
                &&& Ok::<Seq<nat>, Seq<char>>(g.hole_sizes@.map_values(|n: usize| n as nat)) == holes_result(*json)
                &&& Ok::<Option<Seq<char>>, Seq<char>>(opt_view(g.guid)) == guid_field_result(*json, "guid"@, "Region guid"@)
            },
    {
        let points = match json.get("vertices") {
            Some(v) => match v.as_array() {
                Some(a) => a,
                None => return Err("Region is missing its vertices array".to_string()),
            },
            None => return Err("Region is missing its vertices array".to_string()),
        };
        let vertex_count = crate::primitives::region_outline(points.as_slice())?;
        let kind = McpServer::region_kind(json)?;
        let name = match json.str_field("name") {
            Some(n) => n.to_string(),
            None => String::new(),
        };
        let hole_sizes = McpServer::region_hole_sizes(json)?;
        let guid = guid_field(json, "guid", "Region guid");
        assert(opt_result_view(guid) == guid_field_result(*json, "guid"@, "Region guid"@));
        let guid = guid?;
        Ok(RegionRecord { vertex_count, kind, name, hole_sizes, guid })
    }
}


// ---------------------------------------------------------------- record lists

/// The error a record its reader refused is reported with, its reader's
/// reason as the message and the kind and index in the details.
pub open spec fn is_failed(
    m: ErrorContext,
    operation: Seq<char>,
    filepath: Seq<char>,
    component: Seq<char>,
    kind: Seq<char>,
    index: int,
    reason: Seq<char>,
) -> bool {
    &&& m.operation@ == operation
    &&& m.message@ == reason
    &&& m.filepath matches Some(f) && f@ == filepath
    &&& m.component matches Some(c) && c@ == component
    &&& m.details matches Some(d) && d@ == "Failed to parse "@ + kind + " at index "@
        + crate::text::decimal(index as nat)
}

/// The error for a refused record: malformed (`Malformed <kind>: <reason>`)
/// for the kinds reported that way, otherwise the reason itself.
pub open spec fn record_error(
    malformed: bool,
    e: Refusal,
    operation: Seq<char>,
    filepath: Seq<char>,
    component: Seq<char>,
    kind: Seq<char>,
    index: int,
    reason: Seq<char>,
) -> bool {
    if malformed {
        e matches Refusal::Malformed(m) && is_malformed(m, operation, filepath, component, kind, index, reason)
    } else {
        e matches Refusal::Failed(m) && is_failed(m, operation, filepath, component, kind, index, reason)
    }
}

/// The caller's refusal of record `i`, if it gave one.
pub open spec fn outside_of(outside: Seq<Option<String>>, i: int) -> Option<Seq<char>> {
    if 0 <= i < outside.len() {
        match outside[i] {
            Some(s) => Some(s@),
            None => None,
        }
    } else {
        None
    }
}

/// A record that its kind's keys allow, that `read` builds and that the
/// caller does not refuse.
pub open spec fn checked_readable<T, F: Fn(&Json) -> Result<T, String>>(
    read: F,
    item: Json,
    outside: Option<Seq<char>>,
    allowed: Seq<&str>,
) -> bool {
    &&& unknown_field_error(item, allowed) is None
    &&& exists|v: T| call_ensures(read, (&item,), Ok(v))
    &&& outside is None
}

/// The refusal of record `index`: an unknown key; else the reader's reason;
/// else the caller's.
pub open spec fn refuses_checked<T, F: Fn(&Json) -> Result<T, String>>(
    read: F,
    item: Json,
    outside: Option<Seq<char>>,
    allowed: Seq<&str>,
    operation: Seq<char>,
    filepath: Seq<char>,
    component: Seq<char>,
    kind: Seq<char>,
    malformed: bool,
    index: int,
    e: Refusal,
) -> bool {
    match unknown_field_error(item, allowed) {
        Some(msg) => e matches Refusal::UnknownField(m) && m@ == msg,
        None => {
            ||| exists|reason: String|
                call_ensures(read, (&item,), Err(reason))
                    && record_error(malformed, e, operation, filepath, component, kind, index, reason@)
            ||| (exists|v: T| call_ensures(read, (&item,), Ok(v))) && (outside matches Some(reason)
                && record_error(malformed, e, operation, filepath, component, kind, index, reason))
        },
    }
}

/// Every record of `items` is readable and unrefused.
pub open spec fn all_checked<T, F: Fn(&Json) -> Result<T, String>>(
    read: F,
    items: Seq<Json>,
    outside: Seq<Option<String>>,
    allowed: Seq<&str>,
) -> bool {
    forall|i: int| 0 <= i < items.len() ==> checked_readable(read, #[trigger] items[i], outside_of(outside, i), allowed)
}

/// What reading `items` refuses with: the refusal of the first record that
/// is not readable, every one before it being readable.
pub open spec fn list_refuses_checked<T, F: Fn(&Json) -> Result<T, String>>(
    read: F,
    items: Seq<Json>,
    outside: Seq<Option<String>>,
    allowed: Seq<&str>,
    operation: Seq<char>,
    filepath: Seq<char>,
    component: Seq<char>,
    kind: Seq<char>,
    malformed: bool,
    e: Refusal,
) -> bool {
    exists|i: int|
        #![trigger items[i]]
        0 <= i < items.len() && (forall|j: int|
            0 <= j < i ==> checked_readable(read, #[trigger] items[j], outside_of(outside, j), allowed))
            && refuses_checked(read, items[i], outside_of(outside, i), allowed, operation, filepath, component, kind, malformed, i, e)
}

/// `values` are what `read` gives for the records of `items`, one for one.
pub open spec fn read_as_checked<T, F: Fn(&Json) -> Result<T, String>>(read: F, items: Seq<Json>, values: Seq<T>) -> bool {
    &&& values.len() == items.len()
    &&& forall|i: int| 0 <= i < items.len() ==> call_ensures(read, (&items[i],), Ok(#[trigger] values[i]))
}

fn failed_record(operation: &str, filepath: &str, component: &str, kind: &str, index: usize, reason: String) -> (r: ErrorContext)
    ensures
        is_failed(r, operation@, filepath@, component@, kind@, index as int, reason@),
{
    let mut details = String::new();
    push_str(&mut details, "Failed to parse ");
    push_str(&mut details, kind);
    push_str(&mut details, " at index ");
    let n = u64_text(index as u64);
    push_str(&mut details, n.as_str());
    ErrorContext {
        operation: operation.to_string(),
        message: reason,
        filepath: Some(filepath.to_string()),
        component: Some(component.to_string()),
        details: Some(details),
    }
}

fn record_refusal(origin: &Origin, kind: &str, index: usize, reason: String, malformed: bool) -> (e: Refusal)
    ensures
        record_error(malformed, e, origin.operation@, origin.filepath@, origin.component@, kind@, index as int, reason@),
{
    if malformed {
        Refusal::Malformed(McpServer::malformed(origin.operation, origin.filepath, origin.component, kind, index, reason.as_str()))
    } else {
        Refusal::Failed(failed_record(origin.operation, origin.filepath, origin.component, kind, index, reason))
    }
}

/// Reads every record of `items` with `read`, each first held to the
/// `allowed` keys, then to its reader, then to the caller's refusal of it
/// (`outside`, by index; none past its end). The first record that fails
/// refuses the list, reported as malformed or with the reason itself.
pub fn read_checked_records<T, F: Fn(&Json) -> Result<T, String>>(
    items: &[Json],
    outside: &[Option<String>],
    allowed: &[&str],
    read: F,
    origin: &Origin,
    kind: &str,
    malformed: bool,
) -> (r: Result<Vec<T>, Refusal>)
    requires
        forall|i: int| 0 <= i < items.len() ==> call_requires(read, (&items@[i],)),
    ensures
        r matches Ok(v) ==> read_as_checked(read, items@, v@) && all_checked(read, items@, outside@, allowed@),
        r matches Err(e) ==> list_refuses_checked(
            read,
            items@,
            outside@,
            allowed@,
            origin.operation@,
            origin.filepath@,
            origin.component@,
            kind@,
            malformed,
            e,
        ),
{
    let mut out: Vec<T> = Vec::new();
    let mut i: usize = 0;
    while i < items.len()
        invariant
            i <= items.len(),
            out.len() == i,
            forall|k: int| 0 <= k < items.len() ==> call_requires(read, (&items@[k],)),
            forall|k: int|
                0 <= k < i ==> call_ensures(read, (&items@[k],), Ok(#[trigger] out@[k])) && checked_readable(
                    read,
                    items@[k],
                    outside_of(outside@, k),
                    allowed@,
                ),
        decreases items.len() - i,
    {
        let item = &items[i];
        let ghost prior = out@;
        if let Err(msg) = McpServer::check_unknown_fields(item, allowed) {
            let e = Refusal::UnknownField(msg);
            assert forall|j: int| 0 <= j < i implies checked_readable(read, #[trigger] items@[j], outside_of(outside@, j), allowed@) by {
                assert(call_ensures(read, (&items@[j],), Ok(out@[j])));
            }
            assert(refuses_checked(read, items@[i as int], outside_of(outside@, i as int), allowed@, origin.operation@, origin.filepath@, origin.component@, kind@, malformed, i as int, e));
            return Err(e);
        }
        match read(item) {
            Err(reason) => {
                let ghost r = reason;
                let e = record_refusal(origin, kind, i, reason, malformed);
                assert(call_ensures(read, (&items@[i as int],), Err(r)));
                assert forall|j: int| 0 <= j < i implies checked_readable(read, #[trigger] items@[j], outside_of(outside@, j), allowed@) by {
                    assert(call_ensures(read, (&items@[j],), Ok(out@[j])));
                }

                assert(refuses_checked(read, items@[i as int], outside_of(outside@, i as int), allowed@, origin.operation@, origin.filepath@, origin.component@, kind@, malformed, i as int, e));
                return Err(e);
            },
            Ok(v) => {
                let refused: Option<String> = if i < outside.len() {
                    match &outside[i] {
                        Some(s) => Some(s.clone()),
                        None => None,
                    }
                } else {
                    None
                };
                match refused {
                    Some(reason) => {
                        assert(outside_of(outside@, i as int) == Some(reason@));
                        assert(call_ensures(read, (&items@[i as int],), Ok(v)));
                        let e = record_refusal(origin, kind, i, reason, malformed);
                        assert forall|j: int| 0 <= j < i implies checked_readable(read, #[trigger] items@[j], outside_of(outside@, j), allowed@) by {
                            assert(call_ensures(read, (&items@[j],), Ok(out@[j])));
                        }
                        assert(refuses_checked(read, items@[i as int], outside_of(outside@, i as int), allowed@, origin.operation@, origin.filepath@, origin.component@, kind@, malformed, i as int, e));
                        return Err(e);
                    },
                    None => {
                        assert(call_ensures(read, (&items@[i as int],), Ok(v)));
                        out.push(v);
                        assert(forall|k: int| 0 <= k < i ==> out@[k] == prior[k]);
                    },
                }
            },
        }
        i += 1;
    }
    assert forall|k: int| 0 <= k < items.len() implies checked_readable(read, #[trigger] items@[k], outside_of(outside@, k), allowed@) by {
        assert(call_ensures(read, (&items@[k],), Ok(out@[k])));
    }
    Ok(out)
}

proof fn lemma_refused_checked_unreadable<T, F: Fn(&Json) -> Result<T, String>>(
    read: F,
    items: Seq<Json>,
    outside: Seq<Option<String>>,
    allowed: Seq<&str>,
    operation: Seq<char>,
    filepath: Seq<char>,
    component: Seq<char>,
    kind: Seq<char>,
    malformed: bool,
    e: Refusal,
)
    requires
        list_refuses_checked(read, items, outside, allowed, operation, filepath, component, kind, malformed, e),
        forall|i: int, v: T, reason: String|
            #![trigger call_ensures(read, (&items[i],), Ok(v)), call_ensures(read, (&items[i],), Err(reason))]
            0 <= i < items.len() && call_ensures(read, (&items[i],), Ok(v)) ==> !call_ensures(read, (&items[i],), Err(reason)),
    ensures
        !all_checked(read, items, outside, allowed),
{
    let i = choose|i: int|
        #![trigger items[i]]
        0 <= i < items.len() && (forall|j: int|
            0 <= j < i ==> checked_readable(read, #[trigger] items[j], outside_of(outside, j), allowed))
            && refuses_checked(read, items[i], outside_of(outside, i), allowed, operation, filepath, component, kind, malformed, i, e);
    if checked_readable(read, items[i], outside_of(outside, i), allowed) {
        let v = choose|v: T| call_ensures(read, (&items[i],), Ok(v));
        assert(call_ensures(read, (&items[i],), Ok(v)));
        if exists|reason: String|
            call_ensures(read, (&items[i],), Err(reason))
                && record_error(malformed, e, operation, filepath, component, kind, i, reason@) {
            let reason = choose|reason: String|
                call_ensures(read, (&items[i],), Err(reason))
                    && record_error(malformed, e, operation, filepath, component, kind, i, reason@);
            assert(!call_ensures(read, (&items[i],), Err(reason)));
        }
    }
}


// ---------------------------------------------------------------- footprints

/// The keys each object of a footprint may carry: the footprint itself, each
/// kind of record it holds and its 3D model.
pub struct FootprintKeys<'a> {
    pub footprint: &'a [&'a str],
    pub pad: &'a [&'a str],
    pub track: &'a [&'a str],
    pub via: &'a [&'a str],
    pub fill: &'a [&'a str],
    pub arc: &'a [&'a str],
    pub region: &'a [&'a str],
    pub text: &'a [&'a str],
    pub component_body: &'a [&'a str],
    pub model: &'a [&'a str],
}

/// What the caller decides of a footprint, as plain refusals: of each
/// record (by kind and index; a layer name, a fractional comparison, a
/// pair's spelling, a kind in its serialised form), of the 3D model's file
/// path, and of the footprint as a whole once it is read (text the record
/// format cannot hold, coordinates out of its range).
pub struct FootprintChecks<'a> {
    pub pads: &'a [Option<String>],
    pub tracks: &'a [Option<String>],
    pub vias: &'a [Option<String>],
    pub fills: &'a [Option<String>],
    pub arcs: &'a [Option<String>],
    pub regions: &'a [Option<String>],
    pub texts: &'a [Option<String>],
    pub component_bodies: &'a [Option<String>],
    /// The refusal of the model's file path, consulted for an embedded
    /// `step_model` and for a `model_3d` whose path names a file.
    pub model_path: Option<&'a str>,
    pub footprint: Option<&'a str>,
}

/// The 3D model a footprint names.
#[derive(Debug)]
pub enum ModelRef {
    NoModel,
    /// A `step_model` embedded from this file (offsets and rotation are
    /// fractional and read by the caller).
    Embedded(String),
    /// A `step_model` kept as an external reference to this file.
    External(String),
    /// A `model_3d` replayed from a read, by its file path.
    Replayed(String),
}

/// The view of a model reference.
pub enum ModelView {
    NoModel,
    Embedded(Seq<char>),
    External(Seq<char>),
    Replayed(Seq<char>),
}

pub open spec fn model_ref_view(m: ModelRef) -> ModelView {
    match m {
        ModelRef::NoModel => ModelView::NoModel,
        ModelRef::Embedded(p) => ModelView::Embedded(p@),
        ModelRef::External(p) => ModelView::External(p@),
        ModelRef::Replayed(p) => ModelView::Replayed(p@),
    }
}

/// A footprint object read whole, in the order the request gives its
/// records.
#[derive(Debug)]
pub struct FootprintParts {
    pub name: String,
    pub description: Option<String>,
    pub pads: Vec<PadRecord>,
    pub tracks: Vec<PrimitiveTail>,
    pub vias: Vec<ViaOptions>,
    pub fills: Vec<PrimitiveTail>,
    pub arcs: Vec<PrimitiveTail>,
    pub regions: Vec<RegionRecord>,
    pub texts: Vec<TextFields>,
    pub component_bodies: Vec<BodyFields>,
    pub model: ModelRef,
    pub guid: Option<String>,
    pub storage_name: Option<String>,
}

/// The name a footprint is read under.
pub open spec fn footprint_name(json: Json, default_name: Seq<char>) -> Seq<char> {
    or_else(json.str_at("name"@), default_name)
}

/// A `height` that is given and is not a length of zero or more.
pub open spec fn height_refused(json: Json) -> bool {
    match json.spec_get("height"@) {
        Some(v) => !is_length(v),
        None => false,
    }
}

/// `Footprint '<name>' height must be …`.
pub open spec fn height_message(name: Seq<char>) -> Seq<char> {
    "Footprint '"@ + name + "' height must be a finite number of millimetres, zero or more"@
}

/// The model object: `step_model` when the footprint has that key (even
/// `null`), otherwise a `model_3d` that is not `null`.
pub open spec fn model_object(json: Json) -> Option<Json> {
    match json.spec_get("step_model"@) {
        Some(m) => Some(m),
        None => json.present("model_3d"@),
    }
}

/// Whether the model's file path is checked: an embedded step model (the
/// default when it names a file), or a replayed `model_3d`.
pub open spec fn model_path_checked(json: Json) -> bool {
    match json.spec_get("step_model"@) {
        Some(m) => m.str_at("filepath"@) is Some && or_else(m.bool_at("embed"@), true),
        None => json.present("model_3d"@) is Some,
    }
}

/// The model a footprint names: a step model with a file path, embedded
/// unless `embed` is false; otherwise a replayed `model_3d` by its path.
pub open spec fn model_of(json: Json) -> ModelView {
    match json.spec_get("step_model"@) {
        Some(m) => match m.str_at("filepath"@) {
            Some(p) => if or_else(m.bool_at("embed"@), true) {
                ModelView::Embedded(p)
            } else {
                ModelView::External(p)
            },
            None => ModelView::NoModel,
        },
        None => match json.present("model_3d"@) {
            Some(m) => ModelView::Replayed(or_else(m.str_at("filepath"@), Seq::empty())),
            None => ModelView::NoModel,
        },
    }
}

/// The unknown-key error of the model object, if any.
pub open spec fn model_unknown(json: Json, allowed: Seq<&str>) -> Option<Seq<char>> {
    match model_object(json) {
        Some(m) => unknown_field_error(m, allowed),
        None => None,
    }
}

/// The record list `k` of a footprint (pads, tracks, vias, fills, arcs,
/// regions, texts, component bodies) is readable whole.
pub open spec fn footprint_list_ok(json: Json, keys: FootprintKeys, checks: FootprintChecks, k: int) -> bool {
    if k == 0 {
        all_checked(McpServer::read_pad, list_at(json, "pads"@), checks.pads@, keys.pad@)
    } else if k == 1 {
        all_checked(McpServer::read_track, list_at(json, "tracks"@), checks.tracks@, keys.track@)
    } else if k == 2 {
        all_checked(McpServer::read_via, list_at(json, "vias"@), checks.vias@, keys.via@)
    } else if k == 3 {
        all_checked(McpServer::read_fill, list_at(json, "fills"@), checks.fills@, keys.fill@)
    } else if k == 4 {
        all_checked(McpServer::read_arc, list_at(json, "arcs"@), checks.arcs@, keys.arc@)
    } else if k == 5 {
        all_checked(McpServer::read_region, list_at(json, "regions"@), checks.regions@, keys.region@)
    } else if k == 6 {
        all_checked(McpServer::parse_text, list_at(json, "text"@), checks.texts@, keys.text@)
    } else {
        all_checked(McpServer::parse_component_body_fields, list_at(json, "component_bodies"@), checks.component_bodies@, keys.component_body@)
    }
}

/// The record list `k` of a footprint refuses it with `e`.
pub open spec fn footprint_list_refuses(
    json: Json,
    keys: FootprintKeys,
    checks: FootprintChecks,
    operation: Seq<char>,
    filepath: Seq<char>,
    name: Seq<char>,
    k: int,
    e: Refusal,
) -> bool {
    if k == 0 {
        list_refuses_checked(McpServer::read_pad, list_at(json, "pads"@), checks.pads@, keys.pad@, operation, filepath, name, "pad"@, false, e)
    } else if k == 1 {
        list_refuses_checked(McpServer::read_track, list_at(json, "tracks"@), checks.tracks@, keys.track@, operation, filepath, name, "track"@, false, e)
    } else if k == 2 {
        list_refuses_checked(McpServer::read_via, list_at(json, "vias"@), checks.vias@, keys.via@, operation, filepath, name, "via"@, false, e)
    } else if k == 3 {
        list_refuses_checked(McpServer::read_fill, list_at(json, "fills"@), checks.fills@, keys.fill@, operation, filepath, name, "fill"@, false, e)
    } else if k == 4 {
        list_refuses_checked(McpServer::read_arc, list_at(json, "arcs"@), checks.arcs@, keys.arc@, operation, filepath, name, "arc"@, false, e)
    } else if k == 5 {
        list_refuses_checked(McpServer::read_region, list_at(json, "regions"@), checks.regions@, keys.region@, operation, filepath, name, "region"@, true, e)
    } else if k == 6 {
        list_refuses_checked(McpServer::parse_text, list_at(json, "text"@), checks.texts@, keys.text@, operation, filepath, name, "text"@, true, e)
    } else {
        list_refuses_checked(McpServer::parse_component_body_fields, list_at(json, "component_bodies"@), checks.component_bodies@, keys.component_body@, operation, filepath, name, "component body"@, false, e)
    }
}

/// `parts` holds what each record's reader gives for the footprint's records.
pub open spec fn footprint_read_as(json: Json, parts: FootprintParts) -> bool {
    &&& read_as_checked(McpServer::read_pad, list_at(json, "pads"@), parts.pads@)
    &&& read_as_checked(McpServer::read_track, list_at(json, "tracks"@), parts.tracks@)
    &&& read_as_checked(McpServer::read_via, list_at(json, "vias"@), parts.vias@)
    &&& read_as_checked(McpServer::read_fill, list_at(json, "fills"@), parts.fills@)
    &&& read_as_checked(McpServer::read_arc, list_at(json, "arcs"@), parts.arcs@)
    &&& read_as_checked(McpServer::read_region, list_at(json, "regions"@), parts.regions@)
    &&& read_as_checked(McpServer::parse_text, list_at(json, "text"@), parts.texts@)
    &&& read_as_checked(McpServer::parse_component_body_fields, list_at(json, "component_bodies"@), parts.component_bodies@)
}

/// A footprint object is accepted: its keys are allowed, its height (if
/// given) is a length, every record list reads whole and unrefused, its
/// model's keys are allowed and its path unrefused where it is checked, its
/// GUID is well formed and the caller accepts the whole.
pub open spec fn footprint_accepted(json: Json, keys: FootprintKeys, checks: FootprintChecks, default_name: Seq<char>) -> bool {
    &&& unknown_field_error(json, keys.footprint@) is None
    &&& !height_refused(json)
    &&& forall|k: int| 0 <= k < 8 ==> #[trigger] footprint_list_ok(json, keys, checks, k)
    &&& model_unknown(json, keys.model@) is None
    &&& !(model_path_checked(json) && checks.model_path is Some)
    &&& guid_field_result(json, "guid"@, "Footprint '"@ + footprint_name(json, default_name) + "' guid"@) is Ok
    &&& checks.footprint is None
}

/// What refuses a footprint object, in the order it is read: a key the
/// footprint does not accept; its height; the first record list (pads to
/// texts) that refuses; its model's keys or path; its component bodies; its
/// GUID; the caller's refusal of the whole.
pub open spec fn footprint_refuses(
    json: Json,
    keys: FootprintKeys,
    checks: FootprintChecks,
    operation: Seq<char>,
    filepath: Seq<char>,
    default_name: Seq<char>,
    e: Refusal,
) -> bool {
    let name = footprint_name(json, default_name);
    let guid = guid_field_result(json, "guid"@, "Footprint '"@ + name + "' guid"@);
    match unknown_field_error(json, keys.footprint@) {
        Some(msg) => e matches Refusal::UnknownField(m) && m@ == msg,
        None => if height_refused(json) {
            e matches Refusal::Plain(m) && m@ == height_message(name)
        } else if !(forall|k: int| 0 <= k < 7 ==> #[trigger] footprint_list_ok(json, keys, checks, k)) {
            exists|k: int|
                0 <= k < 7 && (forall|j: int| 0 <= j < k ==> #[trigger] footprint_list_ok(json, keys, checks, j))
                    && footprint_list_refuses(json, keys, checks, operation, filepath, name, k, e)
        } else if model_unknown(json, keys.model@) is Some {
            e matches Refusal::UnknownField(m) && Some(m@) == model_unknown(json, keys.model@)
        } else if model_path_checked(json) && checks.model_path is Some {
            e matches Refusal::Plain(m) && m@ == checks.model_path->0@
        } else if !footprint_list_ok(json, keys, checks, 7) {
            footprint_list_refuses(json, keys, checks, operation, filepath, name, 7, e)
        } else if guid is Err {
            e matches Refusal::Plain(m) && m@ == guid->Err_0
        } else {
            e matches Refusal::Plain(m) && Some(m@) == (match checks.footprint {
                Some(f) => Some(f@),
                None => None,
            })
        }
    }
}

/// Every text record's font names fit in memory twice over.
pub open spec fn text_fonts_fit(json: Json) -> bool {
    forall|i: int| 0 <= i < list_at(json, "text"@).len() ==> font_names_fit(#[trigger] list_at(json, "text"@)[i])
}


fn length_value(v: &Json) -> (b: bool)
    ensures
        b == is_length(*v),
{
    match &v.node {
        JsonNode::PosInt(_) => true,
        JsonNode::Float => {
            let cs = chars_of(v.text.as_str());
            let negative = cs.len() > 0 && cs[0] == '-';
            !negative || crate::text::str_eq(v.text.as_str(), "-0.0")
        },
        _ => false,
    }
}

fn height_error(name: &str) -> (e: String)
    ensures
        e@ == height_message(name@),
{
    let mut e = String::new();
    push_str(&mut e, "Footprint '");
    push_str(&mut e, name);
    push_str(&mut e, "' height must be a finite number of millimetres, zero or more");
    e
}

fn guid_field_name(name: &str) -> (e: String)
    ensures
        e@ == "Footprint '"@ + name@ + "' guid"@,
{
    let mut e = String::new();
    push_str(&mut e, "Footprint '");
    push_str(&mut e, name);
    push_str(&mut e, "' guid");
    e
}

impl McpServer {
    /// Reads a whole footprint object of a write or update request: the
    /// footprint is held to its allowed keys and its height (when given) to
    /// a length of zero or more; then its pads, tracks, vias, fills, arcs,
    /// regions and texts in turn, each record held to its kind's keys, read
    /// by its kind's reader and held to the caller's refusal of it (pads to
    /// arcs, and component bodies, report the reader's reason itself; regions
    /// and texts report it as malformed); then its 3D model (`step_model`
    /// before `model_3d`; a step model is embedded unless `embed` is false,
    /// and the path of an embedded or replayed model is held to the caller's
    /// refusal of it); then its component bodies, its GUID and the caller's
    /// refusal of the whole. Records are named under the footprint's name,
    /// `default_name` when it has none. Write and update read a footprint
    /// through this one reader, so an update accepts exactly what a write
    /// does: whether it succeeds does not depend on the operation.
    pub fn parse_footprint_parts(
        json: &Json,
        keys: &FootprintKeys,
        checks: &FootprintChecks,
        operation: &str,
        filepath: &str,
        default_name: &str,
    ) -> (r: Result<FootprintParts, Refusal>)
        requires
            text_fonts_fit(*json),
        ensures
            r is Ok <==> footprint_accepted(*json, *keys, *checks, default_name@),
            r matches Ok(p) ==> {
                &&& p.name@ == footprint_name(*json, default_name@)
                &&& opt_view(p.description) == json.str_at("description"@)
                &&& footprint_read_as(*json, p)
                &&& model_ref_view(p.model) == model_of(*json)
                &&& Ok::<Option<Seq<char>>, Seq<char>>(opt_view(p.guid)) == guid_field_result(
                    *json,
                    "guid"@,
                    "Footprint '"@ + p.name@ + "' guid"@,
                )
                &&& opt_view(p.storage_name) == json.str_at("storage_name"@)
            },
            r matches Err(e) ==> footprint_refuses(*json, *keys, *checks, operation@, filepath@, default_name@, e),
    {
        if let Err(msg) = McpServer::check_unknown_fields(json, keys.footprint) {
            return Err(Refusal::UnknownField(msg));
        }
        let name: &str = match json.str_field("name") {
            Some(n) => n,
            None => default_name,
        };
        let ghost nm = footprint_name(*json, default_name@);
        assert(name@ == nm);
        let description = match json.str_field("description") {
            Some(d) => Some(d.to_string()),
            None => None,
        };
        if let Some(h) = json.get("height") {
            if !length_value(h) {
                return Err(Refusal::Plain(height_error(name)));
            }
        }
        let origin = Origin { operation, filepath, component: name };
        let ghost (op, fp) = (operation@, filepath@);
        let pads = match read_checked_records(
            crate::symbol::records_under(json, "pads"),
            checks.pads,
            keys.pad,
            McpServer::read_pad,
            &origin,
            "pad",
            false,
        ) {
            Ok(v) => v,
            Err(e) => {
                proof {
                    assert(footprint_list_refuses(*json, *keys, *checks, op, fp, nm, 0, e));
                    assert forall|i: int, v: PadRecord, reason: String|
                        #![trigger call_ensures(McpServer::read_pad, (&list_at(*json, "pads"@)[i],), Ok(v)), call_ensures(McpServer::read_pad, (&list_at(*json, "pads"@)[i],), Err(reason))]
                        0 <= i < list_at(*json, "pads"@).len() && call_ensures(McpServer::read_pad, (&list_at(*json, "pads"@)[i],), Ok(v))
                        implies !call_ensures(McpServer::read_pad, (&list_at(*json, "pads"@)[i],), Err(reason)) by {}
                    lemma_refused_checked_unreadable(
                        McpServer::read_pad,
                        list_at(*json, "pads"@),
                        checks.pads@,
                        keys.pad@,
                        op,
                        fp,
                        nm,
                        "pad"@,
                        false,
                        e,
                    );
                    assert(!footprint_list_ok(*json, *keys, *checks, 0));
                }
                return Err(e);
            },
        };
        assert(footprint_list_ok(*json, *keys, *checks, 0));
        let tracks = match read_checked_records(
            crate::symbol::records_under(json, "tracks"),
            checks.tracks,
            keys.track,
            McpServer::read_track,
            &origin,
            "track",
            false,
        ) {
            Ok(v) => v,
            Err(e) => {
                proof {
                    assert(footprint_list_refuses(*json, *keys, *checks, op, fp, nm, 1, e));
                    assert forall|i: int, v: PrimitiveTail, reason: String|
                        #![trigger call_ensures(McpServer::read_track, (&list_at(*json, "tracks"@)[i],), Ok(v)), call_ensures(McpServer::read_track, (&list_at(*json, "tracks"@)[i],), Err(reason))]
                        0 <= i < list_at(*json, "tracks"@).len() && call_ensures(McpServer::read_track, (&list_at(*json, "tracks"@)[i],), Ok(v))
                        implies !call_ensures(McpServer::read_track, (&list_at(*json, "tracks"@)[i],), Err(reason)) by {}
                    lemma_refused_checked_unreadable(
                        McpServer::read_track,
                        list_at(*json, "tracks"@),
                        checks.tracks@,
                        keys.track@,
                        op,
                        fp,
                        nm,
                        "track"@,
                        false,
                        e,
                    );
                    assert(!footprint_list_ok(*json, *keys, *checks, 1));
                }
                return Err(e);
            },
        };
        assert(footprint_list_ok(*json, *keys, *checks, 1));
        let vias = match read_checked_records(
            crate::symbol::records_under(json, "vias"),
            checks.vias,
            keys.via,
            McpServer::read_via,
            &origin,
            "via",
            false,
        ) {
            Ok(v) => v,
            Err(e) => {
                proof {
                    assert(footprint_list_refuses(*json, *keys, *checks, op, fp, nm, 2, e));
                    assert forall|i: int, v: ViaOptions, reason: String|
                        #![trigger call_ensures(McpServer::read_via, (&list_at(*json, "vias"@)[i],), Ok(v)), call_ensures(McpServer::read_via, (&list_at(*json, "vias"@)[i],), Err(reason))]
                        0 <= i < list_at(*json, "vias"@).len() && call_ensures(McpServer::read_via, (&list_at(*json, "vias"@)[i],), Ok(v))
                        implies !call_ensures(McpServer::read_via, (&list_at(*json, "vias"@)[i],), Err(reason)) by {}
                    lemma_refused_checked_unreadable(
                        McpServer::read_via,
                        list_at(*json, "vias"@),
                        checks.vias@,
                        keys.via@,
                        op,
                        fp,
                        nm,
                        "via"@,
                        false,
                        e,
                    );
                    assert(!footprint_list_ok(*json, *keys, *checks, 2));
                }
                return Err(e);
            },
        };
        assert(footprint_list_ok(*json, *keys, *checks, 2));
        let fills = match read_checked_records(
            crate::symbol::records_under(json, "fills"),
            checks.fills,
            keys.fill,
            McpServer::read_fill,
            &origin,
            "fill",
            false,
        ) {
            Ok(v) => v,
            Err(e) => {
                proof {
                    assert(footprint_list_refuses(*json, *keys, *checks, op, fp, nm, 3, e));
                    assert forall|i: int, v: PrimitiveTail, reason: String|
                        #![trigger call_ensures(McpServer::read_fill, (&list_at(*json, "fills"@)[i],), Ok(v)), call_ensures(McpServer::read_fill, (&list_at(*json, "fills"@)[i],), Err(reason))]
                        0 <= i < list_at(*json, "fills"@).len() && call_ensures(McpServer::read_fill, (&list_at(*json, "fills"@)[i],), Ok(v))
                        implies !call_ensures(McpServer::read_fill, (&list_at(*json, "fills"@)[i],), Err(reason)) by {}
                    lemma_refused_checked_unreadable(
                        McpServer::read_fill,
                        list_at(*json, "fills"@),
                        checks.fills@,
                        keys.fill@,
                        op,
                        fp,
                        nm,
                        "fill"@,
                        false,
                        e,
                    );
                    assert(!footprint_list_ok(*json, *keys, *checks, 3));
                }
                return Err(e);
            },
        };
        assert(footprint_list_ok(*json, *keys, *checks, 3));
        let arcs = match read_checked_records(
            crate::symbol::records_under(json, "arcs"),
            checks.arcs,
            keys.arc,
            McpServer::read_arc,
            &origin,
            "arc",
            false,
        ) {
            Ok(v) => v,
            Err(e) => {
                proof {
                    assert(footprint_list_refuses(*json, *keys, *checks, op, fp, nm, 4, e));
                    assert forall|i: int, v: PrimitiveTail, reason: String|
                        #![trigger call_ensures(McpServer::read_arc, (&list_at(*json, "arcs"@)[i],), Ok(v)), call_ensures(McpServer::read_arc, (&list_at(*json, "arcs"@)[i],), Err(reason))]
                        0 <= i < list_at(*json, "arcs"@).len() && call_ensures(McpServer::read_arc, (&list_at(*json, "arcs"@)[i],), Ok(v))
                        implies !call_ensures(McpServer::read_arc, (&list_at(*json, "arcs"@)[i],), Err(reason)) by {}
                    lemma_refused_checked_unreadable(
                        McpServer::read_arc,
                        list_at(*json, "arcs"@),
                        checks.arcs@,
                        keys.arc@,
                        op,
                        fp,
                        nm,
                        "arc"@,
                        false,
                        e,
                    );
                    assert(!footprint_list_ok(*json, *keys, *checks, 4));
                }
                return Err(e);
            },
        };
        assert(footprint_list_ok(*json, *keys, *checks, 4));
        let regions = match read_checked_records(
            crate::symbol::records_under(json, "regions"),
            checks.regions,
            keys.region,
            McpServer::read_region,
            &origin,
            "region",
            true,
        ) {
            Ok(v) => v,
            Err(e) => {
                proof {
                    assert(footprint_list_refuses(*json, *keys, *checks, op, fp, nm, 5, e));
                    assert forall|i: int, v: RegionRecord, reason: String|
                        #![trigger call_ensures(McpServer::read_region, (&list_at(*json, "regions"@)[i],), Ok(v)), call_ensures(McpServer::read_region, (&list_at(*json, "regions"@)[i],), Err(reason))]
                        0 <= i < list_at(*json, "regions"@).len() && call_ensures(McpServer::read_region, (&list_at(*json, "regions"@)[i],), Ok(v))
                        implies !call_ensures(McpServer::read_region, (&list_at(*json, "regions"@)[i],), Err(reason)) by {}
                    lemma_refused_checked_unreadable(
                        McpServer::read_region,
                        list_at(*json, "regions"@),
                        checks.regions@,
                        keys.region@,
                        op,
                        fp,
                        nm,
                        "region"@,
                        true,
                        e,
                    );
                    assert(!footprint_list_ok(*json, *keys, *checks, 5));
                }
                return Err(e);
            },
        };
        assert(footprint_list_ok(*json, *keys, *checks, 5));
        proof {
            assert forall|i: int| 0 <= i < list_at(*json, "text"@).len() implies call_requires(McpServer::parse_text, (&list_at(*json, "text"@)[i],)) by {
                assert(font_names_fit(list_at(*json, "text"@)[i]));
            }
        }
        let texts = match read_checked_records(
            crate::symbol::records_under(json, "text"),
            checks.texts,
            keys.text,
            McpServer::parse_text,
            &origin,
            "text",
            true,
        ) {
            Ok(v) => v,
            Err(e) => {
                proof {
                    assert(footprint_list_refuses(*json, *keys, *checks, op, fp, nm, 6, e));
                    assert forall|i: int, v: TextFields, reason: String|
                        #![trigger call_ensures(McpServer::parse_text, (&list_at(*json, "text"@)[i],), Ok(v)), call_ensures(McpServer::parse_text, (&list_at(*json, "text"@)[i],), Err(reason))]
                        0 <= i < list_at(*json, "text"@).len() && call_ensures(McpServer::parse_text, (&list_at(*json, "text"@)[i],), Ok(v))
                        implies !call_ensures(McpServer::parse_text, (&list_at(*json, "text"@)[i],), Err(reason)) by {
                        assert(font_names_fit(list_at(*json, "text"@)[i]));
                    }
                    lemma_refused_checked_unreadable(
                        McpServer::parse_text,
                        list_at(*json, "text"@),
                        checks.texts@,
                        keys.text@,
                        op,
                        fp,
                        nm,
                        "text"@,
                        true,
                        e,
                    );
                    assert(!footprint_list_ok(*json, *keys, *checks, 6));
                }
                return Err(e);
            },
        };
        assert(footprint_list_ok(*json, *keys, *checks, 6));
        let model = match json.get("step_model") {
            Some(m) => {
                if let Err(msg) = McpServer::check_unknown_fields(m, keys.model) {
                    return Err(Refusal::UnknownField(msg));
                }
                match m.str_field("filepath") {
                    Some(path) => {
                        let embed = match m.bool_field("embed") {
                            Some(b) => b,
                            None => true,
                        };
                        if embed {
                            if let Some(refusal) = checks.model_path {
                                return Err(Refusal::Plain(refusal.to_string()));
                            }
                            ModelRef::Embedded(path.to_string())
                        } else {
                            ModelRef::External(path.to_string())
                        }
                    },
                    None => ModelRef::NoModel,
                }
            },
            None => match json.present_field("model_3d") {
                Some(m) => {
                    if let Err(msg) = McpServer::check_unknown_fields(m, keys.model) {
                        return Err(Refusal::UnknownField(msg));
                    }
                    if let Some(refusal) = checks.model_path {
                        return Err(Refusal::Plain(refusal.to_string()));
                    }
                    let path = match m.str_field("filepath") {
                        Some(p) => p.to_string(),
                        None => String::new(),
                    };
                    ModelRef::Replayed(path)
                },
                None => ModelRef::NoModel,
            },
        };
        let component_bodies = match read_checked_records(
            crate::symbol::records_under(json, "component_bodies"),
            checks.component_bodies,
            keys.component_body,
            McpServer::parse_component_body_fields,
            &origin,
            "component body",
            false,
        ) {
            Ok(v) => v,
            Err(e) => {
                proof {
                    assert(footprint_list_refuses(*json, *keys, *checks, op, fp, nm, 7, e));
                    assert forall|i: int, v: BodyFields, reason: String|
                        #![trigger call_ensures(McpServer::parse_component_body_fields, (&list_at(*json, "component_bodies"@)[i],), Ok(v)), call_ensures(McpServer::parse_component_body_fields, (&list_at(*json, "component_bodies"@)[i],), Err(reason))]
                        0 <= i < list_at(*json, "component_bodies"@).len() && call_ensures(McpServer::parse_component_body_fields, (&list_at(*json, "component_bodies"@)[i],), Ok(v))
                        implies !call_ensures(McpServer::parse_component_body_fields, (&list_at(*json, "component_bodies"@)[i],), Err(reason)) by {}
                    lemma_refused_checked_unreadable(
                        McpServer::parse_component_body_fields,
                        list_at(*json, "component_bodies"@),
                        checks.component_bodies@,
                        keys.component_body@,
                        op,
                        fp,
                        nm,
                        "component body"@,
                        false,
                        e,
                    );
                    assert(!footprint_list_ok(*json, *keys, *checks, 7));
                }
                return Err(e);
            },
        };
        assert(footprint_list_ok(*json, *keys, *checks, 7));
        let guid = match guid_field(json, "guid", guid_field_name(name).as_str()) {
            Ok(g) => g,
            Err(e) => return Err(Refusal::Plain(e)),
        };
        if let Some(f) = checks.footprint {
            return Err(Refusal::Plain(f.to_string()));
        }
        let storage_name = match json.str_field("storage_name") {
            Some(n) => Some(n.to_string()),
            None => None,
        };
        Ok(FootprintParts {
            name: name.to_string(),
            description,
            pads,
            tracks,
            vias,
            fills,
            arcs,
            regions,
            texts,
            component_bodies,
            model,
            guid,
            storage_name,
        })
    }
}

} // verus!
