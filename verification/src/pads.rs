//! The parts of reading a pad that decide without its fractional geometry:
//! the required fields, the shape (with its default), and the per-layer
//! shapes and corner radii a pad stack holds, each refused by index when
//! it is not what the record can store.
use vstd::prelude::*;
use crate::McpServer;
use crate::accepted::{
    HOLE_SHAPES, HOLE_SHAPE_SYNONYMS, MASK_EXPANSION_MODES, POWER_PLANE_CONNECT_STYLES, STACK_MODES,
};
use crate::fields::{
    guid_field, guid_field_result, opt_view, percent, percent_result,
    stack_entries, stack_entries_result, PadStackMode,
};
use crate::records::or_else;
use crate::text::str_views;
use crate::vocab::{enum_field, enum_field_result, opt_string_result_view, pair_views};
use crate::json::{Json, JsonNode};
use crate::shapes::number_at;
use crate::text::{chars_of, decimal, push_str, str_eq, trim, trim_bounds, u64_text};
use crate::vocab::{pad_shape_of, without_dashes, str_lowercase, PadShape};

verus! {

/// The shapes a pad accepts, quoted where a shape is refused.
pub const PAD_SHAPE_HELP: &'static str = "Valid shapes are: rectangle (or rectangular), round (or circle), oval, octagonal, rounded_rectangle. Matching is case-insensitive and ignores '_'/'-' separators.";

/// `Pad '<designator>' <key>`, the name a pad error gives a pad's field.
pub open spec fn pad_field(designator: Seq<char>, key: Seq<char>) -> Seq<char> {
    "Pad '"@ + designator + "' "@ + key
}

/// The error naming a required pad field that is missing.
pub open spec fn pad_missing(key: Seq<char>) -> Seq<char> {
    "Pad missing required field '"@ + key + "'"@
}

/// The first required field of a pad that is missing, in the order they are
/// read: the designator, which must hold more than white space, then the
/// numeric `x`, `y`, `width` and `height`.
pub open spec fn pad_required_error(json: Json) -> Option<Seq<char>> {
    match json.str_at("designator"@) {
        None => Some(pad_missing("designator"@)),
        Some(d) => if trim(d).len() == 0 {
            Some("Pad designator cannot be empty"@)
        } else if !number_at(json, "x"@) {
            Some(pad_missing("x"@))
        } else if !number_at(json, "y"@) {
            Some(pad_missing("y"@))
        } else if !number_at(json, "width"@) {
            Some(pad_missing("width"@))
        } else if !number_at(json, "height"@) {
            Some(pad_missing("height"@))
        } else {
            None
        },
    }
}

fn number(json: &Json, key: &str) -> (r: bool)
    ensures
        r == number_at(*json, key@),
{
    match json.get(key) {
        Some(v) => match &v.node {
            JsonNode::PosInt(_) => true,
            JsonNode::NegInt(_) => true,
            JsonNode::Float => true,
            _ => false,
        },
        None => false,
    }
}

fn missing(key: &str) -> (e: String)
    ensures
        e@ == pad_missing(key@),
{
    let mut e = String::new();
    push_str(&mut e, "Pad missing required field '");
    push_str(&mut e, key);
    push_str(&mut e, "'");
    e
}

impl McpServer {
    /// A pad's designator, once the pad's required fields are all present:
    /// a designator that is more than white space, and numeric `x`, `y`,
    /// `width` and `height`. The first one missing is named in the error.
    pub fn pad_designator(json: &Json) -> (r: Result<&str, String>)
        ensures
            r is Err <==> pad_required_error(*json) is Some,
            r matches Err(e) ==> pad_required_error(*json) == Some(e@),
            r matches Ok(d) ==> json.str_at("designator"@) == Some(d@),
    {
        let designator = match json.str_field("designator") {
            Some(d) => d,
            None => {
                let e = missing("designator");
                return Err(e);
            },
        };
        let v = chars_of(designator);
        let (i, j) = trim_bounds(v.as_slice());
        if i == j {
            return Err("Pad designator cannot be empty".to_string());
        }
        if !number(json, "x") {
            let e = missing("x");
            return Err(e);
        }
        if !number(json, "y") {
            let e = missing("y");
            return Err(e);
        }
        if !number(json, "width") {
            let e = missing("width");
            return Err(e);
        }
        if !number(json, "height") {
            let e = missing("height");
            return Err(e);
        }
        Ok(designator)
    }
}

// ---------------------------------------------------------------- the shape

/// The shape a pad's `shape` field gives: `rounded_rectangle` when it is
/// absent or not a string, else the shape its name resolves to, or the error
/// naming the pad and the name.
pub open spec fn pad_shape_result(json: Json, designator: Seq<char>) -> Result<PadShape, Seq<char>> {
    let name = match json.str_at("shape"@) {
        Some(s) => s,
        None => "rounded_rectangle"@,
    };
    match pad_shape_of(without_dashes(str_lowercase(name))) {
        Some(shape) => Ok(shape),
        None => Err("Pad '"@ + designator + "' has invalid shape '"@ + name + "'. "@
            + PAD_SHAPE_HELP@),
    }
}

impl McpServer {
    /// A pad's shape. Omitting `shape` gives a rounded rectangle, which suits
    /// chip lands but not the circular lands of a ball-grid array, which
    /// must ask for `round`.
    pub fn pad_shape(json: &Json, designator: &str) -> (r: Result<PadShape, String>)
        ensures
            (match r {
                Ok(s) => Ok(s),
                Err(e) => Err(e@),
            }) == pad_shape_result(*json, designator@),
    {
        let name = match json.str_field("shape") {
            Some(s) => s,
            None => "rounded_rectangle",
        };
        match McpServer::parse_pad_shape(name) {
            Some(shape) => Ok(shape),
            None => {
                let mut e = String::new();
                push_str(&mut e, "Pad '");
                push_str(&mut e, designator);
                push_str(&mut e, "' has invalid shape '");
                push_str(&mut e, name);
                push_str(&mut e, "'. ");
                push_str(&mut e, PAD_SHAPE_HELP);
                Err(e)
            },
        }
    }
}

// ---------------------------------------------------------------- settings

/// A pad's settings besides its fractional lengths, its layer and its
/// stack: `None` where a setting keeps the pad's from-scratch default.
#[derive(Debug)]
pub struct PadSettings {
    pub is_plated: bool,
    /// By its accepted name.
    pub hole_shape: Option<String>,
    /// By its accepted name.
    pub paste_mask_expansion_mode: Option<String>,
    /// By its accepted name.
    pub solder_mask_expansion_mode: Option<String>,
    pub corner_radius_percent: Option<u8>,
    /// By its accepted name.
    pub power_plane_connect_style: Option<String>,
    pub relief_entries: i16,
    pub jumper_id: i16,
    pub solder_mask_expansion_from_hole_edge: bool,
}

/// What an enum-valued pad field gives.
pub open spec fn pad_enum(
    json: Json,
    designator: Seq<char>,
    key: Seq<char>,
    accepted: Seq<&str>,
    synonyms: Seq<(&str, &str)>,
) -> Result<Option<Seq<char>>, Seq<char>> {
    enum_field_result(json, key, pad_field(designator, key), str_views(accepted), pair_views(synonyms))
}

/// What a pad's `corner_radius_percent` gives: none when absent or `null`.
pub open spec fn corner_radius(json: Json, designator: Seq<char>) -> Result<Option<u8>, Seq<char>> {
    match json.present("corner_radius_percent"@) {
        None => Ok(None),
        Some(v) => match percent_result(v, pad_field(designator, "corner_radius_percent"@)) {
            Ok(p) => Ok(Some(p)),
            Err(e) => Err(e),
        },
    }
}

/// The first error a pad's settings are refused with, in the order they
/// are read.
pub open spec fn pad_settings_error(json: Json, d: Seq<char>) -> Option<Seq<char>> {
    if pad_enum(json, d, "hole_shape"@, HOLE_SHAPES@, HOLE_SHAPE_SYNONYMS@) is Err {
        Some(pad_enum(json, d, "hole_shape"@, HOLE_SHAPES@, HOLE_SHAPE_SYNONYMS@)->Err_0)
    } else if pad_enum(json, d, "paste_mask_expansion_mode"@, MASK_EXPANSION_MODES@, Seq::empty()) is Err {
        Some(pad_enum(json, d, "paste_mask_expansion_mode"@, MASK_EXPANSION_MODES@, Seq::empty())->Err_0)
    } else if pad_enum(json, d, "solder_mask_expansion_mode"@, MASK_EXPANSION_MODES@, Seq::empty()) is Err {
        Some(pad_enum(json, d, "solder_mask_expansion_mode"@, MASK_EXPANSION_MODES@, Seq::empty())->Err_0)
    } else if corner_radius(json, d) is Err {
        Some(corner_radius(json, d)->Err_0)
    } else if pad_enum(json, d, "power_plane_connect_style"@, POWER_PLANE_CONNECT_STYLES@, Seq::empty()) is Err {
        Some(pad_enum(json, d, "power_plane_connect_style"@, POWER_PLANE_CONNECT_STYLES@, Seq::empty())->Err_0)
    } else {
        None
    }
}

/// The member `key` read as a signed integer that fits an `i16`.
pub open spec fn i16_at(json: Json, key: Seq<char>) -> Option<i16> {
    match json.i64_at(key) {
        Some(v) => if i16::MIN <= v && v <= i16::MAX {
            Some(v as i16)
        } else {
            None
        },
        None => None,
    }
}

fn pad_enum_field(
    json: &Json,
    designator: &str,
    key: &str,
    accepted: &[&'static str],
    synonyms: &[(&'static str, &'static str)],
) -> (r: Result<Option<String>, String>)
    ensures
        opt_string_result_view(r) == pad_enum(*json, designator@, key@, accepted@, synonyms@),
{
    let field = pad_field_text(designator, key);
    enum_field(json, key, field.as_str(), accepted, synonyms)
}

fn i16_field(json: &Json, key: &str) -> (r: Option<i16>)
    ensures
        r == i16_at(*json, key@),
{
    match json.i64_field(key) {
        Some(v) => if -32768 <= v && v <= 32767 {
            Some(v as i16)
        } else {
            None
        },
        None => None,
    }
}

impl McpServer {
    /// Reads a pad's settings: the hole shape, the two mask-expansion modes,
    /// the corner-radius percentage and the power-plane connection style,
    /// each refused (naming the pad and the field) when it names nothing
    /// accepted or is out of range; plating (on by default), the relief
    /// entry count (4), the jumper id (0) and the hole-edge mask flag (off).
    pub fn pad_settings(json: &Json, designator: &str) -> (r: Result<PadSettings, String>)
        ensures
            r is Err <==> pad_settings_error(*json, designator@) is Some,
            r matches Err(e) ==> pad_settings_error(*json, designator@) == Some(e@),
            r matches Ok(p) ==> {
                &&& p.is_plated == or_else(json.bool_at("is_plated"@), true)
                &&& opt_view(p.hole_shape) == pad_enum(
                    *json,
                    designator@,
                    "hole_shape"@,
                    HOLE_SHAPES@,
                    HOLE_SHAPE_SYNONYMS@,
                )->Ok_0
                &&& opt_view(p.paste_mask_expansion_mode) == pad_enum(
                    *json,
                    designator@,
                    "paste_mask_expansion_mode"@,
                    MASK_EXPANSION_MODES@,
                    Seq::empty(),
                )->Ok_0
                &&& opt_view(p.solder_mask_expansion_mode) == pad_enum(
                    *json,
                    designator@,
                    "solder_mask_expansion_mode"@,
                    MASK_EXPANSION_MODES@,
                    Seq::empty(),
                )->Ok_0
                &&& p.corner_radius_percent == corner_radius(*json, designator@)->Ok_0
                &&& opt_view(p.power_plane_connect_style) == pad_enum(
                    *json,
                    designator@,
                    "power_plane_connect_style"@,
                    POWER_PLANE_CONNECT_STYLES@,
                    Seq::empty(),
                )->Ok_0
                &&& p.relief_entries == or_else(i16_at(*json, "relief_entries"@), 4i16)
                &&& p.jumper_id == or_else(
                    i16_at(*json, "jumper_id"@),
                    0i16,
                )
                &&& p.solder_mask_expansion_from_hole_edge == or_else(
                    json.bool_at("solder_mask_expansion_from_hole_edge"@),
                    false,
                )
            },
    {
        let hole_shape = match pad_enum_field(json, designator, "hole_shape", &HOLE_SHAPES, &HOLE_SHAPE_SYNONYMS) {
            Ok(v) => v,
            Err(e) => return Err(e),
        };
        let paste_mask_expansion_mode = match pad_enum_field(
            json,
            designator,
            "paste_mask_expansion_mode",
            &MASK_EXPANSION_MODES,
            &[],
        ) {
            Ok(v) => v,
            Err(e) => return Err(e),
        };
        let solder_mask_expansion_mode = match pad_enum_field(
            json,
            designator,
            "solder_mask_expansion_mode",
            &MASK_EXPANSION_MODES,
            &[],
        ) {
            Ok(v) => v,
            Err(e) => return Err(e),
        };
        let corner_radius_percent = match json.present_field("corner_radius_percent") {
            None => None,
            Some(v) => {
                let field = pad_field_text(designator, "corner_radius_percent");
                match percent(v, field.as_str()) {
                    Ok(p) => Some(p),
                    Err(e) => return Err(e),
                }
            },
        };
        let power_plane_connect_style = match pad_enum_field(
            json,
            designator,
            "power_plane_connect_style",
            &POWER_PLANE_CONNECT_STYLES,
            &[],
        ) {
            Ok(v) => v,
            Err(e) => return Err(e),
        };
        Ok(PadSettings {
            is_plated: match json.bool_field("is_plated") {
                Some(b) => b,
                None => true,
            },
            hole_shape,
            paste_mask_expansion_mode,
            solder_mask_expansion_mode,
            corner_radius_percent,
            power_plane_connect_style,
            relief_entries: match i16_field(json, "relief_entries") {
                Some(v) => v,
                None => 4,
            },
            jumper_id: match i16_field(json, "jumper_id") {
                Some(v) => v,
                None => 0,
            },
            solder_mask_expansion_from_hole_edge: match json.bool_field(
                "solder_mask_expansion_from_hole_edge",
            ) {
                Some(b) => b,
                None => false,
            },
        })
    }
}

// ---------------------------------------------------------------- identity and stack mode

/// A pad's identity GUIDs and stack mode.
#[derive(Debug)]
pub struct PadIdentity {
    pub identity_guid: Option<String>,
    pub identity_guid_b: Option<String>,
    pub stack_mode: PadStackMode,
}

/// The stack mode an accepted name stands for; `simple` for any other.
pub open spec fn stack_mode_named(name: Seq<char>) -> PadStackMode {
    if name == "top_middle_bottom"@ {
        PadStackMode::TopMiddleBottom
    } else if name == "full_stack"@ {
        PadStackMode::FullStack
    } else {
        PadStackMode::Simple
    }
}

/// The first error a pad's identity GUIDs and stack mode are refused with.
pub open spec fn pad_identity_error(json: Json, d: Seq<char>) -> Option<Seq<char>> {
    if guid_field_result(json, "identity_guid"@, pad_field(d, "identity_guid"@)) is Err {
        Some(guid_field_result(json, "identity_guid"@, pad_field(d, "identity_guid"@))->Err_0)
    } else if guid_field_result(json, "identity_guid_b"@, pad_field(d, "identity_guid_b"@)) is Err {
        Some(guid_field_result(json, "identity_guid_b"@, pad_field(d, "identity_guid_b"@))->Err_0)
    } else if pad_enum(json, d, "stack_mode"@, STACK_MODES@, Seq::empty()) is Err {
        Some(pad_enum(json, d, "stack_mode"@, STACK_MODES@, Seq::empty())->Err_0)
    } else {
        None
    }
}

impl McpServer {
    /// Reads a pad's identity GUIDs (kept verbatim in any spelling of their
    /// hex digits, so a rewrite keeps the pad's identity) and its stack mode
    /// (`simple` when absent); a malformed GUID or an unknown mode is refused.
    pub fn pad_identity(json: &Json, designator: &str) -> (r: Result<PadIdentity, String>)
        ensures
            r is Err <==> pad_identity_error(*json, designator@) is Some,
            r matches Err(e) ==> pad_identity_error(*json, designator@) == Some(e@),
            r matches Ok(p) ==> {
                &&& opt_view(p.identity_guid) == guid_field_result(
                    *json,
                    "identity_guid"@,
                    pad_field(designator@, "identity_guid"@),
                )->Ok_0
                &&& opt_view(p.identity_guid_b) == guid_field_result(
                    *json,
                    "identity_guid_b"@,
                    pad_field(designator@, "identity_guid_b"@),
                )->Ok_0
                &&& p.stack_mode == (match pad_enum(
                    *json,
                    designator@,
                    "stack_mode"@,
                    STACK_MODES@,
                    Seq::empty(),
                ) {
                    Ok(Some(name)) => stack_mode_named(name),
                    _ => PadStackMode::Simple,
                })
            },
    {
        let field = pad_field_text(designator, "identity_guid");
        let identity_guid = match guid_field(json, "identity_guid", field.as_str()) {
            Ok(g) => g,
            Err(e) => return Err(e),
        };
        let field = pad_field_text(designator, "identity_guid_b");
        let identity_guid_b = match guid_field(json, "identity_guid_b", field.as_str()) {
            Ok(g) => g,
            Err(e) => return Err(e),
        };
        let stack_mode = match pad_enum_field(json, designator, "stack_mode", &STACK_MODES, &[]) {
            Ok(Some(name)) => if crate::text::str_eq(name.as_str(), "top_middle_bottom") {
                PadStackMode::TopMiddleBottom
            } else if crate::text::str_eq(name.as_str(), "full_stack") {
                PadStackMode::FullStack
            } else {
                PadStackMode::Simple
            },
            Ok(None) => PadStackMode::Simple,
            Err(e) => return Err(e),
        };
        Ok(PadIdentity { identity_guid, identity_guid_b, stack_mode })
    }
}

// ---------------------------------------------------------------- per-layer shapes

/// `<field>[<i>]`, the name of one entry of a per-layer array.
pub open spec fn entry_field(field: Seq<char>, i: nat) -> Seq<char> {
    field + "["@ + decimal(i) + "]"@
}

/// What one per-layer shape entry gives.
pub open spec fn layer_shape(v: Json, field: Seq<char>, stack_mode: PadStackMode) -> Result<PadShape, Seq<char>> {
    match v.node {
        JsonNode::Str(name) => match pad_shape_of(without_dashes(str_lowercase(name@))) {
            Some(shape) => if shape == PadShape::RoundedRectangle && stack_mode
                == PadStackMode::TopMiddleBottom {
                Err(field
                    + ": rounded_rectangle needs a per-layer corner radius, which only a full_stack pad stores; a top_middle_bottom stack cannot hold it"@)
            } else {
                Ok(shape)
            },
            None => Err(field + " '"@ + name@ + "' is not a shape. "@ + PAD_SHAPE_HELP@),
        },
        _ => Err(field + " must be a string, got "@ + v.text@ + ". "@ + PAD_SHAPE_HELP@),
    }
}

/// The shapes of `entries`, or the error of the first entry that is not one.
pub open spec fn layer_shapes(entries: Seq<Json>, field: Seq<char>, stack_mode: PadStackMode) -> Result<Seq<PadShape>, Seq<char>>
    decreases entries.len(),
{
    if entries.len() == 0 {
        Ok(Seq::empty())
    } else {
        match layer_shapes(entries.drop_last(), field, stack_mode) {
            Err(e) => Err(e),
            Ok(shapes) => match layer_shape(
                entries.last(),
                entry_field(field, (entries.len() - 1) as nat),
                stack_mode,
            ) {
                Ok(s) => Ok(shapes.push(s)),
                Err(e) => Err(e),
            },
        }
    }
}

/// What a pad's `per_layer_shapes` gives: absent is `Ok(None)`; an array
/// the stack cannot hold, or an entry that is not a shape it can store, is
/// refused.
pub open spec fn per_layer_shapes_result(json: Json, designator: Seq<char>, stack_mode: PadStackMode) -> Result<Option<Seq<PadShape>>, Seq<char>> {
    let field = pad_field(designator, "per_layer_shapes"@);
    match stack_entries_result(json, "per_layer_shapes"@, stack_mode, false, field) {
        Err(e) => Err(e),
        Ok(None) => Ok(None),
        Ok(Some(entries)) => match layer_shapes(entries, field, stack_mode) {
            Ok(shapes) => Ok(Some(shapes)),
            Err(e) => Err(e),
        },
    }
}

fn indexed(field: &str, i: usize) -> (r: String)
    ensures
        r@ == entry_field(field@, i as nat),
{
    let mut r = String::new();
    push_str(&mut r, field);
    push_str(&mut r, "[");
    let n = u64_text(i as u64);
    push_str(&mut r, n.as_str());
    push_str(&mut r, "]");
    r
}

fn layer_shape_of(v: &Json, field: &str, stack_mode: PadStackMode) -> (r: Result<PadShape, String>)
    ensures
        (match r {
            Ok(s) => Ok(s),
            Err(e) => Err(e@),
        }) == layer_shape(*v, field@, stack_mode),
{
    match &v.node {
        JsonNode::Str(name) => match McpServer::parse_pad_shape(name.as_str()) {
            Some(shape) => {
                if shape == PadShape::RoundedRectangle && stack_mode == PadStackMode::TopMiddleBottom {
                    let mut e = String::new();
                    push_str(&mut e, field);
                    push_str(
                        &mut e,
                        ": rounded_rectangle needs a per-layer corner radius, which only a full_stack pad stores; a top_middle_bottom stack cannot hold it",
                    );
                    Err(e)
                } else {
                    Ok(shape)
                }
            },
            None => {
                let mut e = String::new();
                push_str(&mut e, field);
                push_str(&mut e, " '");
                push_str(&mut e, name.as_str());
                push_str(&mut e, "' is not a shape. ");
                push_str(&mut e, PAD_SHAPE_HELP);
                Err(e)
            },
        },
        _ => {
            let mut e = String::new();
            push_str(&mut e, field);
            push_str(&mut e, " must be a string, got ");
            push_str(&mut e, v.text.as_str());
            push_str(&mut e, ". ");
            push_str(&mut e, PAD_SHAPE_HELP);
            Err(e)
        },
    }
}

pub(crate) fn pad_field_text(designator: &str, key: &str) -> (r: String)
    ensures
        r@ == pad_field(designator@, key@),
{
    let mut r = String::new();
    push_str(&mut r, "Pad '");
    push_str(&mut r, designator);
    push_str(&mut r, "' ");
    push_str(&mut r, key);
    r
}

/// A pad's per-layer shapes (`per_layer_shapes`), by index: each must name a
/// shape, and a rounded rectangle needs the per-layer corner radius only a
/// full stack stores.
pub fn per_layer_shapes(json: &Json, designator: &str, stack_mode: PadStackMode) -> (r: Result<Option<Vec<PadShape>>, String>)
    ensures
        (match r {
            Ok(Some(v)) => Ok(Some(v@)),
            Ok(None) => Ok(None),
            Err(e) => Err(e@),
        }) == per_layer_shapes_result(*json, designator@, stack_mode),
{
    let field = pad_field_text(designator, "per_layer_shapes");
    let entries = match stack_entries(json, "per_layer_shapes", stack_mode, false, field.as_str()) {
        Err(e) => return Err(e),
        Ok(None) => return Ok(None),
        Ok(Some(entries)) => entries,
    };
    let mut shapes: Vec<PadShape> = Vec::new();
    let mut i: usize = 0;
    while i < entries.len()
        invariant
            i <= entries.len(),
            layer_shapes(entries@.take(i as int), field@, stack_mode) == Ok::<
                Seq<PadShape>,
                Seq<char>,
            >(shapes@),
            field@ == pad_field(designator@, "per_layer_shapes"@),
            stack_entries_result(*json, "per_layer_shapes"@, stack_mode, false, field@) == Ok::<
                Option<Seq<Json>>,
                Seq<char>,
            >(Some(entries@)),
        decreases entries.len() - i,
    {
        let name = indexed(field.as_str(), i);
        let ghost prefix = entries@.take(i + 1);
        assert(prefix.drop_last() =~= entries@.take(i as int));
        assert(prefix.last() == entries@[i as int]);
        match layer_shape_of(&entries[i], name.as_str(), stack_mode) {
            Ok(shape) => shapes.push(shape),
            Err(e) => {
                proof {
                    assert(layer_shapes(prefix, field@, stack_mode) == Err::<Seq<PadShape>, Seq<char>>(e@));
                    lemma_layer_shapes_stay_failed(entries@, field@, stack_mode, i + 1);
                }
                return Err(e);
            },
        }
        i += 1;
    }
    assert(entries@.take(entries.len() as int) =~= entries@);
    Ok(Some(shapes))
}

/// Once an entry fails, every longer prefix fails with its error.
proof fn lemma_layer_shapes_stay_failed(entries: Seq<Json>, field: Seq<char>, stack_mode: PadStackMode, k: int)
    requires
        0 <= k <= entries.len(),
        layer_shapes(entries.take(k), field, stack_mode) is Err,
    ensures
        layer_shapes(entries, field, stack_mode) == layer_shapes(entries.take(k), field, stack_mode),
    decreases entries.len() - k,
{
    if k == entries.len() {
        assert(entries.take(k) =~= entries);
    } else {
        let next = entries.take(k + 1);
        assert(next.drop_last() =~= entries.take(k));
        lemma_layer_shapes_stay_failed(entries, field, stack_mode, k + 1);
    }
}

// ---------------------------------------------------------------- per-layer corner radii

/// The percentages of `entries`, or the error of the first that is not one.
pub open spec fn layer_percents(entries: Seq<Json>, field: Seq<char>) -> Result<Seq<u8>, Seq<char>>
    decreases entries.len(),
{
    if entries.len() == 0 {
        Ok(Seq::empty())
    } else {
        match layer_percents(entries.drop_last(), field) {
            Err(e) => Err(e),
            Ok(radii) => match percent_result(
                entries.last(),
                entry_field(field, (entries.len() - 1) as nat),
            ) {
                Ok(p) => Ok(radii.push(p)),
                Err(e) => Err(e),
            },
        }
    }
}

/// What a pad's `per_layer_corner_radii` gives: absent is `Ok(None)`; only
/// a full stack holds them, and each must be a percentage.
pub open spec fn per_layer_corner_radii_result(json: Json, designator: Seq<char>, stack_mode: PadStackMode) -> Result<Option<Seq<u8>>, Seq<char>> {
    let field = pad_field(designator, "per_layer_corner_radii"@);
    match stack_entries_result(json, "per_layer_corner_radii"@, stack_mode, true, field) {
        Err(e) => Err(e),
        Ok(None) => Ok(None),
        Ok(Some(entries)) => match layer_percents(entries, field) {
            Ok(radii) => Ok(Some(radii)),
            Err(e) => Err(e),
        },
    }
}

proof fn lemma_layer_percents_stay_failed(entries: Seq<Json>, field: Seq<char>, k: int)
    requires
        0 <= k <= entries.len(),
        layer_percents(entries.take(k), field) is Err,
    ensures
        layer_percents(entries, field) == layer_percents(entries.take(k), field),
    decreases entries.len() - k,
{
    if k == entries.len() {
        assert(entries.take(k) =~= entries);
    } else {
        let next = entries.take(k + 1);
        assert(next.drop_last() =~= entries.take(k));
        lemma_layer_percents_stay_failed(entries, field, k + 1);
    }
}

/// A pad's per-layer corner radii (`per_layer_corner_radii`), by index: a
/// full stack only, each a whole percentage.
pub fn per_layer_corner_radii(json: &Json, designator: &str, stack_mode: PadStackMode) -> (r: Result<Option<Vec<u8>>, String>)
    ensures
        (match r {
            Ok(Some(v)) => Ok(Some(v@)),
            Ok(None) => Ok(None),
            Err(e) => Err(e@),
        }) == per_layer_corner_radii_result(*json, designator@, stack_mode),
{
    let field = pad_field_text(designator, "per_layer_corner_radii");
    let entries = match stack_entries(json, "per_layer_corner_radii", stack_mode, true, field.as_str()) {
        Err(e) => return Err(e),
        Ok(None) => return Ok(None),
        Ok(Some(entries)) => entries,
    };
    let mut radii: Vec<u8> = Vec::new();
    let mut i: usize = 0;
    while i < entries.len()
        invariant
            i <= entries.len(),
            layer_percents(entries@.take(i as int), field@) == Ok::<Seq<u8>, Seq<char>>(radii@),
            field@ == pad_field(designator@, "per_layer_corner_radii"@),
            stack_entries_result(*json, "per_layer_corner_radii"@, stack_mode, true, field@) == Ok::<
                Option<Seq<Json>>,
                Seq<char>,
            >(Some(entries@)),
        decreases entries.len() - i,
    {
        let name = indexed(field.as_str(), i);
        let ghost prefix = entries@.take(i + 1);
        assert(prefix.drop_last() =~= entries@.take(i as int));
        assert(prefix.last() == entries@[i as int]);
        match percent(&entries[i], name.as_str()) {
            Ok(p) => radii.push(p),
            Err(e) => {
                proof {
                    assert(layer_percents(prefix, field@) == Err::<Seq<u8>, Seq<char>>(e@));
                    lemma_layer_percents_stay_failed(entries@, field@, i + 1);
                }
                return Err(e);
            },
        }
        i += 1;
    }
    assert(entries@.take(entries.len() as int) =~= entries@);
    Ok(Some(radii))
}

} // verus!
