//! The schematic graphics other than pins, as a tool request describes
//! them: for each kind, what decides whether the record can be read at all
//! (its coordinates being numbers, its required fields present) and every
//! field it carries besides its fractional geometry, with the defaults a
//! from-scratch record takes. Coordinates, radii and angles are fractional
//! and are read by the caller.
use vstd::prelude::*;
use crate::McpServer;
use crate::accepted::{TEXT_JUSTIFICATIONS, TEXT_JUSTIFICATION_SYNONYMS};
use crate::fields::{base64_field, bounded_u64_at, i32_at, json_base64, json_i32, json_unique_id, opt_view};
use crate::json::{Json, JsonNode};
use crate::records::{
    display_flags_of, json_raw_params, or_else, pairs_view, parse_schlib_display_flags,
    raw_params_of, ShapeDisplayFlags,
};
use crate::text::str_views;
use crate::vocab::{enum_field, enum_field_result, pair_views};

verus! {

// ---------------------------------------------------------------- field readers

/// Whether the member `key` is a JSON number (integer or fractional).
pub open spec fn number_at(json: Json, key: Seq<char>) -> bool {
    match json.spec_get(key) {
        Some(v) => v.node is PosInt || v.node is NegInt || v.node is Float,
        None => false,
    }
}

/// The member `key` read as an unsigned integer, `default` when it is not
/// one, cut to its low 8 bits.
pub open spec fn u8_or(json: Json, key: Seq<char>, default: u64) -> u8 {
    or_else(json.u64_at(key), default) as u8
}

/// The member `key` read as an unsigned integer, `default` when it is not
/// one, cut to its low 32 bits.
pub open spec fn u32_or(json: Json, key: Seq<char>, default: u64) -> u32 {
    or_else(json.u64_at(key), default) as u32
}

pub(crate) fn number_field(json: &Json, key: &str) -> (r: bool)
    ensures
        r == number_at(*json, key@),
{
    match json.get(key) {
        Some(v) => match &v.node {
            JsonNode::PosInt(_) => true,
            JsonNode::NegInt(_) => true,
            JsonNode::Float => true,
            _ => false,
        },
        None => false,
    }
}

fn u8_field_or(json: &Json, key: &str, default: u64) -> (r: u8)
    ensures
        r == u8_or(*json, key@, default),
{
    let v = match json.u64_field(key) {
        Some(v) => v,
        None => default,
    };
    #[verifier::truncate]
    (v as u8)
}

fn u32_field_or(json: &Json, key: &str, default: u64) -> (r: u32)
    ensures
        r == u32_or(*json, key@, default),
{
    let v = match json.u64_field(key) {
        Some(v) => v,
        None => default,
    };
    #[verifier::truncate]
    (v as u32)
}

pub(crate) fn fitting_u8_or(json: &Json, key: &str, default: u8) -> (r: u8)
    ensures
        r == or_else(bounded_u64_at(*json, key@, 255), default as u64) as u8,
{
    match json.u64_field(key) {
        Some(v) => if v <= 255 {
            v as u8
        } else {
            default
        },
        None => default,
    }
}

fn fitting_u32_or(json: &Json, key: &str, default: u32) -> (r: u32)
    ensures
        r == or_else(bounded_u64_at(*json, key@, 4294967295), default as u64) as u32,
{
    match json.u64_field(key) {
        Some(v) => if v <= 4294967295u64 {
            v as u32
        } else {
            default
        },
        None => default,
    }
}

pub(crate) fn bool_field_or(json: &Json, key: &str, default: bool) -> (r: bool)
    ensures
        r == or_else(json.bool_at(key@), default),
{
    match json.bool_field(key) {
        Some(b) => b,
        None => default,
    }
}

fn i32_field_or(json: &Json, key: &str, default: i32) -> (r: i32)
    ensures
        r == or_else(i32_at(*json, key@), default),
{
    match json_i32(json, key) {
        Some(v) => v,
        None => default,
    }
}

fn owner_part(json: &Json) -> (r: i32)
    ensures
        r == or_else(i32_at(*json, "owner_part_id"@), 1i32),
{
    i32_field_or(json, "owner_part_id", 1)
}

fn str_field_or(json: &Json, key: &str, default: &str) -> (r: String)
    ensures
        r@ == or_else(json.str_at(key@), default@),
{
    match json.str_field(key) {
        Some(s) => s.to_string(),
        None => default.to_string(),
    }
}

// ---------------------------------------------------------------- labels

/// The fields of a schematic label besides its position and rotation,
/// which are fractional and read by the caller.
#[derive(Clone, Debug)]
pub struct Label {
    pub text: String,
    pub font_id: u8,
    pub color: u32,
    pub is_mirrored: bool,
    pub is_hidden: bool,
    pub owner_part_id: i32,
    /// The anchor, by its accepted name.
    pub justification: String,
    pub display_flags: ShapeDisplayFlags,
    pub unique_id: Option<String>,
}

/// What a label's justification field gives: its accepted name, an error,
/// or `None` when absent.
pub open spec fn label_justification(json: Json) -> Result<Option<Seq<char>>, Seq<char>> {
    enum_field_result(
        json,
        "justification"@,
        "Label justification"@,
        str_views(TEXT_JUSTIFICATIONS@),
        pair_views(TEXT_JUSTIFICATION_SYNONYMS@),
    )
}

/// The error a label is refused with, in the order its fields are read:
/// a coordinate that is not a number, a missing text, an unrecognised
/// justification.
pub open spec fn label_error(json: Json) -> Option<Seq<char>> {
    if !number_at(json, "x"@) {
        Some("Label is missing a numeric 'x'"@)
    } else if !number_at(json, "y"@) {
        Some("Label is missing a numeric 'y'"@)
    } else if json.str_at("text"@) is None {
        Some("Label is missing its 'text' string"@)
    } else {
        match label_justification(json) {
            Err(e) => Some(e),
            Ok(_) => None,
        }
    }
}

/// The anchor a readable label takes: the one its justification names,
/// `bottom_left` when it names none.
pub open spec fn label_anchor(json: Json) -> Seq<char> {
    match label_justification(json) {
        Ok(Some(name)) => name,
        _ => "bottom_left"@,
    }
}

/// Whether a label is hidden: `is_hidden`, or `hidden` when `is_hidden` is
/// absent.
pub open spec fn label_hidden(json: Json) -> bool {
    match json.spec_get("is_hidden"@) {
        Some(v) => or_else(v.spec_as_bool(), false),
        None => or_else(json.bool_at("hidden"@), false),
    }
}

impl McpServer {
    /// Reads a schematic label: refused, naming the field, when a coordinate
    /// is not a number, the text is missing or the justification names no
    /// anchor; every other field takes its default when absent, the anchor
    /// `bottom_left`.
    pub fn parse_schlib_label(json: &Json) -> (r: Result<Label, String>)
        ensures
            r is Err <==> label_error(*json) is Some,
            r matches Err(e) ==> label_error(*json) == Some(e@),
            r matches Ok(l) ==> (json.str_at("text"@) == Some(l.text@) && l.font_id == u8_or(
                *json,
                "font_id"@,
                1,
            ) && l.color == u32_or(*json, "color"@, 0x000080) && l.is_mirrored == or_else(
                json.bool_at("is_mirrored"@),
                false,
            ) && l.is_hidden == label_hidden(*json) && l.owner_part_id == or_else(
                i32_at(*json, "owner_part_id"@),
                1i32,
            ) && l.justification@ == label_anchor(*json) && l.display_flags == display_flags_of(*json) && opt_view(l.unique_id)
                == json.str_at("unique_id"@)),
    {
        if !number_field(json, "x") {
            return Err("Label is missing a numeric 'x'".to_string());
        }
        if !number_field(json, "y") {
            return Err("Label is missing a numeric 'y'".to_string());
        }
        let text = match json.str_field("text") {
            Some(t) => t.to_string(),
            None => return Err("Label is missing its 'text' string".to_string()),
        };
        let is_hidden = match json.get("is_hidden") {
            Some(v) => match v.as_bool() {
                Some(b) => b,
                None => false,
            },
            None => bool_field_or(json, "hidden", false),
        };
        let justification = match enum_field(
            json,
            "justification",
            "Label justification",
            &TEXT_JUSTIFICATIONS,
            &TEXT_JUSTIFICATION_SYNONYMS,
        ) {
            Ok(Some(name)) => name,
            Ok(None) => "bottom_left".to_string(),
            Err(e) => return Err(e),
        };
        Ok(Label {
            text,
            font_id: u8_field_or(json, "font_id", 1),
            color: u32_field_or(json, "color", 0x000080),
            is_mirrored: bool_field_or(json, "is_mirrored", false),
            is_hidden,
            owner_part_id: owner_part(json),
            justification,
            display_flags: parse_schlib_display_flags(json),
            unique_id: json_unique_id(json),
        })
    }
}

// ---------------------------------------------------------------- other graphics

/// The fields of a schematic parameter besides its position, which is
/// fractional and read by the caller.
#[derive(Clone, Debug)]
pub struct Parameter {
    pub name: String,
    pub value: String,
    pub font_id: u8,
    pub color: u32,
    pub hidden: bool,
    pub read_only_state: u8,
    pub param_type: u8,
    pub orientation: i32,
    pub justification: u8,
    pub is_mirrored: bool,
    pub show_name: bool,
    pub hide_name: bool,
    pub description: String,
    pub is_configurable: bool,
    pub auto_position: bool,
    pub is_rule: bool,
    pub is_system_parameter: bool,
    pub text_horz_anchor: u8,
    pub text_vert_anchor: u8,
    pub owner_part_id: i32,
    pub display_flags: ShapeDisplayFlags,
    pub unique_id: Option<String>,
    pub raw_params: Vec<(String, String)>,
}

impl McpServer {
    /// Reads a schematic parameter: `None` without its name; every other field
    /// takes its default when absent.
    pub fn parse_schlib_parameter(json: &Json) -> (r: Option<Parameter>)
        ensures
            r is Some <==> (json.str_at("name"@) is Some),
            r matches Some(v) ==> (
                (json.str_at("name"@) == Some(v.name@))
                && (v.value@ == or_else(json.str_at("value"@), "*"@))
                && (v.font_id == u8_or(*json, "font_id"@, 1))
                && (v.color == u32_or(*json, "color"@, 0x800000))
                && (v.hidden == or_else(json.bool_at("hidden"@), false))
                && (v.read_only_state == u8_or(*json, "read_only_state"@, 0))
                && (v.param_type == u8_or(*json, "param_type"@, 0))
                && (v.orientation == or_else(i32_at(*json, "orientation"@), 0i32))
                && (v.justification == u8_or(*json, "justification"@, 0))
                && (v.is_mirrored == or_else(json.bool_at("is_mirrored"@), false))
                && (v.show_name == or_else(json.bool_at("show_name"@), false))
                && (v.hide_name == or_else(json.bool_at("hide_name"@), false))
                && (v.description@ == or_else(json.str_at("description"@), ""@))
                && (v.is_configurable == or_else(json.bool_at("is_configurable"@), false))
                && (v.auto_position == or_else(json.bool_at("auto_position"@), true))
                && (v.is_rule == or_else(json.bool_at("is_rule"@), false))
                && (v.is_system_parameter == or_else(json.bool_at("is_system_parameter"@), false))
                && (v.text_horz_anchor == u8_or(*json, "text_horz_anchor"@, 0))
                && (v.text_vert_anchor == u8_or(*json, "text_vert_anchor"@, 0))
                && (v.owner_part_id == or_else(i32_at(*json, "owner_part_id"@), 1i32))
                && (v.display_flags == display_flags_of(*json))
                && (opt_view(v.unique_id) == json.str_at("unique_id"@))
                && (pairs_view(v.raw_params@) == raw_params_of(*json))
            ),
    {
        let name = match json.str_field("name") {
            Some(s) => s.to_string(),
            None => return None,
        };
        Some(Parameter {
            name,
            value: str_field_or(json, "value", "*"),
            font_id: u8_field_or(json, "font_id", 1),
            color: u32_field_or(json, "color", 0x800000),
            hidden: bool_field_or(json, "hidden", false),
            read_only_state: u8_field_or(json, "read_only_state", 0),
            param_type: u8_field_or(json, "param_type", 0),
            orientation: i32_field_or(json, "orientation", 0),
            justification: u8_field_or(json, "justification", 0),
            is_mirrored: bool_field_or(json, "is_mirrored", false),
            show_name: bool_field_or(json, "show_name", false),
            hide_name: bool_field_or(json, "hide_name", false),
            description: str_field_or(json, "description", ""),
            is_configurable: bool_field_or(json, "is_configurable", false),
            auto_position: bool_field_or(json, "auto_position", true),
            is_rule: bool_field_or(json, "is_rule", false),
            is_system_parameter: bool_field_or(json, "is_system_parameter", false),
            text_horz_anchor: u8_field_or(json, "text_horz_anchor", 0),
            text_vert_anchor: u8_field_or(json, "text_vert_anchor", 0),
            owner_part_id: owner_part(json),
            display_flags: parse_schlib_display_flags(json),
            unique_id: json_unique_id(json),
            raw_params: json_raw_params(json),
        })
    }
}

/// The fields of a schematic rectangle besides its fractional geometry,
/// which the caller reads.
#[derive(Clone, Debug)]
pub struct Rectangle {
    pub line_width: u8,
    pub line_color: u32,
    pub fill_color: u32,
    pub filled: bool,
    pub line_style: u8,
    pub transparent: bool,
    pub owner_part_id: i32,
    pub display_flags: ShapeDisplayFlags,
    pub unique_id: Option<String>,
    pub raw_params: Vec<(String, String)>,
}

impl McpServer {
    /// Reads a schematic rectangle: `None` when a coordinate it needs is not a
    /// number; every other field takes its default when absent.
    pub fn parse_schlib_rectangle(json: &Json) -> (r: Option<Rectangle>)
        ensures
            r is Some <==> (number_at(*json, "x1"@) && number_at(*json, "y1"@) && number_at(*json, "x2"@) && number_at(*json, "y2"@)),
            r matches Some(v) ==> (
                (v.line_width == u8_or(*json, "line_width"@, 1))
                && (v.line_color == u32_or(*json, "line_color"@, 0x000080))
                && (v.fill_color == u32_or(*json, "fill_color"@, 0xb0ffff))
                && (v.filled == or_else(json.bool_at("filled"@), true))
                && (v.line_style == u8_or(*json, "line_style"@, 0))
                && (v.transparent == or_else(json.bool_at("transparent"@), false))
                && (v.owner_part_id == or_else(i32_at(*json, "owner_part_id"@), 1i32))
                && (v.display_flags == display_flags_of(*json))
                && (opt_view(v.unique_id) == json.str_at("unique_id"@))
                && (pairs_view(v.raw_params@) == raw_params_of(*json))
            ),
    {
        if !(number_field(json, "x1") && number_field(json, "y1") && number_field(json, "x2") && number_field(json, "y2")) {
            return None;
        }
        Some(Rectangle {
            line_width: u8_field_or(json, "line_width", 1),
            line_color: u32_field_or(json, "line_color", 0x000080),
            fill_color: u32_field_or(json, "fill_color", 0xb0ffff),
            filled: bool_field_or(json, "filled", true),
            line_style: u8_field_or(json, "line_style", 0),
            transparent: bool_field_or(json, "transparent", false),
            owner_part_id: owner_part(json),
            display_flags: parse_schlib_display_flags(json),
            unique_id: json_unique_id(json),
            raw_params: json_raw_params(json),
        })
    }
}

impl McpServer {
    /// Reads a schematic rounded rectangle: the fields of a rectangle,
    /// held to the same rules.
    pub fn parse_schlib_round_rect(json: &Json) -> (r: Option<Rectangle>)
        ensures
            r is Some <==> (number_at(*json, "x1"@) && number_at(*json, "y1"@) && number_at(*json, "x2"@) && number_at(*json, "y2"@)),
            r matches Some(v) ==> (
                (v.line_width == u8_or(*json, "line_width"@, 1))
                && (v.line_color == u32_or(*json, "line_color"@, 0x000080))
                && (v.fill_color == u32_or(*json, "fill_color"@, 0xb0ffff))
                && (v.filled == or_else(json.bool_at("filled"@), true))
                && (v.line_style == u8_or(*json, "line_style"@, 0))
                && (v.transparent == or_else(json.bool_at("transparent"@), false))
                && (v.owner_part_id == or_else(i32_at(*json, "owner_part_id"@), 1i32))
                && (v.display_flags == display_flags_of(*json))
                && (opt_view(v.unique_id) == json.str_at("unique_id"@))
                && (pairs_view(v.raw_params@) == raw_params_of(*json))
            ),
    {
        McpServer::parse_schlib_rectangle(json)
    }
}

/// The fields of a schematic line besides its fractional geometry,
/// which the caller reads.
#[derive(Clone, Debug)]
pub struct Line {
    pub line_width: u8,
    pub color: u32,
    pub line_style: u8,
    pub is_not_accessible: bool,
    pub owner_part_id: i32,
    pub display_flags: ShapeDisplayFlags,
    pub unique_id: Option<String>,
    pub raw_params: Vec<(String, String)>,
}

impl McpServer {
    /// Reads a schematic line: `None` when a coordinate it needs is not a
    /// number; every other field takes its default when absent.
    pub fn parse_schlib_line(json: &Json) -> (r: Option<Line>)
        ensures
            r is Some <==> (number_at(*json, "x1"@) && number_at(*json, "y1"@) && number_at(*json, "x2"@) && number_at(*json, "y2"@)),
            r matches Some(v) ==> (
                (v.line_width == u8_or(*json, "line_width"@, 1))
                && (v.color == u32_or(*json, "color"@, 0x000080))
                && (v.line_style == u8_or(*json, "line_style"@, 0))
                && (v.is_not_accessible == or_else(json.bool_at("is_not_accessible"@), true))
                && (v.owner_part_id == or_else(i32_at(*json, "owner_part_id"@), 1i32))
                && (v.display_flags == display_flags_of(*json))
                && (opt_view(v.unique_id) == json.str_at("unique_id"@))
                && (pairs_view(v.raw_params@) == raw_params_of(*json))
            ),
    {
        if !(number_field(json, "x1") && number_field(json, "y1") && number_field(json, "x2") && number_field(json, "y2")) {
            return None;
        }
        Some(Line {
            line_width: u8_field_or(json, "line_width", 1),
            color: u32_field_or(json, "color", 0x000080),
            line_style: u8_field_or(json, "line_style", 0),
            is_not_accessible: bool_field_or(json, "is_not_accessible", true),
            owner_part_id: owner_part(json),
            display_flags: parse_schlib_display_flags(json),
            unique_id: json_unique_id(json),
            raw_params: json_raw_params(json),
        })
    }
}

/// The fields of a schematic arc besides its fractional geometry,
/// which the caller reads.
#[derive(Clone, Debug)]
pub struct Arc {
    pub line_width: u8,
    pub color: u32,
    pub fill_color: u32,
    pub is_not_accessible: bool,
    pub owner_part_id: i32,
    pub display_flags: ShapeDisplayFlags,
    pub unique_id: Option<String>,
    pub raw_params: Vec<(String, String)>,
}

impl McpServer {
    /// Reads a schematic arc: `None` when a coordinate it needs is not a
    /// number; every other field takes its default when absent.
    pub fn parse_schlib_arc(json: &Json) -> (r: Option<Arc>)
        ensures
            r is Some <==> (number_at(*json, "x"@) && number_at(*json, "y"@) && number_at(*json, "radius"@)),
            r matches Some(v) ==> (
                (v.line_width == u8_or(*json, "line_width"@, 1))
                && (v.color == u32_or(*json, "color"@, 0x000080))
                && (v.fill_color == u32_or(*json, "fill_color"@, 0))
                && (v.is_not_accessible == or_else(json.bool_at("is_not_accessible"@), true))
                && (v.owner_part_id == or_else(i32_at(*json, "owner_part_id"@), 1i32))
                && (v.display_flags == display_flags_of(*json))
                && (opt_view(v.unique_id) == json.str_at("unique_id"@))
                && (pairs_view(v.raw_params@) == raw_params_of(*json))
            ),
    {
        if !(number_field(json, "x") && number_field(json, "y") && number_field(json, "radius")) {
            return None;
        }
        Some(Arc {
            line_width: u8_field_or(json, "line_width", 1),
            color: u32_field_or(json, "color", 0x000080),
            fill_color: u32_field_or(json, "fill_color", 0),
            is_not_accessible: bool_field_or(json, "is_not_accessible", true),
            owner_part_id: owner_part(json),
            display_flags: parse_schlib_display_flags(json),
            unique_id: json_unique_id(json),
            raw_params: json_raw_params(json),
        })
    }
}

/// The fields of a schematic pie besides its fractional geometry,
/// which the caller reads.
#[derive(Clone, Debug)]
pub struct Pie {
    pub line_width: u8,
    pub line_color: u32,
    pub fill_color: u32,
    pub filled: bool,
    pub transparent: bool,
    pub is_not_accessible: bool,
    pub owner_part_id: i32,
    pub display_flags: ShapeDisplayFlags,
    pub unique_id: Option<String>,
    pub raw_params: Vec<(String, String)>,
}

impl McpServer {
    /// Reads a schematic pie: `None` when a coordinate it needs is not a
    /// number; every other field takes its default when absent.
    pub fn parse_schlib_pie(json: &Json) -> (r: Option<Pie>)
        ensures
            r is Some <==> (number_at(*json, "x"@) && number_at(*json, "y"@) && number_at(*json, "radius"@)),
            r matches Some(v) ==> (
                (v.line_width == u8_or(*json, "line_width"@, 1))
                && (v.line_color == u32_or(*json, "line_color"@, 0))
                && (v.fill_color == u32_or(*json, "fill_color"@, 0))
                && (v.filled == or_else(json.bool_at("filled"@), true))
                && (v.transparent == or_else(json.bool_at("transparent"@), false))
                && (v.is_not_accessible == or_else(json.bool_at("is_not_accessible"@), true))
                && (v.owner_part_id == or_else(i32_at(*json, "owner_part_id"@), 1i32))
                && (v.display_flags == display_flags_of(*json))
                && (opt_view(v.unique_id) == json.str_at("unique_id"@))
                && (pairs_view(v.raw_params@) == raw_params_of(*json))
            ),
    {
        if !(number_field(json, "x") && number_field(json, "y") && number_field(json, "radius")) {
            return None;
        }
        Some(Pie {
            line_width: u8_field_or(json, "line_width", 1),
            line_color: u32_field_or(json, "line_color", 0),
            fill_color: u32_field_or(json, "fill_color", 0),
            filled: bool_field_or(json, "filled", true),
            transparent: bool_field_or(json, "transparent", false),
            is_not_accessible: bool_field_or(json, "is_not_accessible", true),
            owner_part_id: owner_part(json),
            display_flags: parse_schlib_display_flags(json),
            unique_id: json_unique_id(json),
            raw_params: json_raw_params(json),
        })
    }
}

/// The fields of a schematic image besides its fractional geometry,
/// which the caller reads.
#[derive(Clone, Debug)]
pub struct Image {
    pub line_width: u8,
    pub line_color: u32,
    pub line_style: u8,
    pub fill_color: u32,
    pub filled: bool,
    pub transparent: bool,
    pub show_border: bool,
    pub keep_aspect: bool,
    pub embed_image: bool,
    pub is_not_accessible: bool,
    pub file_name: String,
    pub image_data: Option<Vec<u8>>,
    pub owner_part_id: i32,
    pub display_flags: ShapeDisplayFlags,
    pub unique_id: Option<String>,
    pub raw_params: Vec<(String, String)>,
}

impl McpServer {
    /// Reads a schematic image: `None` when a coordinate it needs is not a
    /// number; every other field takes its default when absent.
    pub fn parse_schlib_image(json: &Json) -> (r: Option<Image>)
        ensures
            r is Some <==> (number_at(*json, "x1"@) && number_at(*json, "y1"@) && number_at(*json, "x2"@) && number_at(*json, "y2"@)),
            r matches Some(v) ==> (
                (v.line_width == u8_or(*json, "line_width"@, 1))
                && (v.line_color == u32_or(*json, "line_color"@, 0))
                && (v.line_style == u8_or(*json, "line_style"@, 0))
                && (v.fill_color == u32_or(*json, "fill_color"@, 0))
                && (v.filled == or_else(json.bool_at("filled"@), false))
                && (v.transparent == or_else(json.bool_at("transparent"@), false))
                && (v.show_border == or_else(json.bool_at("show_border"@), false))
                && (v.keep_aspect == or_else(json.bool_at("keep_aspect"@), false))
                && (v.embed_image == or_else(json.bool_at("embed_image"@), false))
                && (v.is_not_accessible == or_else(json.bool_at("is_not_accessible"@), true))
                && (v.file_name@ == or_else(json.str_at("file_name"@), ""@))
                && ((v.image_data is Some <==> base64_field(*json, "image_data"@) is Some) && (v.image_data matches Some(b) ==> base64_field(*json, "image_data"@) == Some(b@)))
                && (v.owner_part_id == or_else(i32_at(*json, "owner_part_id"@), 1i32))
                && (v.display_flags == display_flags_of(*json))
                && (opt_view(v.unique_id) == json.str_at("unique_id"@))
                && (pairs_view(v.raw_params@) == raw_params_of(*json))
            ),
    {
        if !(number_field(json, "x1") && number_field(json, "y1") && number_field(json, "x2") && number_field(json, "y2")) {
            return None;
        }
        Some(Image {
            line_width: u8_field_or(json, "line_width", 1),
            line_color: u32_field_or(json, "line_color", 0),
            line_style: u8_field_or(json, "line_style", 0),
            fill_color: u32_field_or(json, "fill_color", 0),
            filled: bool_field_or(json, "filled", false),
            transparent: bool_field_or(json, "transparent", false),
            show_border: bool_field_or(json, "show_border", false),
            keep_aspect: bool_field_or(json, "keep_aspect", false),
            embed_image: bool_field_or(json, "embed_image", false),
            is_not_accessible: bool_field_or(json, "is_not_accessible", true),
            file_name: str_field_or(json, "file_name", ""),
            image_data: json_base64(json, "image_data"),
            owner_part_id: owner_part(json),
            display_flags: parse_schlib_display_flags(json),
            unique_id: json_unique_id(json),
            raw_params: json_raw_params(json),
        })
    }
}

/// The fields of a schematic text frame besides its fractional geometry,
/// which the caller reads.
#[derive(Clone, Debug)]
pub struct TextFrame {
    pub text: String,
    pub color: u32,
    pub area_color: u32,
    pub text_color: u32,
    pub line_width: u8,
    pub line_style: u8,
    pub transparent: bool,
    pub font_id: u8,
    pub orientation: u8,
    pub alignment: u8,
    pub is_solid: bool,
    pub show_border: bool,
    pub word_wrap: bool,
    pub clip_to_rect: bool,
    pub is_not_accessible: bool,
    pub owner_part_id: i32,
    pub display_flags: ShapeDisplayFlags,
    pub unique_id: Option<String>,
    pub raw_params: Vec<(String, String)>,
}

impl McpServer {
    /// Reads a schematic text frame: `None` when a coordinate it needs is not a
    /// number or a required field is missing; every other field takes
    /// its default when absent.
    pub fn parse_schlib_text_frame(json: &Json) -> (r: Option<TextFrame>)
        ensures
            r is Some <==> (number_at(*json, "x1"@) && number_at(*json, "y1"@) && number_at(*json, "x2"@) && number_at(*json, "y2"@) && json.str_at("text"@) is Some),
            r matches Some(v) ==> (
                (json.str_at("text"@) == Some(v.text@))
                && (v.color == u32_or(*json, "color"@, 0))
                && (v.area_color == u32_or(*json, "area_color"@, 0xffffff))
                && (v.text_color == u32_or(*json, "text_color"@, 0))
                && (v.line_width == u8_or(*json, "line_width"@, 0))
                && (v.line_style == u8_or(*json, "line_style"@, 0))
                && (v.transparent == or_else(json.bool_at("transparent"@), false))
                && (v.font_id == u8_or(*json, "font_id"@, 1))
                && (v.orientation == u8_or(*json, "orientation"@, 0))
                && (v.alignment == u8_or(*json, "alignment"@, 1))
                && (v.is_solid == or_else(json.bool_at("is_solid"@), false))
                && (v.show_border == or_else(json.bool_at("show_border"@), true))
                && (v.word_wrap == or_else(json.bool_at("word_wrap"@), true))
                && (v.clip_to_rect == or_else(json.bool_at("clip_to_rect"@), true))
                && (v.is_not_accessible == or_else(json.bool_at("is_not_accessible"@), true))
                && (v.owner_part_id == or_else(i32_at(*json, "owner_part_id"@), 1i32))
                && (v.display_flags == display_flags_of(*json))
                && (opt_view(v.unique_id) == json.str_at("unique_id"@))
                && (pairs_view(v.raw_params@) == raw_params_of(*json))
            ),
    {
        if !(number_field(json, "x1") && number_field(json, "y1") && number_field(json, "x2") && number_field(json, "y2")) {
            return None;
        }
        let text = match json.str_field("text") {
            Some(s) => s.to_string(),
            None => return None,
        };
        Some(TextFrame {
            text,
            color: u32_field_or(json, "color", 0),
            area_color: u32_field_or(json, "area_color", 0xffffff),
            text_color: u32_field_or(json, "text_color", 0),
            line_width: u8_field_or(json, "line_width", 0),
            line_style: u8_field_or(json, "line_style", 0),
            transparent: bool_field_or(json, "transparent", false),
            font_id: u8_field_or(json, "font_id", 1),
            orientation: u8_field_or(json, "orientation", 0),
            alignment: u8_field_or(json, "alignment", 1),
            is_solid: bool_field_or(json, "is_solid", false),
            show_border: bool_field_or(json, "show_border", true),
            word_wrap: bool_field_or(json, "word_wrap", true),
            clip_to_rect: bool_field_or(json, "clip_to_rect", true),
            is_not_accessible: bool_field_or(json, "is_not_accessible", true),
            owner_part_id: owner_part(json),
            display_flags: parse_schlib_display_flags(json),
            unique_id: json_unique_id(json),
            raw_params: json_raw_params(json),
        })
    }
}

/// The fields of a schematic Bezier besides its fractional geometry,
/// which the caller reads.
#[derive(Clone, Debug)]
pub struct Bezier {
    pub line_width: u8,
    pub color: u32,
    pub is_not_accessible: bool,
    pub owner_part_id: i32,
    pub display_flags: ShapeDisplayFlags,
    pub unique_id: Option<String>,
    pub raw_params: Vec<(String, String)>,
}

impl McpServer {
    /// Reads a schematic Bezier: `None` when a coordinate it needs is not a
    /// number; every other field takes its default when absent.
    pub fn parse_schlib_bezier(json: &Json) -> (r: Option<Bezier>)
        ensures
            r is Some <==> (number_at(*json, "x1"@) && number_at(*json, "y1"@) && number_at(*json, "x2"@) && number_at(*json, "y2"@) && number_at(*json, "x3"@) && number_at(*json, "y3"@) && number_at(*json, "x4"@) && number_at(*json, "y4"@)),
            r matches Some(v) ==> (
                (v.line_width == u8_or(*json, "line_width"@, 1))
                && (v.color == u32_or(*json, "color"@, 0x000080))
                && (v.is_not_accessible == or_else(json.bool_at("is_not_accessible"@), true))
                && (v.owner_part_id == or_else(i32_at(*json, "owner_part_id"@), 1i32))
                && (v.display_flags == display_flags_of(*json))
                && (opt_view(v.unique_id) == json.str_at("unique_id"@))
                && (pairs_view(v.raw_params@) == raw_params_of(*json))
            ),
    {
        if !(number_field(json, "x1") && number_field(json, "y1") && number_field(json, "x2") && number_field(json, "y2") && number_field(json, "x3") && number_field(json, "y3") && number_field(json, "x4") && number_field(json, "y4")) {
            return None;
        }
        Some(Bezier {
            line_width: u8_field_or(json, "line_width", 1),
            color: u32_field_or(json, "color", 0x000080),
            is_not_accessible: bool_field_or(json, "is_not_accessible", true),
            owner_part_id: owner_part(json),
            display_flags: parse_schlib_display_flags(json),
            unique_id: json_unique_id(json),
            raw_params: json_raw_params(json),
        })
    }
}

/// The fields of a schematic elliptical arc besides its fractional geometry,
/// which the caller reads.
#[derive(Clone, Debug)]
pub struct EllipticalArc {
    pub line_width: u8,
    pub color: u32,
    pub fill_color: u32,
    pub owner_part_id: i32,
    pub display_flags: ShapeDisplayFlags,
    pub unique_id: Option<String>,
    pub raw_params: Vec<(String, String)>,
}

impl McpServer {
    /// Reads a schematic elliptical arc: `None` when a coordinate it needs is not a
    /// number; every other field takes its default when absent.
    pub fn parse_schlib_elliptical_arc(json: &Json) -> (r: Option<EllipticalArc>)
        ensures
            r is Some <==> (number_at(*json, "x"@) && number_at(*json, "y"@) && number_at(*json, "radius"@) && number_at(*json, "secondary_radius"@)),
            r matches Some(v) ==> (
                (v.line_width == u8_or(*json, "line_width"@, 1))
                && (v.color == u32_or(*json, "color"@, 0x000080))
                && (v.fill_color == u32_or(*json, "fill_color"@, 0))
                && (v.owner_part_id == or_else(i32_at(*json, "owner_part_id"@), 1i32))
                && (v.display_flags == display_flags_of(*json))
                && (opt_view(v.unique_id) == json.str_at("unique_id"@))
                && (pairs_view(v.raw_params@) == raw_params_of(*json))
            ),
    {
        if !(number_field(json, "x") && number_field(json, "y") && number_field(json, "radius") && number_field(json, "secondary_radius")) {
            return None;
        }
        Some(EllipticalArc {
            line_width: u8_field_or(json, "line_width", 1),
            color: u32_field_or(json, "color", 0x000080),
            fill_color: u32_field_or(json, "fill_color", 0),
            owner_part_id: owner_part(json),
            display_flags: parse_schlib_display_flags(json),
            unique_id: json_unique_id(json),
            raw_params: json_raw_params(json),
        })
    }
}

/// The fields of a schematic ellipse besides its fractional geometry,
/// which the caller reads.
#[derive(Clone, Debug)]
pub struct Ellipse {
    pub line_width: u8,
    pub line_color: u32,
    pub fill_color: u32,
    pub filled: bool,
    pub transparent: bool,
    pub is_not_accessible: bool,
    pub owner_part_id: i32,
    pub display_flags: ShapeDisplayFlags,
    pub unique_id: Option<String>,
    pub raw_params: Vec<(String, String)>,
}

impl McpServer {
    /// Reads a schematic ellipse: `None` when a coordinate it needs is not a
    /// number; every other field takes its default when absent.
    pub fn parse_schlib_ellipse(json: &Json) -> (r: Option<Ellipse>)
        ensures
            r is Some <==> (number_at(*json, "x"@) && number_at(*json, "y"@) && number_at(*json, "radius_x"@) && number_at(*json, "radius_y"@)),
            r matches Some(v) ==> (
                (v.line_width == u8_or(*json, "line_width"@, 1))
                && (v.line_color == u32_or(*json, "line_color"@, 0x000080))
                && (v.fill_color == u32_or(*json, "fill_color"@, 0xb0ffff))
                && (v.filled == or_else(json.bool_at("filled"@), true))
                && (v.transparent == or_else(json.bool_at("transparent"@), false))
                && (v.is_not_accessible == or_else(json.bool_at("is_not_accessible"@), true))
                && (v.owner_part_id == or_else(i32_at(*json, "owner_part_id"@), 1i32))
                && (v.display_flags == display_flags_of(*json))
                && (opt_view(v.unique_id) == json.str_at("unique_id"@))
                && (pairs_view(v.raw_params@) == raw_params_of(*json))
            ),
    {
        if !(number_field(json, "x") && number_field(json, "y") && number_field(json, "radius_x") && number_field(json, "radius_y")) {
            return None;
        }
        Some(Ellipse {
            line_width: u8_field_or(json, "line_width", 1),
            line_color: u32_field_or(json, "line_color", 0x000080),
            fill_color: u32_field_or(json, "fill_color", 0xb0ffff),
            filled: bool_field_or(json, "filled", true),
            transparent: bool_field_or(json, "transparent", false),
            is_not_accessible: bool_field_or(json, "is_not_accessible", true),
            owner_part_id: owner_part(json),
            display_flags: parse_schlib_display_flags(json),
            unique_id: json_unique_id(json),
            raw_params: json_raw_params(json),
        })
    }
}

/// The fields of a schematic IEEE symbol besides its fractional geometry,
/// which the caller reads.
#[derive(Clone, Debug)]
pub struct IeeeSymbol {
    pub symbol: u32,
    pub is_mirrored: bool,
    pub line_width: u8,
    pub color: u32,
    pub owner_part_id: i32,
    pub display_flags: ShapeDisplayFlags,
    pub raw_params: Vec<(String, String)>,
}

impl McpServer {
    /// Reads a schematic IEEE symbol: `None` when a coordinate it needs is not a
    /// number or a required field is missing; every other field takes
    /// its default when absent.
    pub fn parse_schlib_ieee_symbol(json: &Json) -> (r: Option<IeeeSymbol>)
        ensures
            r is Some <==> (number_at(*json, "x"@) && number_at(*json, "y"@) && bounded_u64_at(*json, "symbol"@, 4294967295) is Some),
            r matches Some(v) ==> (
                (json.u64_at("symbol"@) == Some(v.symbol as u64))
                && (v.is_mirrored == or_else(json.bool_at("is_mirrored"@), false))
                && (v.line_width == or_else(bounded_u64_at(*json, "line_width"@, 255), 1) as u8)
                && (v.color == or_else(bounded_u64_at(*json, "color"@, 4294967295), 0) as u32)
                && (v.owner_part_id == or_else(i32_at(*json, "owner_part_id"@), 1i32))
                && (v.display_flags == display_flags_of(*json))
                && (pairs_view(v.raw_params@) == raw_params_of(*json))
            ),
    {
        if !(number_field(json, "x") && number_field(json, "y")) {
            return None;
        }
        let symbol: u32 = match json.u64_field("symbol") {
            Some(n) => if n <= 4294967295u64 {
                n as u32
            } else {
                return None;
            },
            None => return None,
        };
        Some(IeeeSymbol {
            symbol,
            is_mirrored: bool_field_or(json, "is_mirrored", false),
            line_width: fitting_u8_or(json, "line_width", 1),
            color: fitting_u32_or(json, "color", 0),
            owner_part_id: owner_part(json),
            display_flags: parse_schlib_display_flags(json),
            raw_params: json_raw_params(json),
        })
    }
}


// ---------------------------------------------------------------- polylines and polygons

/// The coordinate list of a schematic polyline or polygon: the member
/// `points`, or `vertices` when there is no `points` member, as an array.
pub open spec fn point_list(json: Json) -> Option<Seq<Json>> {
    let member = match json.spec_get("points"@) {
        Some(v) => Some(v),
        None => json.spec_get("vertices"@),
    };
    match member {
        Some(v) => match v.node {
            JsonNode::Array(items) => Some(items@),
            _ => None,
        },
        None => None,
    }
}

impl McpServer {
    /// The coordinate list of a schematic polyline or polygon, whose items
    /// the caller reads as coordinate pairs.
    pub fn schlib_point_list(json: &Json) -> (r: Option<&Vec<Json>>)
        ensures
            r matches Some(items) ==> point_list(*json) == Some(items@),
            r is None ==> point_list(*json) is None,
    {
        let member = match json.get("points") {
            Some(v) => Some(v),
            None => json.get("vertices"),
        };
        match member {
            Some(v) => v.as_array(),
            None => None,
        }
    }
}

/// The fields of a schematic polyline besides its points, which are
/// fractional and read by the caller.
#[derive(Clone, Debug)]
pub struct Polyline {
    pub line_width: u8,
    pub color: u32,
    pub line_style: u8,
    pub start_line_shape: u8,
    pub end_line_shape: u8,
    pub line_shape_size: u8,
    pub transparent: bool,
    pub is_not_accessible: bool,
    pub owner_part_id: i32,
    pub display_flags: ShapeDisplayFlags,
    pub unique_id: Option<String>,
    pub raw_params: Vec<(String, String)>,
}

impl McpServer {
    /// Reads a schematic polyline, given how many items of its coordinate
    /// list read as a pair of finite coordinates (`pairs`): `None` when there
    /// is no coordinate list or fewer than two pairs, since a polyline is a
    /// run of segments; every other field takes its default when absent.
    pub fn parse_schlib_polyline(json: &Json, pairs: usize) -> (r: Option<Polyline>)
        ensures
            r is Some <==> (point_list(*json) is Some && pairs >= 2),
            r matches Some(v) ==> (
                (v.line_width == u8_or(*json, "line_width"@, 1))
                && (v.color == u32_or(*json, "color"@, 0x000080))
                && (v.line_style == u8_or(*json, "line_style"@, 0))
                && (v.start_line_shape == u8_or(*json, "start_line_shape"@, 0))
                && (v.end_line_shape == u8_or(*json, "end_line_shape"@, 0))
                && (v.line_shape_size == u8_or(*json, "line_shape_size"@, 0))
                && (v.transparent == or_else(json.bool_at("transparent"@), false))
                && (v.is_not_accessible == or_else(json.bool_at("is_not_accessible"@), true))
                && (v.owner_part_id == or_else(i32_at(*json, "owner_part_id"@), 1i32))
                && (v.display_flags == display_flags_of(*json))
                && (opt_view(v.unique_id) == json.str_at("unique_id"@))
                && (pairs_view(v.raw_params@) == raw_params_of(*json))
            ),
    {
        if McpServer::schlib_point_list(json).is_none() || pairs < 2 {
            return None;
        }
        Some(Polyline {
            line_width: u8_field_or(json, "line_width", 1),
            color: u32_field_or(json, "color", 0x000080),
            line_style: u8_field_or(json, "line_style", 0),
            start_line_shape: u8_field_or(json, "start_line_shape", 0),
            end_line_shape: u8_field_or(json, "end_line_shape", 0),
            line_shape_size: u8_field_or(json, "line_shape_size", 0),
            transparent: bool_field_or(json, "transparent", false),
            is_not_accessible: bool_field_or(json, "is_not_accessible", true),
            owner_part_id: owner_part(json),
            display_flags: parse_schlib_display_flags(json),
            unique_id: json_unique_id(json),
            raw_params: json_raw_params(json),
        })
    }
}

/// The fields of a schematic filled polygon besides its points, which are
/// fractional and read by the caller.
#[derive(Clone, Debug)]
pub struct Polygon {
    pub line_width: u8,
    pub line_color: u32,
    pub fill_color: u32,
    pub line_style: u8,
    pub filled: bool,
    pub transparent: bool,
    pub is_not_accessible: bool,
    pub owner_part_id: i32,
    pub display_flags: ShapeDisplayFlags,
    pub unique_id: Option<String>,
    pub raw_params: Vec<(String, String)>,
}

impl McpServer {
    /// Reads a schematic filled polygon, given how many items of its
    /// coordinate list read as a pair of finite coordinates (`pairs`): `None`
    /// when there is no coordinate list or fewer than three pairs, since a
    /// polygon is a closed area; every other field takes its default when
    /// absent.
    pub fn parse_schlib_polygon(json: &Json, pairs: usize) -> (r: Option<Polygon>)
        ensures
            r is Some <==> (point_list(*json) is Some && pairs >= 3),
            r matches Some(v) ==> (
                (v.line_width == u8_or(*json, "line_width"@, 1))
                && (v.line_color == u32_or(*json, "line_color"@, 0x000080))
                && (v.fill_color == u32_or(*json, "fill_color"@, 0xB0FFFF))
                && (v.line_style == u8_or(*json, "line_style"@, 0))
                && (v.filled == or_else(json.bool_at("filled"@), true))
                && (v.transparent == or_else(json.bool_at("transparent"@), false))
                && (v.is_not_accessible == or_else(json.bool_at("is_not_accessible"@), true))
                && (v.owner_part_id == or_else(i32_at(*json, "owner_part_id"@), 1i32))
                && (v.display_flags == display_flags_of(*json))
                && (opt_view(v.unique_id) == json.str_at("unique_id"@))
                && (pairs_view(v.raw_params@) == raw_params_of(*json))
            ),
    {
        if McpServer::schlib_point_list(json).is_none() || pairs < 3 {
            return None;
        }
        Some(Polygon {
            line_width: u8_field_or(json, "line_width", 1),
            line_color: u32_field_or(json, "line_color", 0x000080),
            fill_color: u32_field_or(json, "fill_color", 0xB0FFFF),
            line_style: u8_field_or(json, "line_style", 0),
            filled: bool_field_or(json, "filled", true),
            transparent: bool_field_or(json, "transparent", false),
            is_not_accessible: bool_field_or(json, "is_not_accessible", true),
            owner_part_id: owner_part(json),
            display_flags: parse_schlib_display_flags(json),
            unique_id: json_unique_id(json),
            raw_params: json_raw_params(json),
        })
    }
}

} // verus!
