//! Reading a footprint text: every way a text can be refused (a coordinate
//! or height that is not a number, no text, an enum name that names
//! nothing, a font name too long for the record, a malformed GUID) and
//! every field besides its fractional geometry and its layer.
use vstd::prelude::*;
use crate::McpServer;
use crate::accepted::{STROKE_FONTS, TEXT_JUSTIFICATIONS, TEXT_JUSTIFICATION_SYNONYMS, TEXT_KINDS};
use crate::fields::{
    base64_field, bounded_u64_at, font_face_name, font_face_result, guid_field, guid_field_result,
    i32_at, json_base64, json_component_index, json_net_index, json_polygon_index,
    json_raw_layer_id, json_unique_id, opt_view,
};
use crate::json::Json;
use crate::records::or_else;
use crate::shapes::{bool_field_or, fitting_u8_or, number_at, number_field};
use crate::text::{push_str, str_views};
use crate::vocab::{enum_field, enum_field_result, pair_views};

verus! {

/// A footprint text's fields besides its fractional position, height,
/// rotation and lengths, and besides its layer.
#[derive(Debug)]
pub struct TextFields {
    pub text: String,
    /// By its accepted name.
    pub kind: String,
    /// By its accepted name; `None` keeps the template's font.
    pub stroke_font: Option<String>,
    pub italic: bool,
    pub bold: bool,
    pub mirror: bool,
    pub is_comment: bool,
    pub is_designator: bool,
    pub font_name: String,
    /// By its accepted name.
    pub justification: String,
    pub is_inverted: bool,
    pub use_inverted_rectangle: bool,
    pub net_index: u16,
    pub polygon_index: u16,
    pub component_index: i32,
    pub unique_id: Option<String>,
    pub guid: Option<String>,
    pub raw_geometry: Option<Vec<u8>>,
    pub raw_layer_id: Option<u8>,
    pub barcode_kind: u8,
    pub barcode_font_name: String,
    pub barcode_inverted: bool,
    pub barcode_show_text: bool,
}

/// What a text's `kind` field gives.
pub open spec fn text_kind(json: Json) -> Result<Option<Seq<char>>, Seq<char>> {
    enum_field_result(json, "kind"@, "Text kind"@, str_views(TEXT_KINDS@), Seq::empty())
}

/// What a text's `stroke_font` field gives.
pub open spec fn text_stroke_font(json: Json) -> Result<Option<Seq<char>>, Seq<char>> {
    enum_field_result(json, "stroke_font"@, "Text stroke_font"@, str_views(STROKE_FONTS@), Seq::empty())
}

/// What a text's `justification` field gives.
pub open spec fn text_justification(json: Json) -> Result<Option<Seq<char>>, Seq<char>> {
    enum_field_result(
        json,
        "justification"@,
        "Text justification"@,
        str_views(TEXT_JUSTIFICATIONS@),
        pair_views(TEXT_JUSTIFICATION_SYNONYMS@),
    )
}

/// What a text's font-name field (`key`, named `field` in errors) gives:
/// `default` when absent, else the name held to a face name's length.
pub open spec fn text_font(json: Json, key: Seq<char>, field: Seq<char>, default: Seq<char>) -> Result<Seq<char>, Seq<char>> {
    match json.str_at(key) {
        None => Ok(default),
        Some(name) => font_face_result(name, field),
    }
}

/// The error for a missing numeric field of a text.
pub open spec fn text_missing_number(key: Seq<char>) -> Seq<char> {
    "Text is missing a numeric '"@ + key + "'"@
}

/// The first reason a text is refused, in the order its fields are read.
pub open spec fn text_error(json: Json) -> Option<Seq<char>> {
    if !number_at(json, "x"@) {
        Some(text_missing_number("x"@))
    } else if !number_at(json, "y"@) {
        Some(text_missing_number("y"@))
    } else if json.str_at("text"@) is None {
        Some("Text is missing its 'text' string"@)
    } else if !number_at(json, "height"@) {
        Some(text_missing_number("height"@))
    } else if text_kind(json) is Err {
        Some(text_kind(json)->Err_0)
    } else if text_stroke_font(json) is Err {
        Some(text_stroke_font(json)->Err_0)
    } else if text_font(json, "font_name"@, "Text font_name"@, "Arial"@) is Err {
        Some(text_font(json, "font_name"@, "Text font_name"@, "Arial"@)->Err_0)
    } else if text_justification(json) is Err {
        Some(text_justification(json)->Err_0)
    } else if guid_field_result(json, "guid"@, "Text guid"@) is Err {
        Some(guid_field_result(json, "guid"@, "Text guid"@)->Err_0)
    } else if text_font(json, "barcode_font_name"@, "Text barcode_font_name"@, ""@) is Err {
        Some(text_font(json, "barcode_font_name"@, "Text barcode_font_name"@, ""@)->Err_0)
    } else {
        None
    }
}

/// Whether every font name a text carries is a string short enough to
/// count in UTF-16 units without overflow (every string in memory is).
pub open spec fn font_names_fit(json: Json) -> bool {
    &&& (json.str_at("font_name"@) matches Some(n) ==> n.len() <= usize::MAX / 2)
    &&& (json.str_at("barcode_font_name"@) matches Some(n) ==> n.len() <= usize::MAX / 2)
}

fn missing_number(key: &str) -> (e: String)
    ensures
        e@ == text_missing_number(key@),
{
    let mut e = String::new();
    push_str(&mut e, "Text is missing a numeric '");
    push_str(&mut e, key);
    push_str(&mut e, "'");
    e
}

fn font(json: &Json, key: &str, field: &str, default: &str) -> (r: Result<String, String>)
    requires
        json.str_at(key@) matches Some(n) ==> n.len() <= usize::MAX / 2,
    ensures
        (match r {
            Ok(n) => Ok(n@),
            Err(e) => Err(e@),
        }) == text_font(*json, key@, field@, default@),
{
    match json.str_field(key) {
        None => Ok(default.to_string()),
        Some(name) => match font_face_name(name, field) {
            Ok(n) => Ok(n.to_string()),
            Err(e) => Err(e),
        },
    }
}

impl McpServer {
    /// Reads a footprint text. It is refused, naming the field, when a
    /// coordinate or the height is not a number, the text is missing, the
    /// kind, stroke font or justification names nothing accepted, a font
    /// name is longer than a Windows face name, or the GUID is malformed;
    /// every other field takes its template default when absent (kind
    /// `stroke`, font `Arial`, anchor `bottom_left`).
    pub fn parse_text(json: &Json) -> (r: Result<TextFields, String>)
        requires
            font_names_fit(*json),
        ensures
            r is Err <==> text_error(*json) is Some,
            r matches Err(e) ==> text_error(*json) == Some(e@),
            r matches Ok(t) ==> {
                &&& json.str_at("text"@) == Some(t.text@)
                &&& t.kind@ == or_else(text_kind(*json)->Ok_0, "stroke"@)
                &&& opt_view(t.stroke_font) == text_stroke_font(*json)->Ok_0
                &&& t.italic == or_else(json.bool_at("italic"@), false)
                &&& t.bold == or_else(json.bool_at("bold"@), false)
                &&& t.mirror == or_else(json.bool_at("mirror"@), false)
                &&& t.is_comment == or_else(json.bool_at("is_comment"@), false)
                &&& t.is_designator == or_else(json.bool_at("is_designator"@), false)
                &&& Ok::<Seq<char>, Seq<char>>(t.font_name@) == text_font(
                    *json,
                    "font_name"@,
                    "Text font_name"@,
                    "Arial"@,
                )
                &&& t.justification@ == or_else(text_justification(*json)->Ok_0, "bottom_left"@)
                &&& t.is_inverted == or_else(json.bool_at("is_inverted"@), false)
                &&& t.use_inverted_rectangle == or_else(
                    json.bool_at("use_inverted_rectangle"@),
                    false,
                )
                &&& t.net_index == (match bounded_u64_at(*json, "net_index"@, 0xFFFF) {
                    Some(v) => v as u16,
                    None => 0xFFFFu16,
                })
                &&& t.polygon_index == (match bounded_u64_at(*json, "polygon_index"@, 0xFFFF) {
                    Some(v) => v as u16,
                    None => 0xFFFFu16,
                })
                &&& t.component_index == (match i32_at(*json, "component_index"@) {
                    Some(v) => v,
                    None => -1i32,
                })
                &&& opt_view(t.unique_id) == json.str_at("unique_id"@)
                &&& opt_view(t.guid) == guid_field_result(*json, "guid"@, "Text guid"@)->Ok_0
                &&& (t.raw_geometry is Some <==> base64_field(*json, "raw_geometry"@) is Some)
                &&& (t.raw_geometry matches Some(b) ==> base64_field(*json, "raw_geometry"@)
                    == Some(b@))
                &&& t.raw_layer_id == (match bounded_u64_at(*json, "raw_layer_id"@, 255) {
                    Some(v) => Some(v as u8),
                    None => None,
                })
                &&& t.barcode_kind == or_else(bounded_u64_at(*json, "barcode_kind"@, 255), 0)
                    as u8
                &&& Ok::<Seq<char>, Seq<char>>(t.barcode_font_name@) == text_font(
                    *json,
                    "barcode_font_name"@,
                    "Text barcode_font_name"@,
                    ""@,
                )
                &&& t.barcode_inverted == or_else(json.bool_at("barcode_inverted"@), false)
                &&& t.barcode_show_text == or_else(json.bool_at("barcode_show_text"@), false)
            },
    {
        if !number_field(json, "x") {
            return Err(missing_number("x"));
        }
        if !number_field(json, "y") {
            return Err(missing_number("y"));
        }
        let text = match json.str_field("text") {
            Some(t) => t.to_string(),
            None => return Err("Text is missing its 'text' string".to_string()),
        };
        if !number_field(json, "height") {
            return Err(missing_number("height"));
        }
        let kind = match enum_field(json, "kind", "Text kind", &TEXT_KINDS, &[]) {
            Ok(Some(k)) => k,
            Ok(None) => "stroke".to_string(),
            Err(e) => return Err(e),
        };
        let stroke_font = match enum_field(json, "stroke_font", "Text stroke_font", &STROKE_FONTS, &[]) {
            Ok(f) => f,
            Err(e) => return Err(e),
        };
        let font_name = match font(json, "font_name", "Text font_name", "Arial") {
            Ok(n) => n,
            Err(e) => return Err(e),
        };
        let justification = match enum_field(
            json,
            "justification",
            "Text justification",
            &TEXT_JUSTIFICATIONS,
            &TEXT_JUSTIFICATION_SYNONYMS,
        ) {
            Ok(Some(j)) => j,
            Ok(None) => "bottom_left".to_string(),
            Err(e) => return Err(e),
        };
        let guid = match guid_field(json, "guid", "Text guid") {
            Ok(g) => g,
            Err(e) => return Err(e),
        };
        let barcode_font_name = match font(json, "barcode_font_name", "Text barcode_font_name", "") {
            Ok(n) => n,
            Err(e) => return Err(e),
        };
        Ok(TextFields {
            text,
            kind,
            stroke_font,
            italic: bool_field_or(json, "italic", false),
            bold: bool_field_or(json, "bold", false),
            mirror: bool_field_or(json, "mirror", false),
            is_comment: bool_field_or(json, "is_comment", false),
            is_designator: bool_field_or(json, "is_designator", false),
            font_name,
            justification,
            is_inverted: bool_field_or(json, "is_inverted", false),
            use_inverted_rectangle: bool_field_or(json, "use_inverted_rectangle", false),
            net_index: json_net_index(json),
            polygon_index: json_polygon_index(json),
            component_index: json_component_index(json),
            unique_id: json_unique_id(json),
            guid,
            raw_geometry: json_base64(json, "raw_geometry"),
            raw_layer_id: json_raw_layer_id(json),
            barcode_kind: fitting_u8_or(json, "barcode_kind", 0),
            barcode_font_name,
            barcode_inverted: bool_field_or(json, "barcode_inverted", false),
            barcode_show_text: bool_field_or(json, "barcode_show_text", false),
        })
    }
}

} // verus!
