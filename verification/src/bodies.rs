//! Reading a footprint's component (3D) body: every field besides its
//! fractional heights, rotations and outline and besides its layer, each
//! with the default the write tools create a body with, and the one way
//! these fields refuse a body, a malformed GUID.
use vstd::prelude::*;
use crate::McpServer;
use crate::fields::{
    bounded_u64_at, guid_field, guid_field_result, i32_at, json_guidless_opt, json_raw_layer_id,
    opt_view,
};
use crate::json::Json;
use crate::records::{
    additional_parameters_of, key_order_of, or_else, pairs_view, strings_view,
};
use crate::shapes::{bool_field_or, fitting_u8_or};

verus! {

/// A component body's fields besides its fractional geometry and its layer.
#[derive(Debug)]
pub struct BodyFields {
    pub identifier: String,
    pub texture_center_x: Option<String>,
    pub texture_center_y: Option<String>,
    pub texture_size_x: Option<String>,
    pub texture_size_y: Option<String>,
    pub texture_rotation: Option<String>,
    pub raw_layer_id: Option<u8>,
    pub v7_layer: Option<String>,
    pub model_id: String,
    pub model_name: String,
    pub embedded: bool,
    pub unique_id: Option<String>,
    pub guid: Option<String>,
    pub model_checksum: i64,
    pub name: String,
    pub kind: u8,
    pub sub_poly_index: i32,
    pub union_index: u32,
    pub is_shape_based: bool,
    pub body_projection: u8,
    pub body_color_3d: u32,
    pub net_index: u16,
    pub polygon_index: u16,
    pub component_index: i32,
    pub additional_parameters: Vec<(String, String)>,
    pub param_key_order: Vec<String>,
}

/// The member `key` as a string, `default` when it is not one.
pub open spec fn str_or(json: Json, key: Seq<char>, default: Seq<char>) -> Seq<char> {
    or_else(json.str_at(key), default)
}

fn string_or(json: &Json, key: &str, default: &str) -> (r: String)
    ensures
        r@ == str_or(*json, key@, default@),
{
    match json.str_field(key) {
        Some(s) => s.to_string(),
        None => default.to_string(),
    }
}

fn fitting_u16_or(json: &Json, key: &str, default: u16) -> (r: u16)
    ensures
        r == or_else(bounded_u64_at(*json, key@, 0xFFFF), default as u64) as u16,
{
    match json.u64_field(key) {
        Some(v) => if v <= 0xFFFF {
            v as u16
        } else {
            default
        },
        None => default,
    }
}

fn fitting_u32_or(json: &Json, key: &str, default: u32) -> (r: u32)
    ensures
        r == or_else(bounded_u64_at(*json, key@, 0xFFFF_FFFF), default as u64) as u32,
{
    match json.u64_field(key) {
        Some(v) => if v <= 0xFFFF_FFFF {
            v as u32
        } else {
            default
        },
        None => default,
    }
}

fn fitting_i32_or(json: &Json, key: &str, default: i32) -> (r: i32)
    ensures
        r == or_else(i32_at(*json, key@), default),
{
    match crate::fields::json_i32(json, key) {
        Some(v) => v,
        None => default,
    }
}

impl McpServer {
    /// Reads a component body's fields besides its fractional geometry and
    /// its layer; refused only for a malformed GUID. Absent fields take the
    /// create handler's values, so a from-scratch body is written as the
    /// template holds it.
    pub fn parse_component_body_fields(json: &Json) -> (r: Result<BodyFields, String>)
        ensures
            r is Err <==> guid_field_result(*json, "guid"@, "Component body guid"@) is Err,
            r matches Err(e) ==> guid_field_result(*json, "guid"@, "Component body guid"@)
                == Err::<Option<Seq<char>>, Seq<char>>(e@),
            r matches Ok(b) ==> {
                &&& b.identifier@ == str_or(*json, "identifier"@, ""@)
                &&& opt_view(b.texture_center_x) == json.str_at("texture_center_x"@)
                &&& opt_view(b.texture_center_y) == json.str_at("texture_center_y"@)
                &&& opt_view(b.texture_size_x) == json.str_at("texture_size_x"@)
                &&& opt_view(b.texture_size_y) == json.str_at("texture_size_y"@)
                &&& opt_view(b.texture_rotation) == json.str_at("texture_rotation"@)
                &&& b.raw_layer_id == (match bounded_u64_at(*json, "raw_layer_id"@, 255) {
                    Some(v) => Some(v as u8),
                    None => None,
                })
                &&& opt_view(b.v7_layer) == json.str_at("v7_layer"@)
                &&& b.model_id@ == str_or(*json, "model_id"@, ""@)
                &&& b.model_name@ == str_or(*json, "model_name"@, ""@)
                &&& b.embedded == or_else(json.bool_at("embedded"@), false)
                &&& opt_view(b.unique_id) == json.str_at("unique_id"@)
                &&& opt_view(b.guid) == guid_field_result(
                    *json,
                    "guid"@,
                    "Component body guid"@,
                )->Ok_0
                &&& b.model_checksum == or_else(json.i64_at("model_checksum"@), 0i64)
                &&& b.name@ == str_or(*json, "name"@, " "@)
                &&& b.kind == or_else(bounded_u64_at(*json, "kind"@, 255), 0) as u8
                &&& b.sub_poly_index == or_else(i32_at(*json, "sub_poly_index"@), -1i32)
                &&& b.union_index == or_else(bounded_u64_at(*json, "union_index"@, 0xFFFF_FFFF), 0)
                    as u32
                &&& b.is_shape_based == or_else(json.bool_at("is_shape_based"@), false)
                &&& b.body_projection == or_else(bounded_u64_at(*json, "body_projection"@, 255), 0)
                    as u8
                &&& b.body_color_3d == or_else(
                    bounded_u64_at(*json, "body_color_3d"@, 0xFFFF_FFFF),
                    8_421_504,
                ) as u32
                &&& b.net_index == or_else(bounded_u64_at(*json, "net_index"@, 0xFFFF), 0xFFFF)
                    as u16
                &&& b.polygon_index == or_else(
                    bounded_u64_at(*json, "polygon_index"@, 0xFFFF),
                    0xFFFF,
                ) as u16
                &&& b.component_index == or_else(i32_at(*json, "component_index"@), -1i32)
                &&& pairs_view(b.additional_parameters@) == additional_parameters_of(*json)
                &&& strings_view(b.param_key_order@) == key_order_of(*json)
            },
    {
        let guid = match guid_field(json, "guid", "Component body guid") {
            Ok(g) => g,
            Err(e) => return Err(e),
        };
        Ok(BodyFields {
            identifier: string_or(json, "identifier", ""),
            texture_center_x: json_guidless_opt(json, "texture_center_x"),
            texture_center_y: json_guidless_opt(json, "texture_center_y"),
            texture_size_x: json_guidless_opt(json, "texture_size_x"),
            texture_size_y: json_guidless_opt(json, "texture_size_y"),
            texture_rotation: json_guidless_opt(json, "texture_rotation"),
            raw_layer_id: json_raw_layer_id(json),
            v7_layer: json_guidless_opt(json, "v7_layer"),
            model_id: string_or(json, "model_id", ""),
            model_name: string_or(json, "model_name", ""),
            embedded: bool_field_or(json, "embedded", false),
            unique_id: json_guidless_opt(json, "unique_id"),
            guid,
            model_checksum: match json.i64_field("model_checksum") {
                Some(v) => v,
                None => 0,
            },
            name: string_or(json, "name", " "),
            kind: fitting_u8_or(json, "kind", 0),
            sub_poly_index: fitting_i32_or(json, "sub_poly_index", -1),
            union_index: fitting_u32_or(json, "union_index", 0),
            is_shape_based: bool_field_or(json, "is_shape_based", false),
            body_projection: fitting_u8_or(json, "body_projection", 0),
            body_color_3d: fitting_u32_or(json, "body_color_3d", 8_421_504),
            net_index: fitting_u16_or(json, "net_index", 0xFFFF),
            polygon_index: fitting_u16_or(json, "polygon_index", 0xFFFF),
            component_index: fitting_i32_or(json, "component_index", -1),
            additional_parameters: McpServer::parse_additional_parameters(json),
            param_key_order: McpServer::parse_key_order(json),
        })
    }
}

} // verus!
