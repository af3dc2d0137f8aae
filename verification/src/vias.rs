//! The parts of reading a via that decide without its fractional geometry
//! or its layer names: the required fields, and the optional tail of enum
//! names, small integers, the diameter stack's shape and the identity.
use vstd::prelude::*;
use crate::McpServer;
use crate::accepted::{
    DRILL_LAYER_PAIR_TYPES, MASK_EXPANSION_MODES, POWER_PLANE_CONNECT_STYLES, STACK_MODES,
};
use crate::fields::{
    base64_field, bounded_u64_at, guid_field, guid_field_result, i32_at, json_base64,
    json_component_index, json_polygon_index, json_unique_id, opt_view,
};
use crate::json::{Json, JsonNode};
use crate::shapes::number_at;
use crate::text::{decimal, push_str, str_views, u64_text};
use crate::vocab::{enum_field, enum_field_result, opt_string_result_view};

verus! {

// ---------------------------------------------------------------- required fields

/// The error naming a required via field that is missing.
pub open spec fn via_missing(key: Seq<char>) -> Seq<char> {
    "Via missing required field '"@ + key + "'"@
}

/// The first of a via's numeric `x`, `y`, `diameter` and `hole_size` that
/// is missing.
pub open spec fn via_required_error(json: Json) -> Option<Seq<char>> {
    if !number_at(json, "x"@) {
        Some(via_missing("x"@))
    } else if !number_at(json, "y"@) {
        Some(via_missing("y"@))
    } else if !number_at(json, "diameter"@) {
        Some(via_missing("diameter"@))
    } else if !number_at(json, "hole_size"@) {
        Some(via_missing("hole_size"@))
    } else {
        None
    }
}

fn number(json: &Json, key: &str) -> (r: bool)
    ensures
        r == number_at(*json, key@),
{
    match json.get(key) {
        Some(v) => match &v.node {
            JsonNode::PosInt(_) => true,
            JsonNode::NegInt(_) => true,
            JsonNode::Float => true,
            _ => false,
        },
        None => false,
    }
}

fn missing(key: &str) -> (e: String)
    ensures
        e@ == via_missing(key@),
{
    let mut e = String::new();
    push_str(&mut e, "Via missing required field '");
    push_str(&mut e, key);
    push_str(&mut e, "'");
    e
}

impl McpServer {
    /// Checks that a via carries its numeric position, diameter and hole
    /// size, naming the first that is missing.
    pub fn via_required(json: &Json) -> (r: Result<(), String>)
        ensures
            r is Err <==> via_required_error(*json) is Some,
            r matches Err(e) ==> via_required_error(*json) == Some(e@),
    {
        if !number(json, "x") {
            return Err(missing("x"));
        }
        if !number(json, "y") {
            return Err(missing("y"));
        }
        if !number(json, "diameter") {
            return Err(missing("diameter"));
        }
        if !number(json, "hole_size") {
            return Err(missing("hole_size"));
        }
        Ok(())
    }
}

// ---------------------------------------------------------------- the optional tail

/// A via's optional fields besides its fractional lengths and its layers:
/// `None` where a field keeps the via's from-scratch default.
#[derive(Debug)]
pub struct ViaOptions {
    pub solder_mask_expansion_from_hole_edge: Option<bool>,
    /// By its accepted name.
    pub drill_layer_pair_type: Option<String>,
    /// By its accepted name.
    pub solder_mask_expansion_mode: Option<String>,
    pub thermal_relief_conductors: Option<u8>,
    /// By its accepted name.
    pub power_plane_connect_style: Option<String>,
    pub net_index: Option<u16>,
    pub polygon_index: u16,
    pub component_index: i32,
    /// By its accepted name; `simple` when absent.
    pub diameter_stack_mode: String,
    /// How many per-layer diameters the stack holds, when one is given (the
    /// diameters are fractional and read by the caller).
    pub per_layer_diameter_count: Option<usize>,
    pub unique_id: Option<String>,
    pub guid: Option<String>,
    pub raw_block: Option<Vec<u8>>,
}

/// A via enum field's result.
pub open spec fn via_enum(json: Json, key: Seq<char>, accepted: Seq<&str>) -> Result<Option<Seq<char>>, Seq<char>> {
    enum_field_result(json, key, "Via "@ + key, str_views(accepted), Seq::empty())
}

/// The diameter stack mode a via takes: the one it names, `simple` when it
/// names none.
pub open spec fn stack_mode_name(json: Json) -> Seq<char> {
    match via_enum(json, "diameter_stack_mode"@, STACK_MODES@) {
        Ok(Some(name)) => name,
        _ => "simple"@,
    }
}

/// The first entry of a diameter stack that is not a number, from `i` on.
pub open spec fn first_non_number(entries: Seq<Json>, i: int) -> Option<int>
    decreases entries.len() - i,
{
    if i >= entries.len() {
        None
    } else if !(entries[i].node is PosInt || entries[i].node is NegInt || entries[i].node is Float) {
        Some(i)
    } else {
        first_non_number(entries, i + 1)
    }
}

/// What a via's `per_layer_diameters` gives: absent (or `null`) is
/// `Ok(None)`; otherwise it must be an array of 32 numbers on a stacked via.
pub open spec fn diameter_stack_result(json: Json) -> Result<Option<nat>, Seq<char>> {
    match json.present("per_layer_diameters"@) {
        None => Ok(None),
        Some(v) => match v.node {
            JsonNode::Array(entries) => if stack_mode_name(json) == "simple"@ {
                Err(
                    "Via per_layer_diameters is given but diameter_stack_mode is simple; set it to top_middle_bottom or full_stack (32 entries: index 0 = Top, 1 = Bottom, 2-31 = Mid layers)"@,
                )
            } else if entries@.len() != 32 {
                Err("Via per_layer_diameters has "@ + decimal(entries@.len())
                    + " entries; a stacked via takes 32 (index 0 = Top, 1 = Bottom, 2-31 = Mid layers)"@)
            } else {
                match first_non_number(entries@, 0) {
                    Some(i) => Err("Via per_layer_diameters["@ + decimal(i as nat)
                        + "] must be a number, got "@ + entries@[i].text@),
                    None => Ok(Some(32)),
                }
            },
            _ => Err("Via per_layer_diameters must be an array, got "@ + v.text@),
        },
    }
}

/// The first error a via's optional tail is refused with, in the order its
/// fields are read.
pub open spec fn via_options_error(json: Json) -> Option<Seq<char>> {
    if via_enum(json, "drill_layer_pair_type"@, DRILL_LAYER_PAIR_TYPES@) is Err {
        Some(via_enum(json, "drill_layer_pair_type"@, DRILL_LAYER_PAIR_TYPES@)->Err_0)
    } else if via_enum(json, "solder_mask_expansion_mode"@, MASK_EXPANSION_MODES@) is Err {
        Some(via_enum(json, "solder_mask_expansion_mode"@, MASK_EXPANSION_MODES@)->Err_0)
    } else if via_enum(json, "power_plane_connect_style"@, POWER_PLANE_CONNECT_STYLES@) is Err {
        Some(via_enum(json, "power_plane_connect_style"@, POWER_PLANE_CONNECT_STYLES@)->Err_0)
    } else if via_enum(json, "diameter_stack_mode"@, STACK_MODES@) is Err {
        Some(via_enum(json, "diameter_stack_mode"@, STACK_MODES@)->Err_0)
    } else if diameter_stack_result(json) is Err {
        Some(diameter_stack_result(json)->Err_0)
    } else if guid_field_result(json, "guid"@, "Via guid"@) is Err {
        Some(guid_field_result(json, "guid"@, "Via guid"@)->Err_0)
    } else {
        None
    }
}

/// The member `key` when it is an unsigned integer of at most `max`.
pub open spec fn small_at(json: Json, key: Seq<char>, max: u64) -> Option<u64> {
    bounded_u64_at(json, key, max)
}

fn via_enum_field(json: &Json, key: &str, accepted: &[&'static str]) -> (r: Result<Option<String>, String>)
    ensures
        opt_string_result_view(r) == via_enum(*json, key@, accepted@),
{
    assert(crate::vocab::pair_views(Seq::<(&str, &str)>::empty()) =~= Seq::empty());
    let mut field = String::new();
    push_str(&mut field, "Via ");
    push_str(&mut field, key);
    enum_field(json, key, field.as_str(), accepted, &[])
}

fn diameter_stack(json: &Json, stack_mode_is_simple: bool) -> (r: Result<Option<usize>, String>)
    requires
        stack_mode_is_simple == (stack_mode_name(*json) == "simple"@),
    ensures
        (match r {
            Ok(Some(n)) => Ok(Some(n as nat)),
            Ok(None) => Ok(None),
            Err(e) => Err(e@),
        }) == diameter_stack_result(*json),
{
    let value = match json.present_field("per_layer_diameters") {
        Some(v) => v,
        None => return Ok(None),
    };
    let entries = match &value.node {
        JsonNode::Array(entries) => entries,
        _ => {
            let mut e = String::new();
            push_str(&mut e, "Via per_layer_diameters must be an array, got ");
            push_str(&mut e, value.text.as_str());
            return Err(e);
        },
    };
    if stack_mode_is_simple {
        return Err(
            "Via per_layer_diameters is given but diameter_stack_mode is simple; set it to top_middle_bottom or full_stack (32 entries: index 0 = Top, 1 = Bottom, 2-31 = Mid layers)".to_string(),
        );
    }
    if entries.len() != 32 {
        let mut e = String::new();
        push_str(&mut e, "Via per_layer_diameters has ");
        let n = u64_text(entries.len() as u64);
        push_str(&mut e, n.as_str());
        push_str(
            &mut e,
            " entries; a stacked via takes 32 (index 0 = Top, 1 = Bottom, 2-31 = Mid layers)",
        );
        return Err(e);
    }
    let mut i: usize = 0;
    while i < entries.len()
        invariant
            i <= entries.len(),
            first_non_number(entries@, 0) == first_non_number(entries@, i as int),
            json.present("per_layer_diameters"@) == Some(*value),
            value.node == JsonNode::Array(*entries),
            stack_mode_name(*json) != "simple"@,
            entries@.len() == 32,
        decreases entries.len() - i,
    {
        let numeric = match &entries[i].node {
            JsonNode::PosInt(_) => true,
            JsonNode::NegInt(_) => true,
            JsonNode::Float => true,
            _ => false,
        };
        if !numeric {
            let mut e = String::new();
            push_str(&mut e, "Via per_layer_diameters[");
            let n = u64_text(i as u64);
            push_str(&mut e, n.as_str());
            push_str(&mut e, "] must be a number, got ");
            push_str(&mut e, entries[i].text.as_str());
            return Err(e);
        }
        i += 1;
    }
    Ok(Some(32))
}

impl McpServer {
    /// Reads a via's optional tail. An enum field that names nothing
    /// accepted, a diameter stack the record cannot hold (on a simple via,
    /// not 32 entries, an entry that is not a number) or a malformed GUID
    /// is refused, naming the field; an absent field keeps the via's
    /// from-scratch default.
    pub fn via_options(json: &Json) -> (r: Result<ViaOptions, String>)
        ensures
            r is Err <==> via_options_error(*json) is Some,
            r matches Err(e) ==> via_options_error(*json) == Some(e@),
            r matches Ok(o) ==> {
                &&& o.solder_mask_expansion_from_hole_edge == json.bool_at(
                    "solder_mask_expansion_from_hole_edge"@,
                )
                &&& opt_view(o.drill_layer_pair_type) == via_enum(
                    *json,
                    "drill_layer_pair_type"@,
                    DRILL_LAYER_PAIR_TYPES@,
                )->Ok_0
                &&& opt_view(o.solder_mask_expansion_mode) == via_enum(
                    *json,
                    "solder_mask_expansion_mode"@,
                    MASK_EXPANSION_MODES@,
                )->Ok_0
                &&& o.thermal_relief_conductors == (match small_at(
                    *json,
                    "thermal_relief_conductors"@,
                    255,
                ) {
                    Some(v) => Some(v as u8),
                    None => None,
                })
                &&& opt_view(o.power_plane_connect_style) == via_enum(
                    *json,
                    "power_plane_connect_style"@,
                    POWER_PLANE_CONNECT_STYLES@,
                )->Ok_0
                &&& o.net_index == (match small_at(*json, "net_index"@, 0xFFFF) {
                    Some(v) => Some(v as u16),
                    None => None,
                })
                &&& o.polygon_index == (match bounded_u64_at(*json, "polygon_index"@, 0xFFFF) {
                    Some(v) => v as u16,
                    None => 0xFFFFu16,
                })
                &&& o.component_index == (match i32_at(*json, "component_index"@) {
                    Some(v) => v,
                    None => -1i32,
                })
                &&& o.diameter_stack_mode@ == stack_mode_name(*json)
                &&& (match o.per_layer_diameter_count {
                    Some(n) => Some(n as nat),
                    None => None,
                }) == diameter_stack_result(*json)->Ok_0
                &&& opt_view(o.unique_id) == json.str_at("unique_id"@)
                &&& opt_view(o.guid) == guid_field_result(*json, "guid"@, "Via guid"@)->Ok_0
                &&& (o.raw_block is Some <==> base64_field(*json, "raw_block"@) is Some)
                &&& (o.raw_block matches Some(b) ==> base64_field(*json, "raw_block"@) == Some(
                    b@,
                ))
            },
    {
        let drill_layer_pair_type = match via_enum_field(
            json,
            "drill_layer_pair_type",
            &DRILL_LAYER_PAIR_TYPES,
        ) {
            Ok(v) => v,
            Err(e) => return Err(e),
        };
        let solder_mask_expansion_mode = match via_enum_field(
            json,
            "solder_mask_expansion_mode",
            &MASK_EXPANSION_MODES,
        ) {
            Ok(v) => v,
            Err(e) => return Err(e),
        };
        let thermal_relief_conductors = match json.u64_field("thermal_relief_conductors") {
            Some(v) => if v <= 255 {
                Some(v as u8)
            } else {
                None
            },
            None => None,
        };
        let power_plane_connect_style = match via_enum_field(
            json,
            "power_plane_connect_style",
            &POWER_PLANE_CONNECT_STYLES,
        ) {
            Ok(v) => v,
            Err(e) => return Err(e),
        };
        let net_index = match json.u64_field("net_index") {
            Some(v) => if v <= 0xFFFF {
                Some(v as u16)
            } else {
                None
            },
            None => None,
        };
        let stack_mode = match via_enum_field(
            json,
            "diameter_stack_mode",
            &STACK_MODES,
        ) {
            Ok(Some(name)) => name,
            Ok(None) => "simple".to_string(),
            Err(e) => return Err(e),
        };
        let simple = crate::text::str_eq(stack_mode.as_str(), "simple");
        let per_layer_diameter_count = match diameter_stack(json, simple) {
            Ok(n) => n,
            Err(e) => return Err(e),
        };
        let guid = match guid_field(json, "guid", "Via guid") {
            Ok(g) => g,
            Err(e) => return Err(e),
        };
        Ok(ViaOptions {
            solder_mask_expansion_from_hole_edge: json.bool_field(
                "solder_mask_expansion_from_hole_edge",
            ),
            drill_layer_pair_type,
            solder_mask_expansion_mode,
            thermal_relief_conductors,
            power_plane_connect_style,
            net_index,
            polygon_index: json_polygon_index(json),
            component_index: json_component_index(json),
            diameter_stack_mode: stack_mode,
            per_layer_diameter_count,
            unique_id: json_unique_id(json),
            guid,
            raw_block: json_base64(json, "raw_block"),
        })
    }
}

} // verus!
