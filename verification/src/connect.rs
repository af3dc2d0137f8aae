//! The polygon-connect override a pad or via may carry: an object whose
//! every member is optional (absent or `null` keeps the template's value),
//! held to what the record stores: two or four conductors, a rotation of 45
//! or 90 degrees, flags that are booleans, a connect style by name and
//! lengths in millimetres that are not negative. The lengths themselves are
//! fractional and read by the caller once they are accepted.
use vstd::prelude::*;
use crate::accepted::POWER_PLANE_CONNECT_STYLES;
use crate::fields::opt_view;
use crate::json::{Json, JsonNode};
use crate::text::{push_str, str_eq, str_views};
use crate::vocab::{enum_field, enum_field_result, opt_string_result_view};

verus! {

/// The settings of a polygon-connect override that are not lengths; `None`
/// keeps the template's value.
#[derive(Debug)]
pub struct PolygonConnectSettings {
    /// The connect style, by its accepted name.
    pub style: Option<String>,
    pub conductors: Option<u8>,
    /// The spoke rotation in degrees.
    pub rotation: Option<u32>,
    pub auto_conductors: Option<bool>,
    pub min_distance_enabled: Option<bool>,
}

/// The member `key`, unless it is missing or `null`.
pub open spec fn given(value: Json, key: Seq<char>) -> Option<Json> {
    value.present(key)
}

/// `{field}.{key} must be {what}, got {value}`.
pub open spec fn member_message(field: Seq<char>, key: Seq<char>, what: Seq<char>, got: Seq<char>) -> Seq<char> {
    field + "."@ + key + " must be "@ + what + ", got "@ + got
}

/// A JSON number that is a length of zero or more millimetres: a
/// non-negative integer, or a fractional number that is not below zero
/// (its text has no sign, or it is negative zero).
pub open spec fn is_length(v: Json) -> bool {
    match v.node {
        JsonNode::PosInt(_) => true,
        JsonNode::Float => !(v.text@.len() > 0 && v.text@[0] == '-') || v.text@ == "-0.0"@,
        _ => false,
    }
}

/// The rotation a JSON number names, when it is 45 or 90 degrees (a
/// fractional number by its shortest text, `45.0` or `90.0`).
pub open spec fn rotation_of(v: Json) -> Option<u32> {
    match v.node {
        JsonNode::PosInt(n) => if n == 45 {
            Some(45u32)
        } else if n == 90 {
            Some(90u32)
        } else {
            None
        },
        JsonNode::Float => if v.text@ == "45.0"@ {
            Some(45u32)
        } else if v.text@ == "90.0"@ {
            Some(90u32)
        } else {
            None
        },
        _ => None,
    }
}

/// The error the conductor count gives, if any.
pub open spec fn conductors_error(value: Json, field: Seq<char>) -> Option<Seq<char>> {
    match given(value, "conductors"@) {
        Some(v) => if v.spec_as_u64() == Some(2u64) || v.spec_as_u64() == Some(4u64) {
            None
        } else {
            Some(member_message(field, "conductors"@, "2 or 4"@, v.text@))
        },
        None => None,
    }
}

/// The error the rotation gives, if any.
pub open spec fn rotation_error(value: Json, field: Seq<char>) -> Option<Seq<char>> {
    match given(value, "rotation"@) {
        Some(v) => if rotation_of(v) is Some {
            None
        } else {
            Some(member_message(field, "rotation"@, "45 or 90"@, v.text@))
        },
        None => None,
    }
}

/// The error a flag `key` gives, if any.
pub open spec fn flag_error(value: Json, field: Seq<char>, key: Seq<char>) -> Option<Seq<char>> {
    match given(value, key) {
        Some(v) => if v.spec_as_bool() is Some {
            None
        } else {
            Some(member_message(field, key, "true or false"@, v.text@))
        },
        None => None,
    }
}

/// The error a length `key` gives, if any.
pub open spec fn length_error(value: Json, field: Seq<char>, key: Seq<char>) -> Option<Seq<char>> {
    match given(value, key) {
        Some(v) => if is_length(v) {
            None
        } else {
            Some(member_message(field, key, "a length in mm (0 or more)"@, v.text@))
        },
        None => None,
    }
}

/// The style result of the override.
pub open spec fn style_result(value: Json, field: Seq<char>) -> Result<Option<Seq<char>>, Seq<char>> {
    enum_field_result(
        value,
        "style"@,
        field + ".style"@,
        str_views(POWER_PLANE_CONNECT_STYLES@),
        Seq::empty(),
    )
}

/// The first error of the override, in the order it is checked: that it is
/// an object, the conductors, the rotation, the two flags, the style, then
/// the air gap, conductor width and minimum distance.
pub open spec fn polygon_connect_error(value: Json, field: Seq<char>) -> Option<Seq<char>> {
    if !(value.node is Object) {
        Some(field + " must be an object, got "@ + value.text@)
    } else if conductors_error(value, field) is Some {
        conductors_error(value, field)
    } else if rotation_error(value, field) is Some {
        rotation_error(value, field)
    } else if flag_error(value, field, "auto_conductors"@) is Some {
        flag_error(value, field, "auto_conductors"@)
    } else if flag_error(value, field, "min_distance_enabled"@) is Some {
        flag_error(value, field, "min_distance_enabled"@)
    } else if style_result(value, field) is Err {
        Some(style_result(value, field)->Err_0)
    } else if length_error(value, field, "air_gap"@) is Some {
        length_error(value, field, "air_gap"@)
    } else if length_error(value, field, "conductor_width"@) is Some {
        length_error(value, field, "conductor_width"@)
    } else {
        length_error(value, field, "min_distance"@)
    }
}

fn member_error(field: &str, key: &str, what: &str, got: &str) -> (e: String)
    ensures
        e@ == member_message(field@, key@, what@, got@),
{
    let mut e = String::new();
    push_str(&mut e, field);
    push_str(&mut e, ".");
    push_str(&mut e, key);
    push_str(&mut e, " must be ");
    push_str(&mut e, what);
    push_str(&mut e, ", got ");
    push_str(&mut e, got);
    proof {
        reveal_strlit(".");
        reveal_strlit(" must be ");
        reveal_strlit(", got ");
    }
    e
}

fn conductors_field(value: &Json, field: &str) -> (r: Result<Option<u8>, String>)
    ensures
        r is Err <==> conductors_error(*value, field@) is Some,
        r matches Err(e) ==> conductors_error(*value, field@) == Some(e@),
        r matches Ok(c) ==> c == (match given(*value, "conductors"@) {
            Some(v) => Some(v.spec_as_u64()->0 as u8),
            None => None,
        }),
{
    match value.present_field("conductors") {
        None => Ok(None),
        Some(v) => match v.as_u64() {
            Some(n) => if n == 2 || n == 4 {
                Ok(Some(n as u8))
            } else {
                Err(member_error(field, "conductors", "2 or 4", v.text.as_str()))
            },
            None => Err(member_error(field, "conductors", "2 or 4", v.text.as_str())),
        },
    }
}

fn rotation_field(value: &Json, field: &str) -> (r: Result<Option<u32>, String>)
    ensures
        r is Err <==> rotation_error(*value, field@) is Some,
        r matches Err(e) ==> rotation_error(*value, field@) == Some(e@),
        r matches Ok(d) ==> d == (match given(*value, "rotation"@) {
            Some(v) => rotation_of(v),
            None => None,
        }),
{
    match value.present_field("rotation") {
        None => Ok(None),
        Some(v) => {
            let degrees: Option<u32> = match &v.node {
                JsonNode::PosInt(n) => if *n == 45 {
                    Some(45)
                } else if *n == 90 {
                    Some(90)
                } else {
                    None
                },
                JsonNode::Float => if str_eq(v.text.as_str(), "45.0") {
                    Some(45)
                } else if str_eq(v.text.as_str(), "90.0") {
                    Some(90)
                } else {
                    None
                },
                _ => None,
            };
            match degrees {
                Some(d) => Ok(Some(d)),
                None => Err(member_error(field, "rotation", "45 or 90", v.text.as_str())),
            }
        },
    }
}

fn flag_field(value: &Json, field: &str, key: &str) -> (r: Result<Option<bool>, String>)
    ensures
        r is Err <==> flag_error(*value, field@, key@) is Some,
        r matches Err(e) ==> flag_error(*value, field@, key@) == Some(e@),
        r matches Ok(b) ==> b == (match given(*value, key@) {
            Some(v) => v.spec_as_bool(),
            None => None,
        }),
{
    match value.present_field(key) {
        None => Ok(None),
        Some(v) => match v.as_bool() {
            Some(b) => Ok(Some(b)),
            None => Err(member_error(field, key, "true or false", v.text.as_str())),
        },
    }
}

fn length_field(value: &Json, field: &str, key: &str) -> (r: Result<(), String>)
    ensures
        r is Err <==> length_error(*value, field@, key@) is Some,
        r matches Err(e) ==> length_error(*value, field@, key@) == Some(e@),
{
    match value.present_field(key) {
        None => Ok(()),
        Some(v) => {
            let ok = match &v.node {
                JsonNode::PosInt(_) => true,
                JsonNode::Float => {
                    let t = v.text.as_str();
                    let cs = crate::text::chars_of(t);
                    let negative = cs.len() > 0 && cs[0] == '-';
                    !negative || str_eq(t, "-0.0")
                },
                _ => false,
            };
            if ok {
                Ok(())
            } else {
                Err(member_error(field, key, "a length in mm (0 or more)", v.text.as_str()))
            }
        },
    }
}

/// Reads a polygon-connect override (`field` names it in errors, such as
/// `Pad '1' polygon_connect`): the first member that is not what the record
/// stores refuses it, in the order of [`polygon_connect_error`]; otherwise
/// each setting given is returned, the rest keep the template's value.
pub fn polygon_connect_field(value: &Json, field: &str) -> (r: Result<PolygonConnectSettings, String>)
    ensures
        r is Err <==> polygon_connect_error(*value, field@) is Some,
        r matches Err(e) ==> polygon_connect_error(*value, field@) == Some(e@),
        r matches Ok(s) ==> {
            &&& opt_view(s.style) == style_result(*value, field@)->Ok_0
            &&& s.conductors == (match given(*value, "conductors"@) {
                Some(v) => Some(v.spec_as_u64()->0 as u8),
                None => None,
            })
            &&& s.rotation == (match given(*value, "rotation"@) {
                Some(v) => rotation_of(v),
                None => None,
            })
            &&& s.auto_conductors == (match given(*value, "auto_conductors"@) {
                Some(v) => v.spec_as_bool(),
                None => None,
            })
            &&& s.min_distance_enabled == (match given(*value, "min_distance_enabled"@) {
                Some(v) => v.spec_as_bool(),
                None => None,
            })
        },
{
    match &value.node {
        JsonNode::Object(_) => {},
        _ => {
            let mut e = String::new();
            push_str(&mut e, field);
            push_str(&mut e, " must be an object, got ");
            push_str(&mut e, value.text.as_str());
            return Err(e);
        },
    }
    let conductors = conductors_field(value, field)?;
    let rotation = rotation_field(value, field)?;
    let auto_conductors = flag_field(value, field, "auto_conductors")?;
    let min_distance_enabled = flag_field(value, field, "min_distance_enabled")?;
    let mut style_name = String::new();
    push_str(&mut style_name, field);
    push_str(&mut style_name, ".style");
    assert(crate::vocab::pair_views(Seq::<(&str, &str)>::empty()) =~= Seq::empty());
    let style = enum_field(value, "style", style_name.as_str(), &POWER_PLANE_CONNECT_STYLES, &[]);
    assert(opt_string_result_view(style) == style_result(*value, field@));
    let style = style?;
    length_field(value, field, "air_gap")?;
    length_field(value, field, "conductor_width")?;
    length_field(value, field, "min_distance")?;
    Ok(PolygonConnectSettings { style, conductors, rotation, auto_conductors, min_distance_enabled })
}

} // verus!
