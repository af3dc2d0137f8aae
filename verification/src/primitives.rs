//! What the footprint primitives share, and the region's contours: the
//! required numeric fields each kind names when one is missing, the
//! header tail every layered primitive carries (connectivity indices,
//! keep-out mask, identity), and the shape of a region's outline and hole
//! contours, whose vertices are fractional and read by the caller.
use vstd::prelude::*;
use crate::McpServer;
use crate::fields::{
    bounded_u64_at, guid_field, guid_field_result, i32_at, json_component_index, json_keepout,
    json_net_index, json_polygon_index, json_raw_layer_id, json_unique_id, opt_view,
};
use crate::json::{Json, JsonNode};
use crate::shapes::{number_at, number_field};
use crate::text::{decimal, push_str, str_views, u64_text};

verus! {

// ---------------------------------------------------------------- required numbers

/// `<record> missing required field '<key>'`.
pub open spec fn missing_field(record: Seq<char>, key: Seq<char>) -> Seq<char> {
    record + " missing required field '"@ + key + "'"@
}

/// The first of `keys` that is not a number in `json`, from `i` on.
pub open spec fn first_missing(json: Json, keys: Seq<Seq<char>>, i: int) -> Option<Seq<char>>
    decreases keys.len() - i,
{
    if i >= keys.len() {
        None
    } else if !number_at(json, keys[i]) {
        Some(keys[i])
    } else {
        first_missing(json, keys, i + 1)
    }
}

impl McpServer {
    /// Checks that `json` carries each of `keys` as a number, naming the first
    /// that it does not as a missing field of `record` (`Track`, `Arc`, `Fill`).
    pub fn required_numbers(json: &Json, record: &str, keys: &[&str]) -> (r: Result<(), String>)
        ensures
            r is Ok <==> first_missing(*json, str_views(keys@), 0) is None,
            r matches Err(e) ==> e@ == missing_field(
                record@,
                first_missing(*json, str_views(keys@), 0)->0,
            ),
    {
        let mut i: usize = 0;
        while i < keys.len()
            invariant
                i <= keys.len(),
                first_missing(*json, str_views(keys@), 0) == first_missing(
                    *json,
                    str_views(keys@),
                    i as int,
                ),
            decreases keys.len() - i,
        {
            assert(str_views(keys@)[i as int] == keys@[i as int]@);
            if !number_field(json, keys[i]) {
                let mut e = String::new();
                push_str(&mut e, record);
                push_str(&mut e, " missing required field '");
                push_str(&mut e, keys[i]);
                push_str(&mut e, "'");
                return Err(e);
            }
            i += 1;
        }
        Ok(())
    }
}

// ---------------------------------------------------------------- the header tail

/// The header tail of a layered primitive (track, arc, fill): its
/// connectivity indices, keep-out mask and identity.
#[derive(Debug)]
pub struct PrimitiveTail {
    pub net_index: u16,
    pub polygon_index: u16,
    pub component_index: i32,
    pub keepout_restrictions: Option<u8>,
    pub unique_id: Option<String>,
    pub guid: Option<String>,
    pub raw_layer_id: Option<u8>,
}

/// `<record> guid`, the name a primitive's GUID error gives the field.
pub open spec fn guid_name(record: Seq<char>) -> Seq<char> {
    record + " guid"@
}

impl McpServer {
    /// Reads the header tail of a `record` (`Track`, `Arc`, `Fill`): absent
    /// indices mean no net, no polygon and a free primitive; refused only
    /// for a malformed GUID, named by the record.
    pub fn primitive_tail(json: &Json, record: &str) -> (r: Result<PrimitiveTail, String>)
        ensures
            r is Err <==> guid_field_result(*json, "guid"@, guid_name(record@)) is Err,
            r matches Err(e) ==> guid_field_result(*json, "guid"@, guid_name(record@)) == Err::<
                Option<Seq<char>>,
                Seq<char>,
            >(e@),
            r matches Ok(t) ==> {
                &&& t.net_index == (match bounded_u64_at(*json, "net_index"@, 0xFFFF) {
                    Some(v) => v as u16,
                    None => 0xFFFFu16,
                })
                &&& t.polygon_index == (match bounded_u64_at(*json, "polygon_index"@, 0xFFFF) {
                    Some(v) => v as u16,
                    None => 0xFFFFu16,
                })
                &&& t.component_index == (match i32_at(*json, "component_index"@) {
                    Some(v) => v,
                    None => -1i32,
                })
                &&& t.keepout_restrictions == (match bounded_u64_at(
                    *json,
                    "keepout_restrictions"@,
                    255,
                ) {
                    Some(v) => Some(v as u8),
                    None => None,
                })
                &&& opt_view(t.unique_id) == json.str_at("unique_id"@)
                &&& opt_view(t.guid) == guid_field_result(*json, "guid"@, guid_name(record@))->Ok_0
                &&& t.raw_layer_id == (match bounded_u64_at(*json, "raw_layer_id"@, 255) {
                    Some(v) => Some(v as u8),
                    None => None,
                })
            },
    {
        let mut field = String::new();
        push_str(&mut field, record);
        push_str(&mut field, " guid");
        let guid = match guid_field(json, "guid", field.as_str()) {
            Ok(g) => g,
            Err(e) => return Err(e),
        };
        Ok(PrimitiveTail {
            net_index: json_net_index(json),
            polygon_index: json_polygon_index(json),
            component_index: json_component_index(json),
            keepout_restrictions: json_keepout(json),
            unique_id: json_unique_id(json),
            guid,
            raw_layer_id: json_raw_layer_id(json),
        })
    }
}

// ---------------------------------------------------------------- region contours

/// Whether a vertex carries the numeric coordinate `key`.
pub open spec fn vertex_has(v: Json, key: Seq<char>) -> bool {
    number_at(v, key)
}

/// The error for the first vertex of `points`, from `i` on, that lacks a
/// numeric `x` or `y` (the `x` checked first); `what` names the contour.
pub open spec fn vertex_error(points: Seq<Json>, what: Seq<char>, i: int) -> Option<Seq<char>>
    decreases points.len() - i,
{
    if i < 0 || i >= points.len() {
        None
    } else if !vertex_has(points[i], "x"@) {
        Some("Region "@ + what + " vertex "@ + decimal(i as nat) + " is missing a numeric 'x'"@)
    } else if !vertex_has(points[i], "y"@) {
        Some("Region "@ + what + " vertex "@ + decimal(i as nat) + " is missing a numeric 'y'"@)
    } else {
        vertex_error(points, what, i + 1)
    }
}

fn vertex_missing(what: &str, i: usize, key: &str) -> (e: String)
    ensures
        e@ == "Region "@ + what@ + " vertex "@ + decimal(i as nat) + " is missing a numeric '"@
            + key@ + "'"@,
{
    let mut e = String::new();
    push_str(&mut e, "Region ");
    push_str(&mut e, what);
    push_str(&mut e, " vertex ");
    let n = u64_text(i as u64);
    push_str(&mut e, n.as_str());
    push_str(&mut e, " is missing a numeric '");
    push_str(&mut e, key);
    push_str(&mut e, "'");
    e
}

/// Checks that every vertex of a region contour carries a numeric `x` and
/// `y`, naming the first that does not (by `what`, such as `outline` or
/// `hole 2`, and its index); its number of vertices when all do.
pub fn contour_size(points: &[Json], what: &str) -> (r: Result<usize, String>)
    ensures
        r is Ok <==> vertex_error(points@, what@, 0) is None,
        r matches Ok(n) ==> n == points.len(),
        r matches Err(e) ==> vertex_error(points@, what@, 0) == Some(e@),
{
    let mut i: usize = 0;
    while i < points.len()
        invariant
            i <= points.len(),
            vertex_error(points@, what@, 0) == vertex_error(points@, what@, i as int),
        decreases points.len() - i,
    {
        if !number_field(&points[i], "x") {
            let e = vertex_missing(what, i, "x");
            proof {
                reveal_strlit("'");
            }
            assert(e@ =~= "Region "@ + what@ + " vertex "@ + decimal(i as nat) + " is missing a numeric 'x'"@) by {
                reveal_strlit(" is missing a numeric '");
                reveal_strlit(" is missing a numeric 'x'");
                reveal_strlit("x");
            }
            return Err(e);
        }
        if !number_field(&points[i], "y") {
            let e = vertex_missing(what, i, "y");
            assert(e@ =~= "Region "@ + what@ + " vertex "@ + decimal(i as nat) + " is missing a numeric 'y'"@) by {
                reveal_strlit("'");
                reveal_strlit(" is missing a numeric '");
                reveal_strlit(" is missing a numeric 'y'");
                reveal_strlit("y");
            }
            return Err(e);
        }
        i += 1;
    }
    Ok(points.len())
}

/// What a region's outline gives: the vertices array must be whole and
/// hold at least three vertices.
pub open spec fn outline_result(points: Seq<Json>) -> Result<nat, Seq<char>> {
    match vertex_error(points, "outline"@, 0) {
        Some(e) => Err(e),
        None => if points.len() < 3 {
            Err("Region needs at least 3 vertices, got "@ + decimal(points.len()))
        } else {
            Ok(points.len())
        },
    }
}

/// Checks a region's outline: every vertex whole, at least three of them.
pub fn region_outline(points: &[Json]) -> (r: Result<usize, String>)
    ensures
        (match r {
            Ok(n) => Ok(n as nat),
            Err(e) => Err(e@),
        }) == outline_result(points@),
{
    let n = match contour_size(points, "outline") {
        Ok(n) => n,
        Err(e) => return Err(e),
    };
    if n < 3 {
        let mut e = String::new();
        push_str(&mut e, "Region needs at least 3 vertices, got ");
        let count = u64_text(n as u64);
        push_str(&mut e, count.as_str());
        return Err(e);
    }
    Ok(n)
}

/// `hole <i>`, the name of a region's hole contour in errors.
pub open spec fn hole_name(i: nat) -> Seq<char> {
    "hole "@ + decimal(i)
}

/// What the holes of `contours` give, up to the first `k`: each must be an
/// array of whole vertices, at least three of them; their sizes in order.
pub open spec fn hole_sizes(contours: Seq<Json>, k: int) -> Result<Seq<nat>, Seq<char>>
    decreases k,
{
    if k <= 0 {
        Ok(Seq::empty())
    } else {
        match hole_sizes(contours, k - 1) {
            Err(e) => Err(e),
            Ok(sizes) => {
                let i = (k - 1) as nat;
                match contours[k - 1].node {
                    JsonNode::Array(points) => match vertex_error(points@, hole_name(i), 0) {
                        Some(e) => Err(e),
                        None => if points@.len() < 3 {
                            Err("Region hole "@ + decimal(i) + " needs at least 3 vertices, got "@
                                + decimal(points@.len()))
                        } else {
                            Ok(sizes.push(points@.len()))
                        },
                    },
                    _ => Err("Region hole "@ + decimal(i) + " must be an array of vertices"@),
                }
            },
        }
    }
}

/// What a region's `holes` field gives: none when absent or `null`; an
/// array of contours, each checked; anything else refused.
pub open spec fn holes_result(json: Json) -> Result<Seq<nat>, Seq<char>> {
    match json.spec_get("holes"@) {
        None => Ok(Seq::empty()),
        Some(v) => match v.node {
            JsonNode::Null => Ok(Seq::empty()),
            JsonNode::Array(contours) => hole_sizes(contours@, contours@.len() as int),
            _ => Err("Region holes must be an array, got "@ + v.text@),
        },
    }
}

fn hole_label(i: usize) -> (r: String)
    ensures
        r@ == hole_name(i as nat),
{
    let mut r = String::new();
    push_str(&mut r, "hole ");
    let n = u64_text(i as u64);
    push_str(&mut r, n.as_str());
    r
}

proof fn lemma_hole_sizes_stay_failed(contours: Seq<Json>, k: int)
    requires
        0 <= k <= contours.len(),
        hole_sizes(contours, k) is Err,
    ensures
        hole_sizes(contours, contours.len() as int) == hole_sizes(contours, k),
    decreases contours.len() - k,
{
    if k < contours.len() {
        lemma_hole_sizes_stay_failed(contours, k + 1);
    }
}

impl McpServer {
    /// The sizes of a region's hole contours, by index: absent or `null` is
    /// none; each hole must be an array of at least three whole vertices,
    /// and anything but an array of holes is refused.
    pub fn region_hole_sizes(json: &Json) -> (r: Result<Vec<usize>, String>)
        ensures
            (match r {
                Ok(v) => Ok(v@.map_values(|n: usize| n as nat)),
                Err(e) => Err(e@),
            }) == holes_result(*json),
    {
        let value = match json.get("holes") {
            Some(v) => v,
            None => {
                let out: Vec<usize> = Vec::new();
                assert(out@.map_values(|n: usize| n as nat) =~= Seq::<nat>::empty());
                return Ok(out);
            },
        };
        let contours = match &value.node {
            JsonNode::Null => {
                let out: Vec<usize> = Vec::new();
                assert(out@.map_values(|n: usize| n as nat) =~= Seq::<nat>::empty());
                return Ok(out);
            },
            JsonNode::Array(contours) => contours,
            _ => {
                let mut e = String::new();
                push_str(&mut e, "Region holes must be an array, got ");
                push_str(&mut e, value.text.as_str());
                return Err(e);
            },
        };
        let mut sizes: Vec<usize> = Vec::new();
        assert(sizes@.map_values(|n: usize| n as nat) =~= Seq::<nat>::empty());
        let mut i: usize = 0;
        while i < contours.len()
            invariant
                i <= contours.len(),
                hole_sizes(contours@, i as int) == Ok::<Seq<nat>, Seq<char>>(
                    sizes@.map_values(|n: usize| n as nat),
                ),
                json.spec_get("holes"@) == Some(*value),
                value.node == JsonNode::Array(*contours),
            decreases contours.len() - i,
        {
            let ghost before = sizes@;
            match &contours[i].node {
                JsonNode::Array(points) => {
                    let name = hole_label(i);
                    let n = match contour_size(points.as_slice(), name.as_str()) {
                        Ok(n) => n,
                        Err(e) => {
                            proof {
                                lemma_hole_sizes_stay_failed(contours@, i + 1);
                            }
                            return Err(e);
                        },
                    };
                    if n < 3 {
                        let mut e = String::new();
                        push_str(&mut e, "Region hole ");
                        let idx = u64_text(i as u64);
                        push_str(&mut e, idx.as_str());
                        push_str(&mut e, " needs at least 3 vertices, got ");
                        let count = u64_text(n as u64);
                        push_str(&mut e, count.as_str());
                        proof {
                            lemma_hole_sizes_stay_failed(contours@, i + 1);
                        }
                        return Err(e);
                    }
                    sizes.push(n);
                    assert(sizes@.map_values(|n: usize| n as nat) =~= before.map_values(
                        |n: usize| n as nat,
                    ).push(n as nat));
                },
                _ => {
                    let mut e = String::new();
                    push_str(&mut e, "Region hole ");
                    let idx = u64_text(i as u64);
                    push_str(&mut e, idx.as_str());
                    push_str(&mut e, " must be an array of vertices");
                    proof {
                        lemma_hole_sizes_stay_failed(contours@, i + 1);
                    }
                    return Err(e);
                },
            }
            i += 1;
        }
        Ok(sizes)
    }
}

} // verus!
