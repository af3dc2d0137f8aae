//! Readers for the individual fields of a primitive's JSON: the integer
//! header fields with their from-scratch defaults, identity GUIDs, replay
//! blobs, percentages, per-layer stacks, font face names and the
//! unknown-key guard every object passes through.
use base64::Engine as _;
use vstd::prelude::*;
use crate::json::{Json, JsonNode};
use crate::text::{
    chars_of, decimal, push_char, push_str, u64_text,
    utf16_len, utf16_units,
};

verus! {

// ---------------------------------------------------------------- integer fields

/// What `json_i32` gives: the member read as an integer in `i32` range.
pub open spec fn i32_at(json: Json, field: Seq<char>) -> Option<i32> {
    match json.i64_at(field) {
        Some(v) => if i32::MIN <= v && v <= i32::MAX {
            Some(v as i32)
        } else {
            None
        },
        None => None,
    }
}

/// The member `key` read as an unsigned integer no larger than `max`.
pub open spec fn bounded_u64_at(json: Json, key: Seq<char>, max: u64) -> Option<u64> {
    match json.u64_at(key) {
        Some(v) => if v <= max {
            Some(v)
        } else {
            None
        },
        None => None,
    }
}

/// Reads an integer field as `i32`: `None` if it is missing, not an
/// integer, or outside `i32` range, so an absurd value is refused rather
/// than wrapped into a small in-range coordinate.
pub fn json_i32(json: &Json, field: &str) -> (r: Option<i32>)
    ensures
        r == i32_at(*json, field@),
{
    match json.i64_field(field) {
        Some(v) => if i32::MIN as i64 <= v && v <= i32::MAX as i64 {
            Some(v as i32)
        } else {
            None
        },
        None => None,
    }
}

fn bounded_u64(json: &Json, key: &str, max: u64) -> (r: Option<u64>)
    ensures
        r == bounded_u64_at(*json, key@, max),
{
    match json.u64_field(key) {
        Some(v) => if v <= max {
            Some(v)
        } else {
            None
        },
        None => None,
    }
}

/// The optional `keepout_restrictions` bitmask of a primitive.
pub fn json_keepout(json: &Json) -> (r: Option<u8>)
    ensures
        r == (match bounded_u64_at(*json, "keepout_restrictions"@, 255) {
            Some(v) => Some(v as u8),
            None => None,
        }),
{
    match bounded_u64(json, "keepout_restrictions", 255) {
        Some(v) => Some(v as u8),
        None => None,
    }
}

/// A primitive's header net index, `0xFFFF` ("no net") when absent or out
/// of range.
pub fn json_net_index(json: &Json) -> (r: u16)
    ensures
        r == (match bounded_u64_at(*json, "net_index"@, 0xFFFF) {
            Some(v) => v as u16,
            None => 0xFFFFu16,
        }),
{
    match bounded_u64(json, "net_index", 0xFFFF) {
        Some(v) => v as u16,
        None => 0xFFFF,
    }
}

/// A primitive's header polygon index, `0xFFFF` (none) when absent or out
/// of range.
pub fn json_polygon_index(json: &Json) -> (r: u16)
    ensures
        r == (match bounded_u64_at(*json, "polygon_index"@, 0xFFFF) {
            Some(v) => v as u16,
            None => 0xFFFFu16,
        }),
{
    match bounded_u64(json, "polygon_index", 0xFFFF) {
        Some(v) => v as u16,
        None => 0xFFFF,
    }
}

/// A primitive's header component index, `-1` (a free primitive) when
/// absent or outside `i32` range.
pub fn json_component_index(json: &Json) -> (r: i32)
    ensures
        r == (match i32_at(*json, "component_index"@) {
            Some(v) => v,
            None => -1i32,
        }),
{
    match json_i32(json, "component_index") {
        Some(v) => v,
        None => -1,
    }
}

/// A read primitive's header layer byte (`raw_layer_id`).
pub fn json_raw_layer_id(json: &Json) -> (r: Option<u8>)
    ensures
        r == (match bounded_u64_at(*json, "raw_layer_id"@, 255) {
            Some(v) => Some(v as u8),
            None => None,
        }),
{
    match bounded_u64(json, "raw_layer_id", 255) {
        Some(v) => Some(v as u8),
        None => None,
    }
}

// ---------------------------------------------------------------- string fields

/// The views of an optional string.
pub open spec fn opt_view(o: Option<String>) -> Option<Seq<char>> {
    match o {
        Some(s) => Some(s@),
        None => None,
    }
}

/// An optional verbatim string field.
pub fn json_guidless_opt(json: &Json, key: &str) -> (r: Option<String>)
    ensures
        opt_view(r) == json.str_at(key@),
{
    match json.str_field(key) {
        Some(s) => Some(s.to_string()),
        None => None,
    }
}

/// The optional `unique_id` (identity) of any primitive: `None` when absent,
/// so the writer generates one exactly as for from-scratch output.
pub fn json_unique_id(json: &Json) -> (r: Option<String>)
    ensures
        opt_view(r) == json.str_at("unique_id"@),
{
    json_guidless_opt(json, "unique_id")
}

// ---------------------------------------------------------------- GUIDs

/// An ASCII hexadecimal digit, in either case.
pub open spec fn is_hex_digit(c: char) -> bool {
    ('0' <= c && c <= '9') || ('a' <= c && c <= 'f') || ('A' <= c && c <= 'F')
}

/// Thirty-two hexadecimal digits.
pub open spec fn uuid_simple(s: Seq<char>) -> bool {
    s.len() == 32 && forall|i: int| 0 <= i < 32 ==> is_hex_digit(#[trigger] s[i])
}

/// The hyphenated form: 36 characters, hyphens at 8, 13, 18 and 23 and
/// hexadecimal digits everywhere else.
pub open spec fn uuid_hyphenated(s: Seq<char>) -> bool {
    &&& s.len() == 36
    &&& forall|i: int|
        0 <= i < 36 ==> if i == 8 || i == 13 || i == 18 || i == 23 {
            #[trigger] s[i] == '-'
        } else {
            is_hex_digit(s[i])
        }
}

/// `c` equals `d` once both are ASCII lower-cased.
pub open spec fn same_ignoring_ascii_case(c: char, d: char) -> bool {
    crate::text::ascii_lower(c) == crate::text::ascii_lower(d)
}

/// Whether `uuid::Uuid::parse_str` accepts `text`: the simple form, the
/// hyphenated form, the hyphenated form in braces, or the hyphenated form
/// after `urn:uuid:` in any ASCII case.
pub open spec fn uuid_accepts(text: Seq<char>) -> bool {
    ||| uuid_simple(text)
    ||| uuid_hyphenated(text)
    ||| (text.len() == 38 && text[0] == '{' && text[37] == '}' && uuid_hyphenated(text.subrange(1, 37)))
    ||| (text.len() == 45 && (forall|i: int| 0 <= i < 9 ==> same_ignoring_ascii_case(#[trigger] text[i], "urn:uuid:"@[i]))
        && uuid_hyphenated(text.subrange(9, 45)))
}

/// `uuid::Uuid::parse_str(text).is_ok()`: whether the uuid crate accepts the
/// text as a UUID, in the forms [`uuid_accepts`] lists (the crate checks the
/// lengths in bytes, but every accepted character is ASCII).
#[verifier::external_body]
fn uuid_parses(text: &str) -> (r: bool)
    ensures
        r == uuid_accepts(text@),
{
    uuid::Uuid::parse_str(text).is_ok()
}

/// `s` without its leading `{` characters.
pub open spec fn strip_open_braces(s: Seq<char>) -> Seq<char>
    decreases s.len(),
{
    if s.len() > 0 && s[0] == '{' {
        strip_open_braces(s.drop_first())
    } else {
        s
    }
}

/// `s` without its trailing `}` characters.
pub open spec fn strip_close_braces(s: Seq<char>) -> Seq<char>
    decreases s.len(),
{
    if s.len() > 0 && s.last() == '}' {
        strip_close_braces(s.drop_last())
    } else {
        s
    }
}

/// The GUID text with its braces taken off.
pub open spec fn bare_guid(text: Seq<char>) -> Seq<char> {
    strip_close_braces(strip_open_braces(text))
}

/// What `guid_field` gives, over views.
pub open spec fn guid_field_result(json: Json, key: Seq<char>, field: Seq<char>) -> Result<Option<Seq<char>>, Seq<char>> {
    match json.spec_get(key) {
        None => Ok(None),
        Some(v) => match v.node {
            JsonNode::Null => Ok(None),
            JsonNode::Str(text) => if uuid_accepts(bare_guid(text@)) {
                Ok(Some(text@))
            } else {
                Err(field + " '"@ + text@ + "' is not a GUID ({XXXXXXXX-XXXX-XXXX-XXXX-XXXXXXXXXXXX})"@)
            },
            _ => Err(field + " must be a string, got "@ + v.text@),
        },
    }
}

/// The views of an optional-string result.
pub open spec fn opt_result_view(r: Result<Option<String>, String>) -> Result<Option<Seq<char>>, Seq<char>> {
    match r {
        Ok(Some(s)) => Ok(Some(s@)),
        Ok(None) => Ok(None),
        Err(e) => Err(e@),
    }
}

proof fn lemma_strip_open(s: Seq<char>, i: int)
    requires
        0 <= i <= s.len(),
        forall|k: int| 0 <= k < i ==> #[trigger] s[k] == '{',
    ensures
        strip_open_braces(s) == strip_open_braces(s.subrange(i, s.len() as int)),
    decreases i,
{
    if i > 0 {
        let t = s.drop_first();
        assert forall|k: int| 0 <= k < i - 1 implies #[trigger] t[k] == '{' by {
            assert(t[k] == s[k + 1]);
        }
        lemma_strip_open(t, i - 1);
        assert(t.subrange(i - 1, t.len() as int) =~= s.subrange(i, s.len() as int));
    } else {
        assert(s.subrange(0, s.len() as int) =~= s);
    }
}

proof fn lemma_strip_close(s: Seq<char>, j: int)
    requires
        0 <= j <= s.len(),
        forall|k: int| j <= k < s.len() ==> #[trigger] s[k] == '}',
    ensures
        strip_close_braces(s) == strip_close_braces(s.subrange(0, j)),
    decreases s.len() - j,
{
    if j < s.len() {
        let t = s.drop_last();
        assert forall|k: int| j <= k < t.len() implies #[trigger] t[k] == '}' by {
            assert(t[k] == s[k]);
        }
        lemma_strip_close(t, j);
        assert(t.subrange(0, j) =~= s.subrange(0, j));
    } else {
        assert(s.subrange(0, j) =~= s);
    }
}

/// The text between the leading `{` and trailing `}` characters of `text`.
fn strip_braces(text: &str) -> (r: String)
    ensures
        r@ == bare_guid(text@),
{
    let v = chars_of(text);
    let mut i: usize = 0;
    while i < v.len() && v[i] == '{'
        invariant
            i <= v.len(),
            forall|k: int| 0 <= k < i ==> #[trigger] v@[k] == '{',
        decreases v.len() - i,
    {
        i += 1;
    }
    proof {
        lemma_strip_open(v@, i as int);
    }
    let ghost rest = v@.subrange(i as int, v@.len() as int);
    assert(strip_open_braces(rest) == rest);
    let mut j: usize = v.len();
    while j > i && v[j - 1] == '}'
        invariant
            i <= j <= v.len(),
            rest == v@.subrange(i as int, v@.len() as int),
            forall|k: int| j - i <= k < rest.len() ==> #[trigger] rest[k] == '}',
        decreases j,
    {
        j -= 1;
    }
    proof {
        lemma_strip_close(rest, j - i);
        assert(rest.subrange(0, j - i) =~= v@.subrange(i as int, j as int));
        let t = v@.subrange(i as int, j as int);
        if t.len() > 0 {
            assert(t.last() == v@[j - 1]);
        }
    }
    let mut out = String::new();
    let mut k = i;
    while k < j
        invariant
            i <= k <= j <= v.len(),
            out@ == v@.subrange(i as int, k as int),
        decreases j - k,
    {
        push_char(&mut out, v[k]);
        k += 1;
        assert(v@.subrange(i as int, k as int) =~= v@.subrange(i as int, (k - 1) as int).push(
            v@[k - 1],
        ));
    }
    out
}

/// Reads an identity GUID (`key`) from a record's JSON: absent or `null` is
/// `Ok(None)`; a string whose text between its braces is a UUID is kept
/// verbatim; anything else is refused, named by `field`.
pub fn guid_field(json: &Json, key: &str, field: &str) -> (r: Result<Option<String>, String>)
    ensures
        opt_result_view(r) == guid_field_result(*json, key@, field@),
{
    match json.get(key) {
        None => Ok(None),
        Some(v) => match &v.node {
            JsonNode::Null => Ok(None),
            JsonNode::Str(text) => {
                let bare = strip_braces(text.as_str());
                if uuid_parses(bare.as_str()) {
                    Ok(Some(text.clone()))
                } else {
                    let mut e = String::new();
                    push_str(&mut e, field);
                    push_str(&mut e, " '");
                    push_str(&mut e, text.as_str());
                    push_str(&mut e, "' is not a GUID ({XXXXXXXX-XXXX-XXXX-XXXX-XXXXXXXXXXXX})");
                    Err(e)
                }
            },
            _ => {
                let mut e = String::new();
                push_str(&mut e, field);
                push_str(&mut e, " must be a string, got ");
                push_str(&mut e, v.text.as_str());
                Err(e)
            },
        },
    }
}

// ---------------------------------------------------------------- base64 blobs

/// The bytes `base64::engine::general_purpose::STANDARD` decodes `text` to,
/// or `None` where it refuses the text.
pub uninterp spec fn base64_standard_decode(text: Seq<char>) -> Option<Seq<u8>>;

/// `STANDARD.decode(text.as_bytes())` of the base64 crate, with its error
/// mapped to `None`. The claim is only that the outcome is the named
/// function of the text.
#[verifier::external_body]
fn base64_decode(text: &str) -> (r: Option<Vec<u8>>)
    ensures
        r is Some <==> base64_standard_decode(text@) is Some,
        r matches Some(b) ==> base64_standard_decode(text@) == Some(b@),
{
    match base64::engine::general_purpose::STANDARD.decode(text.as_bytes()) {
        Ok(bytes) => Some(bytes),
        Err(_) => None,
    }
}

/// What `json_base64` gives, over views.
pub open spec fn base64_field(json: Json, key: Seq<char>) -> Option<Seq<u8>> {
    match json.str_at(key) {
        Some(text) => base64_standard_decode(text),
        None => None,
    }
}

/// Reads a base64-encoded byte field (a replay block or image bytes).
/// Invalid base64 is treated as absent, so the writer falls back to its
/// captured template.
pub fn json_base64(json: &Json, key: &str) -> (r: Option<Vec<u8>>)
    ensures
        r is Some <==> base64_field(*json, key@) is Some,
        r matches Some(b) ==> base64_field(*json, key@) == Some(b@),
{
    match json.str_field(key) {
        Some(text) => base64_decode(text),
        None => None,
    }
}

// ---------------------------------------------------------------- percentages

/// What `percent` gives, over views.
pub open spec fn percent_result(value: Json, field: Seq<char>) -> Result<u8, Seq<char>> {
    match value.spec_as_u64() {
        Some(v) => if v <= 100 {
            Ok(v as u8)
        } else {
            Err(field + " must be a whole number from 0 to 100, got "@ + value.text@)
        },
        None => Err(field + " must be a whole number from 0 to 100, got "@ + value.text@),
    }
}

/// A corner-radius percentage: a whole number from 0 to 100. Anything else
/// (negative, fractional, over 100) is refused, since the writer would
/// otherwise store "no radius" for it without a word.
pub fn percent(value: &Json, field: &str) -> (r: Result<u8, String>)
    ensures
        (match r {
            Ok(p) => Ok(p),
            Err(e) => Err(e@),
        }) == percent_result(*value, field@),
{
    match value.as_u64() {
        Some(v) => if v <= 100 {
            return Ok(v as u8);
        },
        None => {},
    }
    let mut e = String::new();
    push_str(&mut e, field);
    push_str(&mut e, " must be a whole number from 0 to 100, got ");
    push_str(&mut e, value.text.as_str());
    Err(e)
}

// ---------------------------------------------------------------- per-layer stacks

/// How a pad stores its per-layer geometry.
#[derive(PartialEq, Eq, Structural, Clone, Copy, Debug)]
pub enum PadStackMode {
    Simple,
    TopMiddleBottom,
    FullStack,
}

/// The error for a per-layer array on a simple pad.
pub open spec fn simple_stack_message(field: Seq<char>) -> Seq<char> {
    field
        + " is given but stack_mode is simple; set stack_mode to top_middle_bottom (3 entries: top, mid, bottom) or full_stack (32 entries: index 0 = Top, 1 = Bottom, 2-31 = Mid layers)"@
}

/// The error for a full-stack-only array on a top-middle-bottom pad.
pub open spec fn full_stack_only_message(field: Seq<char>) -> Seq<char> {
    field
        + " applies to a full_stack pad only; a top_middle_bottom pad stores per-layer sizes and shapes"@
}

/// The number of entries a stack mode takes, its name and its layout.
pub open spec fn stack_layout(mode: PadStackMode) -> (nat, Seq<char>, Seq<char>) {
    match mode {
        PadStackMode::FullStack => (
            32,
            "full_stack"@,
            "index 0 = Top, 1 = Bottom, 2-31 = Mid layers"@,
        ),
        _ => (3, "top_middle_bottom"@, "[top, mid, bottom]"@),
    }
}

/// The error for a per-layer array of the wrong length.
pub open spec fn stack_count_message(field: Seq<char>, count: nat, mode: PadStackMode) -> Seq<char> {
    let (expected, name, layout) = stack_layout(mode);
    field + " has "@ + decimal(count) + " entries; "@ + name + " takes "@ + decimal(expected)
        + " ("@ + layout + ")"@
}

/// What `stack_entries` gives: `Ok(None)` for an absent array, the entries
/// when their count matches the mode, else the error.
pub open spec fn stack_entries_result(
    json: Json,
    key: Seq<char>,
    stack_mode: PadStackMode,
    full_stack_only: bool,
    field: Seq<char>,
) -> Result<Option<Seq<Json>>, Seq<char>> {
    match json.present(key) {
        None => Ok(None),
        Some(v) => match v.node {
            JsonNode::Array(entries) => {
                if stack_mode == PadStackMode::Simple {
                    Err(simple_stack_message(field))
                } else if stack_mode == PadStackMode::TopMiddleBottom && full_stack_only {
                    Err(full_stack_only_message(field))
                } else if entries@.len() != stack_layout(stack_mode).0 {
                    Err(stack_count_message(field, entries@.len(), stack_mode))
                } else {
                    Ok(Some(entries@))
                }
            },
            _ => Err(field + " must be an array, got "@ + v.text@),
        },
    }
}

/// The entries of a pad's per-layer array (`key`), held to what the record
/// stores: none on a simple pad; three, `[top, mid, bottom]`, on a
/// top-middle-bottom pad (which keeps sizes and shapes only); thirty-two on
/// a full stack. A count that does not match is refused rather than mended
/// in silence. `field` names the pad and key in errors.
pub fn stack_entries<'a>(
    json: &'a Json,
    key: &str,
    stack_mode: PadStackMode,
    full_stack_only: bool,
    field: &str,
) -> (r: Result<Option<&'a [Json]>, String>)
    ensures
        (match r {
            Ok(Some(s)) => Ok(Some(s@)),
            Ok(None) => Ok(None),
            Err(e) => Err(e@),
        }) == stack_entries_result(*json, key@, stack_mode, full_stack_only, field@),
{
    let value = match json.present_field(key) {
        Some(v) => v,
        None => return Ok(None),
    };
    let entries = match &value.node {
        JsonNode::Array(entries) => entries,
        _ => {
            let mut e = String::new();
            push_str(&mut e, field);
            push_str(&mut e, " must be an array, got ");
            push_str(&mut e, value.text.as_str());
            return Err(e);
        },
    };
    let (expected, mode, layout): (usize, &str, &str) = match stack_mode {
        PadStackMode::Simple => {
            let mut e = String::new();
            push_str(&mut e, field);
            push_str(
                &mut e,
                " is given but stack_mode is simple; set stack_mode to top_middle_bottom (3 entries: top, mid, bottom) or full_stack (32 entries: index 0 = Top, 1 = Bottom, 2-31 = Mid layers)",
            );
            return Err(e);
        },
        PadStackMode::TopMiddleBottom => {
            if full_stack_only {
                let mut e = String::new();
                push_str(&mut e, field);
                push_str(
                    &mut e,
                    " applies to a full_stack pad only; a top_middle_bottom pad stores per-layer sizes and shapes",
                );
                return Err(e);
            }
            (3, "top_middle_bottom", "[top, mid, bottom]")
        },
        PadStackMode::FullStack => (32, "full_stack", "index 0 = Top, 1 = Bottom, 2-31 = Mid layers"),
    };
    if entries.len() != expected {
        let mut e = String::new();
        push_str(&mut e, field);
        push_str(&mut e, " has ");
        let count = u64_text(entries.len() as u64);
        push_str(&mut e, count.as_str());
        push_str(&mut e, " entries; ");
        push_str(&mut e, mode);
        push_str(&mut e, " takes ");
        let want = u64_text(expected as u64);
        push_str(&mut e, want.as_str());
        push_str(&mut e, " (");
        push_str(&mut e, layout);
        push_str(&mut e, ")");
        return Err(e);
    }
    Ok(Some(entries.as_slice()))
}

// ---------------------------------------------------------------- font face names

/// What `font_face_name` gives, over views.
pub open spec fn font_face_result(name: Seq<char>, field: Seq<char>) -> Result<Seq<char>, Seq<char>> {
    if utf16_len(name) <= 31 {
        Ok(name)
    } else {
        Err(field + " '"@ + name + "' is "@ + decimal(utf16_len(name))
            + " UTF-16 units long; a Windows font face name has at most 31"@)
    }
}

/// A Windows font face name: at most 31 UTF-16 units, which is all the text
/// record's 64-byte field holds beside its terminator. A longer name would
/// be written cut short without a word, so it is refused.
pub fn font_face_name<'a>(name: &'a str, field: &str) -> (r: Result<&'a str, String>)
    requires
        name@.len() <= usize::MAX / 2,
    ensures
        (match r {
            Ok(n) => Ok(n@),
            Err(e) => Err(e@),
        }) == font_face_result(name@, field@),
{
    let units = utf16_units(name);
    if units <= 31 {
        Ok(name)
    } else {
        let mut e = String::new();
        push_str(&mut e, field);
        push_str(&mut e, " '");
        push_str(&mut e, name);
        push_str(&mut e, "' is ");
        let n = u64_text(units as u64);
        push_str(&mut e, n.as_str());
        push_str(&mut e, " UTF-16 units long; a Windows font face name has at most 31");
        Err(e)
    }
}

} // verus!
