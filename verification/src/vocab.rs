//! Vocabularies of the tool boundary: the reference-designator table, the
//! spelling fold that lets `TopMiddleBottom`, `top-middle-bottom` and
//! `top_middle_bottom` name one value, the enum-name resolution built on it,
//! and the pad-shape vocabulary shared by every tool that takes a shape.
use vstd::prelude::*;
use crate::McpServer;
use crate::json::{Json, JsonNode};
use crate::text::{
    all_ascii, ascii_lower, is_ascii_upper, ascii_lowercase, ascii_lowercase_range, chars_eq_str, chars_in,
    chars_of, is_white_space, join, join_strs, lemma_trim_ascii_lowercase, lemma_trim_padded,
    push_chars, push_str, str_views, trim, trim_bounds,
};

verus! {

// ---------------------------------------------------------------- lower-casing

/// What `char::to_lowercase` yields for `c` (Unicode default case mapping).
pub uninterp spec fn char_lowercase(c: char) -> Seq<char>;

/// What `str::to_lowercase` yields for `s` (Unicode default case mapping,
/// with the final-sigma rule).
pub uninterp spec fn str_lowercase(s: Seq<char>) -> Seq<char>;

/// `char::to_lowercase`, collected. The claim: the result is the named
/// Unicode lower-case mapping of `c`, and for an ASCII `c` it is the ASCII
/// lower-case letter alone (the Unicode mapping agrees with ASCII there).
#[verifier::external_body]
fn lowercase_of_char(c: char) -> (r: Vec<char>)
    ensures
        r@ == char_lowercase(c),
        (c as u32) < 128 ==> r@ == seq![ascii_lower(c)],
{
    c.to_lowercase().collect()
}

/// `str::to_lowercase`. The claim: the result is the named Unicode
/// lower-case mapping of `s`, which for an all-ASCII `s` is its ASCII
/// lower-case form.
#[verifier::external_body]
pub(crate) fn lowercase_of_str(s: &str) -> (r: String)
    ensures
        r@ == str_lowercase(s@),
        all_ascii(s@) ==> r@ == ascii_lowercase(s@),
{
    s.to_lowercase()
}

// ---------------------------------------------------------------- IEEE 315 table

pub const IEEE_R: [&'static str; 6] = ["resistor", "res", "potentiometer", "pot", "trimmer", "rheostat"];

pub const IEEE_RN: [&'static str; 3] = ["resistor_network", "resistor_array", "network"];

pub const IEEE_RT: [&'static str; 3] = ["thermistor", "ntc", "ptc"];

pub const IEEE_RV: [&'static str; 2] = ["varistor", "mov"];

pub const IEEE_C: [&'static str; 2] = ["capacitor", "cap"];

pub const IEEE_L: [&'static str; 6] = ["inductor", "coil", "choke", "ferrite", "ferrite_bead", "bead"];

pub const IEEE_D: [&'static str; 6] = ["diode", "rectifier", "schottky", "zener", "tvs", "led"];

pub const IEEE_DS: [&'static str; 4] = ["display", "lamp", "indicator", "lightbulb"];

pub const IEEE_Q: [&'static str; 6] = ["transistor", "mosfet", "fet", "bjt", "igbt", "jfet"];

pub const IEEE_U: [&'static str; 7] = [
    "ic",
    "integrated_circuit",
    "microcircuit",
    "opamp",
    "mcu",
    "regulator",
    "voltage_regulator",
];

pub const IEEE_J: [&'static str; 4] = ["connector", "header", "jack", "receptacle"];

pub const IEEE_P: [&'static str; 1] = ["plug"];

pub const IEEE_X: [&'static str; 1] = ["socket"];

pub const IEEE_Y: [&'static str; 4] = ["crystal", "oscillator", "resonator", "xtal"];

pub const IEEE_S: [&'static str; 5] = ["switch", "button", "pushbutton", "dip_switch", "dipswitch"];

pub const IEEE_K: [&'static str; 2] = ["relay", "contactor"];

pub const IEEE_T: [&'static str; 1] = ["transformer"];

pub const IEEE_F: [&'static str; 1] = ["fuse"];

pub const IEEE_FL: [&'static str; 1] = ["filter"];

pub const IEEE_BT: [&'static str; 2] = ["battery", "cell"];

pub const IEEE_TP: [&'static str; 2] = ["test_point", "testpoint"];

pub const IEEE_TB: [&'static str; 2] = ["terminal_block", "terminal"];

pub const IEEE_LS: [&'static str; 3] = ["speaker", "loudspeaker", "buzzer"];

pub const IEEE_MK: [&'static str; 1] = ["microphone"];

pub const IEEE_B: [&'static str; 3] = ["motor", "fan", "blower"];

pub const IEEE_A: [&'static str; 3] = ["module", "assembly", "subassembly"];

pub const IEEE_MP: [&'static str; 4] = ["mechanical", "standoff", "screw", "mounting"];

pub const IEEE_W: [&'static str; 3] = ["jumper", "wire", "cable"];

/// Whether `key` is one of `names`.
pub open spec fn named(key: Seq<char>, names: Seq<&str>) -> bool {
    str_views(names).contains(key)
}

/// The reference-designator class letter for a normalised (trimmed,
/// ASCII lower-cased) component type; `U` for anything unlisted.
pub open spec fn ieee_prefix_of(key: Seq<char>) -> Seq<char> {
    if named(key, IEEE_R@) {
        "R"@
    } else if named(key, IEEE_RN@) {
        "RN"@
    } else if named(key, IEEE_RT@) {
        "RT"@
    } else if named(key, IEEE_RV@) {
        "RV"@
    } else if named(key, IEEE_C@) {
        "C"@
    } else if named(key, IEEE_L@) {
        "L"@
    } else if named(key, IEEE_D@) {
        "D"@
    } else if named(key, IEEE_DS@) {
        "DS"@
    } else if named(key, IEEE_Q@) {
        "Q"@
    } else if named(key, IEEE_U@) {
        "U"@
    } else if named(key, IEEE_J@) {
        "J"@
    } else if named(key, IEEE_P@) {
        "P"@
    } else if named(key, IEEE_X@) {
        "X"@
    } else if named(key, IEEE_Y@) {
        "Y"@
    } else if named(key, IEEE_S@) {
        "S"@
    } else if named(key, IEEE_K@) {
        "K"@
    } else if named(key, IEEE_T@) {
        "T"@
    } else if named(key, IEEE_F@) {
        "F"@
    } else if named(key, IEEE_FL@) {
        "FL"@
    } else if named(key, IEEE_BT@) {
        "BT"@
    } else if named(key, IEEE_TP@) {
        "TP"@
    } else if named(key, IEEE_TB@) {
        "TB"@
    } else if named(key, IEEE_LS@) {
        "LS"@
    } else if named(key, IEEE_MK@) {
        "MK"@
    } else if named(key, IEEE_B@) {
        "B"@
    } else if named(key, IEEE_A@) {
        "A"@
    } else if named(key, IEEE_MP@) {
        "MP"@
    } else if named(key, IEEE_W@) {
        "W"@
    } else {
        "U"@
    }
}

/// The key a free-text component type is looked up by: trimmed of white
/// space and lower-cased in ASCII.
pub open spec fn component_type_key(component_type: Seq<char>) -> Seq<char> {
    ascii_lowercase(trim(component_type))
}

/// Maps a free-text component type to its reference-designator class
/// letter, following IEEE 315 / ASME Y14.44 (commercial usage). The type is
/// trimmed and compared without regard to ASCII case; an unknown or empty
/// type gives `"U"` (integrated circuit / inseparable assembly).
pub fn ieee_designator_prefix(component_type: &str) -> (r: &'static str)
    ensures
        r@ == ieee_prefix_of(component_type_key(component_type@)),
{
    let v = chars_of(component_type);
    let (i, j) = trim_bounds(v.as_slice());
    let key = ascii_lowercase_range(v.as_slice(), i, j);
    let k = key.as_slice();
    if chars_in(k, &IEEE_R) {
        "R"
    } else if chars_in(k, &IEEE_RN) {
        "RN"
    } else if chars_in(k, &IEEE_RT) {
        "RT"
    } else if chars_in(k, &IEEE_RV) {
        "RV"
    } else if chars_in(k, &IEEE_C) {
        "C"
    } else if chars_in(k, &IEEE_L) {
        "L"
    } else if chars_in(k, &IEEE_D) {
        "D"
    } else if chars_in(k, &IEEE_DS) {
        "DS"
    } else if chars_in(k, &IEEE_Q) {
        "Q"
    } else if chars_in(k, &IEEE_U) {
        "U"
    } else if chars_in(k, &IEEE_J) {
        "J"
    } else if chars_in(k, &IEEE_P) {
        "P"
    } else if chars_in(k, &IEEE_X) {
        "X"
    } else if chars_in(k, &IEEE_Y) {
        "Y"
    } else if chars_in(k, &IEEE_S) {
        "S"
    } else if chars_in(k, &IEEE_K) {
        "K"
    } else if chars_in(k, &IEEE_T) {
        "T"
    } else if chars_in(k, &IEEE_F) {
        "F"
    } else if chars_in(k, &IEEE_FL) {
        "FL"
    } else if chars_in(k, &IEEE_BT) {
        "BT"
    } else if chars_in(k, &IEEE_TP) {
        "TP"
    } else if chars_in(k, &IEEE_TB) {
        "TB"
    } else if chars_in(k, &IEEE_LS) {
        "LS"
    } else if chars_in(k, &IEEE_MK) {
        "MK"
    } else if chars_in(k, &IEEE_B) {
        "B"
    } else if chars_in(k, &IEEE_A) {
        "A"
    } else if chars_in(k, &IEEE_MP) {
        "MP"
    } else if chars_in(k, &IEEE_W) {
        "W"
    } else {
        "U"
    }
}

/// White space around a component type changes neither its table key nor
/// the designator prefix it maps to.
pub proof fn lemma_component_type_ignores_padding(left: Seq<char>, component_type: Seq<char>, right: Seq<char>)
    requires
        forall|k: int| 0 <= k < left.len() ==> is_white_space(#[trigger] left[k]),
        forall|k: int| 0 <= k < right.len() ==> is_white_space(#[trigger] right[k]),
    ensures
        component_type_key(left + component_type + right) == component_type_key(component_type),
        ieee_prefix_of(component_type_key(left + component_type + right)) == ieee_prefix_of(
            component_type_key(component_type),
        ),
{
    lemma_trim_padded(left, component_type, right);
}

/// Component types that differ only in ASCII case share a table key, and so
/// a designator prefix.
pub proof fn lemma_component_type_ignores_case(a: Seq<char>, b: Seq<char>)
    requires
        ascii_lowercase(a) == ascii_lowercase(b),
    ensures
        component_type_key(a) == component_type_key(b),
        ieee_prefix_of(component_type_key(a)) == ieee_prefix_of(component_type_key(b)),
{
    lemma_trim_ascii_lowercase(a);
    lemma_trim_ascii_lowercase(b);
}

// ---------------------------------------------------------------- spelling fold

/// The separators a folded spelling drops.
pub open spec fn is_separator(c: char) -> bool {
    c == ' ' || c == '-' || c == '_'
}

/// A spelling without case or the `_`, `-` and space separators: each
/// remaining character replaced by its lower-case mapping.
pub open spec fn fold(s: Seq<char>) -> Seq<char>
    decreases s.len(),
{
    if s.len() == 0 {
        Seq::empty()
    } else {
        fold(s.drop_last()) + (if is_separator(s.last()) {
            Seq::empty()
        } else {
            char_lowercase(s.last())
        })
    }
}

/// A spelling without case or the `_`, `-` and space separators, so the
/// serde name, a camel-cased or a spaced form compare equal.
pub fn fold_spelling(s: &str) -> (r: String)
    ensures
        r@ == fold(s@),
        all_ascii(s@) ==> r@ == ascii_fold(s@),
{
    let v = chars_of(s);
    let mut r = String::new();
    let mut i: usize = 0;
    while i < v.len()
        invariant
            i <= v.len(),
            v@ == s@,
            r@ == fold(v@.take(i as int)),
            all_ascii(s@) ==> r@ == ascii_fold(v@.take(i as int)),
        decreases v.len() - i,
    {
        let c = v[i];
        assert(v@.take((i + 1) as int).drop_last() =~= v@.take(i as int));
        if !(c == ' ' || c == '-' || c == '_') {
            let lower = lowercase_of_char(c);
            push_chars(&mut r, lower.as_slice());
            assert(all_ascii(s@) ==> (c as u32) < 128);
        } else {
            assert(r@ =~= fold(v@.take(i as int)) + Seq::<char>::empty());
        }
        i += 1;
    }
    assert(v@.take(v.len() as int) =~= v@);
    r
}

/// The fold of an all-ASCII spelling: separators dropped, the rest
/// lower-cased in ASCII.
pub open spec fn ascii_fold(s: Seq<char>) -> Seq<char>
    decreases s.len(),
{
    if s.len() == 0 {
        Seq::empty()
    } else {
        ascii_fold(s.drop_last()) + (if is_separator(s.last()) {
            Seq::empty()
        } else {
            seq![ascii_lower(s.last())]
        })
    }
}

proof fn lemma_fold_append(a: Seq<char>, b: Seq<char>)
    ensures
        fold(a + b) == fold(a) + fold(b),
    decreases b.len(),
{
    if b.len() == 0 {
        assert(a + b =~= a);
        assert(fold(a) + fold(b) =~= fold(a));
    } else {
        assert((a + b).drop_last() =~= a + b.drop_last());
        assert((a + b).last() == b.last());
        lemma_fold_append(a, b.drop_last());
        let piece = if is_separator(b.last()) {
            Seq::<char>::empty()
        } else {
            char_lowercase(b.last())
        };
        assert(fold(a) + fold(b.drop_last()) + piece =~= fold(a) + (fold(b.drop_last()) + piece));
    }
}

/// A separator anywhere in a spelling leaves its fold unchanged, so
/// `top_middle_bottom`, `top-middle-bottom` and `topmiddlebottom` fold alike.
pub proof fn lemma_fold_ignores_separators(a: Seq<char>, b: Seq<char>, separator: char)
    requires
        is_separator(separator),
    ensures
        fold(a.push(separator) + b) == fold(a + b),
{
    lemma_fold_append(a.push(separator), b);
    lemma_fold_append(a, b);
    assert(a.push(separator).drop_last() =~= a);
    assert(fold(a.push(separator)) =~= fold(a));
}

/// All-ASCII spellings that differ only in case fold alike.
pub proof fn lemma_ascii_fold_ignores_case(a: Seq<char>, b: Seq<char>)
    requires
        ascii_lowercase(a) == ascii_lowercase(b),
    ensures
        ascii_fold(a) == ascii_fold(b),
    decreases a.len(),
{
    assert(a.len() == ascii_lowercase(a).len());
    assert(b.len() == ascii_lowercase(b).len());
    if a.len() > 0 {
        assert(ascii_lowercase(a.drop_last()) =~= ascii_lowercase(a).drop_last());
        assert(ascii_lowercase(b.drop_last()) =~= ascii_lowercase(b).drop_last());
        lemma_ascii_fold_ignores_case(a.drop_last(), b.drop_last());
        assert(ascii_lowercase(a).last() == ascii_lower(a.last()));
        assert(ascii_lowercase(b).last() == ascii_lower(b.last()));
    }
}

proof fn lemma_ascii_fold_append(a: Seq<char>, b: Seq<char>)
    ensures
        ascii_fold(a + b) == ascii_fold(a) + ascii_fold(b),
    decreases b.len(),
{
    if b.len() == 0 {
        assert(a + b =~= a);
        assert(ascii_fold(a) + ascii_fold(b) =~= ascii_fold(a));
    } else {
        assert((a + b).drop_last() =~= a + b.drop_last());
        assert((a + b).last() == b.last());
        lemma_ascii_fold_append(a, b.drop_last());
        assert(ascii_fold(a + b) =~= ascii_fold(a) + ascii_fold(b));
    }
}

proof fn lemma_ascii_lower_char(c: char)
    ensures
        !is_separator(c) ==> !is_separator(ascii_lower(c)),
        ascii_lower(ascii_lower(c)) == ascii_lower(c),
        (c as u32) < 128 ==> (ascii_lower(c) as u32) < 128,
{
    if is_ascii_upper(c) {
        assert(((c as u32 + 32) as char) as u32 == c as u32 + 32);
    }
}

/// A fold of an ASCII spelling holds no separator, and is ASCII itself.
pub proof fn lemma_ascii_fold_has_no_separators(s: Seq<char>)
    ensures
        forall|i: int| 0 <= i < ascii_fold(s).len() ==> !is_separator(#[trigger] ascii_fold(s)[i]),
        all_ascii(s) ==> all_ascii(ascii_fold(s)),
    decreases s.len(),
{
    if s.len() > 0 {
        lemma_ascii_fold_has_no_separators(s.drop_last());
        lemma_ascii_lower_char(s.last());
        let p = ascii_fold(s.drop_last());
        assert forall|i: int| 0 <= i < ascii_fold(s).len() implies !is_separator(#[trigger] ascii_fold(s)[i]) by {
            if i < p.len() {
                assert(ascii_fold(s)[i] == p[i]);
            }
        }
        if all_ascii(s) {
            assert(all_ascii(s.drop_last())) by {
                assert forall|i: int| 0 <= i < s.drop_last().len() implies (s.drop_last()[i] as u32) < 128 by {
                    assert(s.drop_last()[i] == s[i]);
                }
            }
            assert((s.last() as u32) < 128) by {
                assert(s[s.len() - 1] == s.last());
            }
            assert forall|i: int| 0 <= i < ascii_fold(s).len() implies (ascii_fold(s)[i] as u32) < 128 by {
                if i < p.len() {
                    assert(ascii_fold(s)[i] == p[i]);
                }
            }
        }
    }
}

/// Folding a folded spelling changes nothing: `fold_spelling` of an ASCII
/// spelling is a fixed point of itself.
pub proof fn lemma_ascii_fold_idempotent(s: Seq<char>)
    ensures
        ascii_fold(ascii_fold(s)) == ascii_fold(s),
    decreases s.len(),
{
    if s.len() > 0 {
        let p = s.drop_last();
        let c = s.last();
        lemma_ascii_fold_idempotent(p);
        lemma_ascii_lower_char(c);
        let tail = if is_separator(c) {
            Seq::<char>::empty()
        } else {
            seq![ascii_lower(c)]
        };
        assert(ascii_fold(s) == ascii_fold(p) + tail);
        lemma_ascii_fold_append(ascii_fold(p), tail);
        if !is_separator(c) {
            assert(tail.drop_last() =~= Seq::<char>::empty());
            assert(ascii_fold(tail.drop_last()) =~= Seq::<char>::empty());
            assert(tail.last() == ascii_lower(c));
            assert(!is_separator(ascii_lower(c)));
            assert(ascii_fold(tail) =~= Seq::<char>::empty() + seq![ascii_lower(ascii_lower(c))]);
            assert(ascii_fold(tail) =~= tail);
        } else {
            assert(ascii_fold(tail) =~= tail);
        }
    }
}

// ---------------------------------------------------------------- enum names

/// The views of a synonym table.
pub open spec fn pair_views(pairs: Seq<(&str, &str)>) -> Seq<(Seq<char>, Seq<char>)> {
    pairs.map_values(|p: (&str, &str)| (p.0@, p.1@))
}

/// The first accepted name whose fold is `folded`.
pub open spec fn folded_match(accepted: Seq<Seq<char>>, folded: Seq<char>) -> Option<Seq<char>>
    decreases accepted.len(),
{
    if accepted.len() == 0 {
        None
    } else if fold(accepted[0]) == folded {
        Some(accepted[0])
    } else {
        folded_match(accepted.drop_first(), folded)
    }
}

/// The name the first synonym spelled `folded` stands for.
pub open spec fn synonym_target(synonyms: Seq<(Seq<char>, Seq<char>)>, folded: Seq<char>) -> Option<
    Seq<char>,
>
    decreases synonyms.len(),
{
    if synonyms.len() == 0 {
        None
    } else if synonyms[0].0 == folded {
        Some(synonyms[0].1)
    } else {
        synonym_target(synonyms.drop_first(), folded)
    }
}

/// The accepted name `value` resolves to: an accepted name in any case and
/// with or without separators, else a synonym's name.
pub open spec fn resolve_name(
    value: Seq<char>,
    accepted: Seq<Seq<char>>,
    synonyms: Seq<(Seq<char>, Seq<char>)>,
) -> Option<Seq<char>> {
    match folded_match(accepted, fold(value)) {
        Some(name) => Some(name),
        None => synonym_target(synonyms, fold(value)),
    }
}

/// The error for a value that names nothing accepted.
pub open spec fn unrecognised_message(field: Seq<char>, value: Seq<char>, accepted: Seq<Seq<char>>) -> Seq<char> {
    field + " '"@ + value + "' is not recognised. Accepted values: "@ + join(accepted, ", "@)
}

/// What `parse_enum` gives, over views.
pub open spec fn parse_enum_result(
    value: Seq<char>,
    field: Seq<char>,
    accepted: Seq<Seq<char>>,
    synonyms: Seq<(Seq<char>, Seq<char>)>,
) -> Result<Seq<char>, Seq<char>> {
    match resolve_name(value, accepted, synonyms) {
        Some(name) => Ok(name),
        None => Err(unrecognised_message(field, value, accepted)),
    }
}

/// The views of a string result.
pub open spec fn string_result_view(r: Result<String, String>) -> Result<Seq<char>, Seq<char>> {
    match r {
        Ok(s) => Ok(s@),
        Err(e) => Err(e@),
    }
}

// ---------------------------------------------------------------- resolution laws

/// What the first folded match names is one of the accepted names.
pub(crate) proof fn lemma_folded_match_in(accepted: Seq<Seq<char>>, folded: Seq<char>)
    ensures
        folded_match(accepted, folded) matches Some(n) ==> accepted.contains(n) && fold(n)
            == folded,
    decreases accepted.len(),
{
    if accepted.len() > 0 {
        if fold(accepted[0]) == folded {
            assert(accepted[0] == accepted[0]);
        } else {
            lemma_folded_match_in(accepted.drop_first(), folded);
            if folded_match(accepted.drop_first(), folded) is Some {
                let n = folded_match(accepted.drop_first(), folded)->0;
                let i = choose|i: int|
                    0 <= i < accepted.drop_first().len() && accepted.drop_first()[i] == n;
                assert(accepted[i + 1] == n);
            }
        }
    }
}

/// An accepted name whose fold is `folded` guarantees a folded match.
proof fn lemma_folded_match_found(accepted: Seq<Seq<char>>, folded: Seq<char>, i: int)
    requires
        0 <= i < accepted.len(),
        fold(accepted[i]) == folded,
    ensures
        folded_match(accepted, folded) is Some,
    decreases accepted.len(),
{
    if fold(accepted[0]) != folded {
        assert(accepted.drop_first()[i - 1] == accepted[i]);
        lemma_folded_match_found(accepted.drop_first(), folded, i - 1);
    }
}

/// What a synonym names is the name of one of the synonyms.
pub(crate) proof fn lemma_synonym_in(synonyms: Seq<(Seq<char>, Seq<char>)>, folded: Seq<char>)
    ensures
        synonym_target(synonyms, folded) matches Some(n) ==> exists|i: int|
            0 <= i < synonyms.len() && #[trigger] synonyms[i].1 == n,
    decreases synonyms.len(),
{
    if synonyms.len() > 0 {
        lemma_synonym_in(synonyms.drop_first(), folded);
        if synonyms[0].0 != folded {
            if synonym_target(synonyms.drop_first(), folded) is Some {
                let n = synonym_target(synonyms.drop_first(), folded)->0;
                let i = choose|i: int|
                    0 <= i < synonyms.drop_first().len() && #[trigger] synonyms.drop_first()[i].1
                        == n;
                assert(synonyms[i + 1].1 == n);
            }
        } else {
            assert(synonyms[0].1 == synonyms[0].1);
        }
    }
}

/// A synonym spelled `folded` guarantees a synonym target.
proof fn lemma_synonym_found(synonyms: Seq<(Seq<char>, Seq<char>)>, folded: Seq<char>, j: int)
    requires
        0 <= j < synonyms.len(),
        synonyms[j].0 == folded,
    ensures
        synonym_target(synonyms, folded) is Some,
    decreases synonyms.len(),
{
    if synonyms[0].0 != folded {
        assert(synonyms.drop_first()[j - 1] == synonyms[j]);
        lemma_synonym_found(synonyms.drop_first(), folded, j - 1);
    }
}

/// Whatever an enum-valued string resolves to is one of the accepted names,
/// given that every synonym stands for an accepted name.
pub proof fn lemma_resolution_is_accepted(
    value: Seq<char>,
    accepted: Seq<Seq<char>>,
    synonyms: Seq<(Seq<char>, Seq<char>)>,
)
    requires
        forall|j: int| 0 <= j < synonyms.len() ==> accepted.contains(#[trigger] synonyms[j].1),
    ensures
        resolve_name(value, accepted, synonyms) matches Some(n) ==> accepted.contains(n),
{
    lemma_folded_match_in(accepted, fold(value));
    lemma_synonym_in(synonyms, fold(value));
}

/// Every accepted name is itself accepted: it resolves to an accepted name
/// that folds alike (itself, unless an earlier name folds the same way).
pub proof fn lemma_accepted_name_resolves(
    accepted: Seq<Seq<char>>,
    synonyms: Seq<(Seq<char>, Seq<char>)>,
    i: int,
)
    requires
        0 <= i < accepted.len(),
    ensures
        resolve_name(accepted[i], accepted, synonyms) matches Some(n) && accepted.contains(n)
            && fold(n) == fold(accepted[i]),
{
    lemma_folded_match_found(accepted, fold(accepted[i]), i);
    lemma_folded_match_in(accepted, fold(accepted[i]));
}

/// Every synonym spelled in folded form is accepted.
pub proof fn lemma_synonym_resolves(
    accepted: Seq<Seq<char>>,
    synonyms: Seq<(Seq<char>, Seq<char>)>,
    j: int,
)
    requires
        0 <= j < synonyms.len(),
        fold(synonyms[j].0) == synonyms[j].0,
    ensures
        resolve_name(synonyms[j].0, accepted, synonyms) is Some,
{
    if folded_match(accepted, synonyms[j].0) is None {
        lemma_synonym_found(synonyms, synonyms[j].0, j);
    }
}

/// Spellings that fold alike resolve alike: case and separators never
/// change what a value names.
pub proof fn lemma_resolution_follows_the_fold(
    a: Seq<char>,
    b: Seq<char>,
    accepted: Seq<Seq<char>>,
    synonyms: Seq<(Seq<char>, Seq<char>)>,
)
    requires
        fold(a) == fold(b),
    ensures
        resolve_name(a, accepted, synonyms) == resolve_name(b, accepted, synonyms),
{
}

fn first_folded_match(accepted: &[&'static str], folded: &str) -> (r: Option<&'static str>)
    ensures
        r matches Some(n) ==> folded_match(str_views(accepted@), folded@) == Some(n@),
        r is None ==> folded_match(str_views(accepted@), folded@) is None,
{
    let mut i: usize = 0;
    assert(str_views(accepted@).skip(0) =~= str_views(accepted@));
    while i < accepted.len()
        invariant
            i <= accepted.len(),
            folded_match(str_views(accepted@), folded@) == folded_match(
                str_views(accepted@).skip(i as int),
                folded@,
            ),
        decreases accepted.len() - i,
    {
        let f = fold_spelling(accepted[i]);
        let fv = chars_of(f.as_str());
        let ghost rest = str_views(accepted@).skip(i as int);
        assert(rest[0] == accepted@[i as int]@);
        if chars_eq_str(fv.as_slice(), folded) {
            return Some(accepted[i]);
        }
        assert(rest.drop_first() =~= str_views(accepted@).skip(i + 1));
        i += 1;
    }
    None
}

fn first_synonym(synonyms: &[(&'static str, &'static str)], folded: &str) -> (r: Option<&'static str>)
    ensures
        r matches Some(n) ==> synonym_target(pair_views(synonyms@), folded@) == Some(n@),
        r is None ==> synonym_target(pair_views(synonyms@), folded@) is None,
{
    let mut i: usize = 0;
    assert(pair_views(synonyms@).skip(0) =~= pair_views(synonyms@));
    while i < synonyms.len()
        invariant
            i <= synonyms.len(),
            synonym_target(pair_views(synonyms@), folded@) == synonym_target(
                pair_views(synonyms@).skip(i as int),
                folded@,
            ),
        decreases synonyms.len() - i,
    {
        let ghost rest = pair_views(synonyms@).skip(i as int);
        assert(rest[0] == (synonyms@[i as int].0@, synonyms@[i as int].1@));
        if str_eq_static(synonyms[i].0, folded) {
            return Some(synonyms[i].1);
        }
        assert(rest.drop_first() =~= pair_views(synonyms@).skip(i + 1));
        i += 1;
    }
    None
}

fn str_eq_static(a: &str, b: &str) -> (r: bool)
    ensures
        r == (a@ == b@),
{
    crate::text::str_eq(a, b)
}

/// Resolves an enum-valued string to the JSON boundary's spelling: one of
/// `accepted` in any case and with or without separators, or a `synonyms`
/// entry. An unrecognised value is an error naming the field and the
/// accepted values, never a silent default.
pub fn parse_enum(value: &str, field: &str, accepted: &[&'static str], synonyms: &[(&'static str, &'static str)]) -> (r: Result<String, String>)
    ensures
        string_result_view(r) == parse_enum_result(
            value@,
            field@,
            str_views(accepted@),
            pair_views(synonyms@),
        ),
{
    let folded = fold_spelling(value);
    match first_folded_match(accepted, folded.as_str()) {
        Some(name) => return Ok(name.to_string()),
        None => {},
    }
    match first_synonym(synonyms, folded.as_str()) {
        Some(name) => Ok(name.to_string()),
        None => {
            let mut e = String::new();
            push_str(&mut e, field);
            push_str(&mut e, " '");
            push_str(&mut e, value);
            push_str(&mut e, "' is not recognised. Accepted values: ");
            let list = join_strs(accepted, ", ");
            push_str(&mut e, list.as_str());
            Err(e)
        },
    }
}

/// The error for an enum-valued field holding something other than a string.
pub open spec fn not_a_string_message(field: Seq<char>, got: Seq<char>, accepted: Seq<Seq<char>>) -> Seq<char> {
    field + " must be a string, got "@ + got + ". Accepted values: "@ + join(accepted, ", "@)
}

/// What `enum_field` gives, over views.
pub open spec fn enum_field_result(
    json: Json,
    key: Seq<char>,
    field: Seq<char>,
    accepted: Seq<Seq<char>>,
    synonyms: Seq<(Seq<char>, Seq<char>)>,
) -> Result<Option<Seq<char>>, Seq<char>> {
    match json.spec_get(key) {
        None => Ok(None),
        Some(v) => match v.node {
            JsonNode::Null => Ok(None),
            JsonNode::Str(s) => match parse_enum_result(s@, field, accepted, synonyms) {
                Ok(name) => Ok(Some(name)),
                Err(e) => Err(e),
            },
            _ => Err(not_a_string_message(field, v.text@, accepted)),
        },
    }
}

/// The views of an optional-string result.
pub open spec fn opt_string_result_view(r: Result<Option<String>, String>) -> Result<Option<Seq<char>>, Seq<char>> {
    match r {
        Ok(Some(s)) => Ok(Some(s@)),
        Ok(None) => Ok(None),
        Err(e) => Err(e@),
    }
}

/// Reads an optional enum-valued string field through [`parse_enum`]:
/// absent (or `null`) is `Ok(None)`; present but not a string, or
/// unrecognised, is an error.
pub fn enum_field(
    json: &Json,
    key: &str,
    field: &str,
    accepted: &[&'static str],
    synonyms: &[(&'static str, &'static str)],
) -> (r: Result<Option<String>, String>)
    ensures
        opt_string_result_view(r) == enum_field_result(
            *json,
            key@,
            field@,
            str_views(accepted@),
            pair_views(synonyms@),
        ),
{
    match json.get(key) {
        None => Ok(None),
        Some(v) => match &v.node {
            JsonNode::Null => Ok(None),
            JsonNode::Str(s) => match parse_enum(s.as_str(), field, accepted, synonyms) {
                Ok(name) => Ok(Some(name)),
                Err(e) => Err(e),
            },
            _ => {
                let mut e = String::new();
                push_str(&mut e, field);
                push_str(&mut e, " must be a string, got ");
                push_str(&mut e, v.text.as_str());
                push_str(&mut e, ". Accepted values: ");
                let list = join_strs(accepted, ", ");
                push_str(&mut e, list.as_str());
                Err(e)
            },
        },
    }
}

// ---------------------------------------------------------------- pad shapes

/// The shape of a pad's copper.
#[derive(PartialEq, Eq, Structural, Clone, Copy, Debug)]
pub enum PadShape {
    Round,
    Rectangle,
    Octagonal,
    RoundedRectangle,
    Oval,
}

pub const SHAPE_RECTANGLE: [&'static str; 3] = ["rectangle", "rectangular", "rect"];

pub const SHAPE_ROUND: [&'static str; 3] = ["round", "circle", "circular"];

pub const SHAPE_OVAL: [&'static str; 2] = ["oval", "oblong"];

pub const SHAPE_OCTAGONAL: [&'static str; 2] = ["octagonal", "octagon"];

pub const SHAPE_ROUNDED_RECTANGLE: [&'static str; 2] = ["roundedrectangle", "rounded"];

/// `s` without the `_` and `-` characters.
pub open spec fn without_dashes(s: Seq<char>) -> Seq<char>
    decreases s.len(),
{
    if s.len() == 0 {
        Seq::empty()
    } else if s.last() == '_' || s.last() == '-' {
        without_dashes(s.drop_last())
    } else {
        without_dashes(s.drop_last()).push(s.last())
    }
}

/// The shape a pad-shape key (lower-cased, `_`/`-` removed) names.
pub open spec fn pad_shape_of(key: Seq<char>) -> Option<PadShape> {
    if named(key, SHAPE_RECTANGLE@) {
        Some(PadShape::Rectangle)
    } else if named(key, SHAPE_ROUND@) {
        Some(PadShape::Round)
    } else if named(key, SHAPE_OVAL@) {
        Some(PadShape::Oval)
    } else if named(key, SHAPE_OCTAGONAL@) {
        Some(PadShape::Octagonal)
    } else if named(key, SHAPE_ROUNDED_RECTANGLE@) {
        Some(PadShape::RoundedRectangle)
    } else {
        None
    }
}

proof fn lemma_without_dashes_append(a: Seq<char>, b: Seq<char>)
    ensures
        without_dashes(a + b) == without_dashes(a) + without_dashes(b),
    decreases b.len(),
{
    if b.len() == 0 {
        assert(a + b =~= a);
        assert(without_dashes(a) + without_dashes(b) =~= without_dashes(a));
    } else {
        assert((a + b).drop_last() =~= a + b.drop_last());
        assert((a + b).last() == b.last());
        lemma_without_dashes_append(a, b.drop_last());
        if !(b.last() == '_' || b.last() == '-') {
            assert(without_dashes(a) + without_dashes(b.drop_last()).push(b.last()) =~= (
            without_dashes(a) + without_dashes(b.drop_last())).push(b.last()));
        }
    }
}

/// A `_` or `-` anywhere in a pad-shape name leaves the shape it names
/// unchanged.
pub proof fn lemma_pad_shape_ignores_dashes(a: Seq<char>, b: Seq<char>, dash: char)
    requires
        dash == '_' || dash == '-',
    ensures
        without_dashes(a.push(dash) + b) == without_dashes(a + b),
        pad_shape_of(without_dashes(a.push(dash) + b)) == pad_shape_of(without_dashes(a + b)),
{
    lemma_without_dashes_append(a.push(dash), b);
    lemma_without_dashes_append(a, b);
    assert(a.push(dash).drop_last() =~= a);
}

proof fn lemma_without_dashes_of_lowered(s: Seq<char>)
    ensures
        forall|i: int| 0 <= i < without_dashes(ascii_lowercase(s)).len() ==> {
            let c = #[trigger] without_dashes(ascii_lowercase(s))[i];
            &&& c != '_' && c != '-'
            &&& ascii_lower(c) == c
        },
    decreases s.len(),
{
    if s.len() > 0 {
        let l = ascii_lowercase(s);
        assert(l.drop_last() =~= ascii_lowercase(s.drop_last()));
        assert(l.last() == ascii_lower(s.last()));
        lemma_without_dashes_of_lowered(s.drop_last());
        lemma_ascii_lower_char(s.last());
        let p = without_dashes(ascii_lowercase(s.drop_last()));
        assert forall|i: int| 0 <= i < without_dashes(l).len() implies {
            let c = #[trigger] without_dashes(l)[i];
            &&& c != '_' && c != '-'
            &&& ascii_lower(c) == c
        } by {
            if i < p.len() {
                assert(without_dashes(l)[i] == p[i]);
            }
        }
    }
}

proof fn lemma_normal_key_is_fixed(t: Seq<char>)
    requires
        forall|i: int| 0 <= i < t.len() ==> {
            let c = #[trigger] t[i];
            &&& c != '_' && c != '-'
            &&& ascii_lower(c) == c
        },
    ensures
        without_dashes(ascii_lowercase(t)) == t,
    decreases t.len(),
{
    if t.len() > 0 {
        let p = t.drop_last();
        assert forall|i: int| 0 <= i < p.len() implies {
            let c = #[trigger] p[i];
            &&& c != '_' && c != '-'
            &&& ascii_lower(c) == c
        } by {
            assert(p[i] == t[i]);
        }
        lemma_normal_key_is_fixed(p);
        let l = ascii_lowercase(t);
        assert(l.drop_last() =~= ascii_lowercase(p));
        assert(t.last() == t[t.len() - 1]);
        assert(l.last() == t.last());
        assert(without_dashes(l) =~= t);
    } else {
        assert(ascii_lowercase(t) =~= Seq::<char>::empty());
    }
}

/// For an ASCII name, lower-casing it and dropping its `_` and `-` leaves a
/// name that the same normalising keeps as it is, so a pad shape reads the
/// same from a name as from its normalised form.
pub proof fn lemma_pad_shape_key_is_normal(s: Seq<char>)
    ensures
        without_dashes(ascii_lowercase(without_dashes(ascii_lowercase(s)))) == without_dashes(ascii_lowercase(s)),
        pad_shape_of(without_dashes(ascii_lowercase(without_dashes(ascii_lowercase(s)))))
            == pad_shape_of(without_dashes(ascii_lowercase(s))),
{
    lemma_without_dashes_of_lowered(s);
    lemma_normal_key_is_fixed(without_dashes(ascii_lowercase(s)));
}

impl McpServer {
    /// Parses a pad shape name. Every tool that takes a shape goes through
    /// here, so a pad written with one tool can be updated with another: the
    /// union of their vocabularies, case-insensitively, ignoring `_` and `-`.
    pub fn parse_pad_shape(s: &str) -> (r: Option<PadShape>)
        ensures
            r == pad_shape_of(without_dashes(str_lowercase(s@))),
            all_ascii(s@) ==> r == pad_shape_of(without_dashes(ascii_lowercase(s@))),
    {
        let lower = lowercase_of_str(s);
        let v = chars_of(lower.as_str());
        let mut key: Vec<char> = Vec::new();
        let mut i: usize = 0;
        while i < v.len()
            invariant
                i <= v.len(),
                key@ == without_dashes(v@.take(i as int)),
            decreases v.len() - i,
        {
            assert(v@.take((i + 1) as int).drop_last() =~= v@.take(i as int));
            let c = v[i];
            if c != '_' && c != '-' {
                key.push(c);
            }
            i += 1;
        }
        assert(v@.take(v.len() as int) =~= v@);
        let k = key.as_slice();
        if chars_in(k, &SHAPE_RECTANGLE) {
            Some(PadShape::Rectangle)
        } else if chars_in(k, &SHAPE_ROUND) {
            Some(PadShape::Round)
        } else if chars_in(k, &SHAPE_OVAL) {
            Some(PadShape::Oval)
        } else if chars_in(k, &SHAPE_OCTAGONAL) {
            Some(PadShape::Octagonal)
        } else if chars_in(k, &SHAPE_ROUNDED_RECTANGLE) {
            Some(PadShape::RoundedRectangle)
        } else {
            None
        }
    }
}

} // verus!
