//! Whole records read from a tool request: the schematic pin (every field of
//! which is an integer, a flag, a string or a name), the symbol header with
//! its designator precedence, the footprint link a symbol carries, the
//! replay lists, the unknown-key guard and the error a malformed record
//! produces.
use vstd::prelude::*;
use crate::McpServer;
use crate::accepted::{
    PIN_ELECTRICAL_TYPES, PIN_ELECTRICAL_TYPE_SYNONYMS, PIN_ORIENTATIONS, PIN_SYMBOLS,
    PIN_SYMBOL_SYNONYMS,
};
use crate::fields::{bounded_u64_at, i32_at, json_i32, opt_view};
use crate::json::{Json, JsonNode};
use crate::text::{chars_in, chars_of, push_str, str_eq, str_views, u64_text};
use crate::vocab::{
    component_type_key, enum_field, enum_field_result, ieee_designator_prefix, ieee_prefix_of,
    lemma_folded_match_in, lemma_synonym_in, named, pair_views, resolve_name,
};

verus! {

// ---------------------------------------------------------------- pin vocabularies

/// The side of the body a pin points away from.
#[derive(PartialEq, Eq, Structural, Clone, Copy, Debug)]
pub enum PinOrientation {
    Left,
    Right,
    Up,
    Down,
}

/// The electrical type of a pin.
#[derive(PartialEq, Eq, Structural, Clone, Copy, Debug)]
pub enum PinElectricalType {
    Input,
    Output,
    Bidirectional,
    Passive,
    Power,
    OpenCollector,
    OpenEmitter,
    HiZ,
}

/// A decoration drawn on a pin.
#[derive(PartialEq, Eq, Structural, Clone, Copy, Debug)]
pub enum PinSymbol {
    NoSymbol,
    Dot,
    RightLeftSignalFlow,
    Clock,
    ActiveLowInput,
    AnalogSignalIn,
    NotLogicConnection,
    PostponedOutput,
    OpenCollector,
    HiZ,
    HighCurrent,
    Pulse,
    Schmitt,
    ActiveLowOutput,
    OpenCollectorPullUp,
    OpenEmitter,
    OpenEmitterPullUp,
    DigitalSignalIn,
    ShiftLeft,
    OpenOutput,
    LeftRightSignalFlow,
    BidirectionalSignalFlow,
}

/// The orientation an accepted name stands for.
pub open spec fn orientation_named(n: Seq<char>) -> Option<PinOrientation> {
    if n == "left"@ {
        Some(PinOrientation::Left)
    } else if n == "right"@ {
        Some(PinOrientation::Right)
    } else if n == "up"@ {
        Some(PinOrientation::Up)
    } else if n == "down"@ {
        Some(PinOrientation::Down)
    } else {
        None
    }
}

/// The electrical type an accepted name stands for.
pub open spec fn electrical_type_named(n: Seq<char>) -> Option<PinElectricalType> {
    if n == "input"@ {
        Some(PinElectricalType::Input)
    } else if n == "output"@ {
        Some(PinElectricalType::Output)
    } else if n == "bidirectional"@ {
        Some(PinElectricalType::Bidirectional)
    } else if n == "passive"@ {
        Some(PinElectricalType::Passive)
    } else if n == "power"@ {
        Some(PinElectricalType::Power)
    } else if n == "open_collector"@ {
        Some(PinElectricalType::OpenCollector)
    } else if n == "open_emitter"@ {
        Some(PinElectricalType::OpenEmitter)
    } else if n == "hi_z"@ {
        Some(PinElectricalType::HiZ)
    } else {
        None
    }
}

/// The pin decoration an accepted name stands for.
pub open spec fn pin_symbol_named(n: Seq<char>) -> Option<PinSymbol> {
    if n == "none"@ {
        Some(PinSymbol::NoSymbol)
    } else if n == "dot"@ {
        Some(PinSymbol::Dot)
    } else if n == "right_left_signal_flow"@ {
        Some(PinSymbol::RightLeftSignalFlow)
    } else if n == "clock"@ {
        Some(PinSymbol::Clock)
    } else if n == "active_low_input"@ {
        Some(PinSymbol::ActiveLowInput)
    } else if n == "analog_signal_in"@ {
        Some(PinSymbol::AnalogSignalIn)
    } else if n == "not_logic_connection"@ {
        Some(PinSymbol::NotLogicConnection)
    } else if n == "postponed_output"@ {
        Some(PinSymbol::PostponedOutput)
    } else if n == "open_collector"@ {
        Some(PinSymbol::OpenCollector)
    } else if n == "hi_z"@ {
        Some(PinSymbol::HiZ)
    } else if n == "high_current"@ {
        Some(PinSymbol::HighCurrent)
    } else if n == "pulse"@ {
        Some(PinSymbol::Pulse)
    } else if n == "schmitt"@ {
        Some(PinSymbol::Schmitt)
    } else if n == "active_low_output"@ {
        Some(PinSymbol::ActiveLowOutput)
    } else if n == "open_collector_pull_up"@ {
        Some(PinSymbol::OpenCollectorPullUp)
    } else if n == "open_emitter"@ {
        Some(PinSymbol::OpenEmitter)
    } else if n == "open_emitter_pull_up"@ {
        Some(PinSymbol::OpenEmitterPullUp)
    } else if n == "digital_signal_in"@ {
        Some(PinSymbol::DigitalSignalIn)
    } else if n == "shift_left"@ {
        Some(PinSymbol::ShiftLeft)
    } else if n == "open_output"@ {
        Some(PinSymbol::OpenOutput)
    } else if n == "left_right_signal_flow"@ {
        Some(PinSymbol::LeftRightSignalFlow)
    } else if n == "bidirectional_signal_flow"@ {
        Some(PinSymbol::BidirectionalSignalFlow)
    } else {
        None
    }
}

impl PinOrientation {
    /// The orientation its JSON name stands for.
    pub fn from_name(name: &str) -> (r: Option<PinOrientation>)
        ensures
            r == orientation_named(name@),
    {
        if str_eq(name, "left") {
            Some(PinOrientation::Left)
        } else if str_eq(name, "right") {
            Some(PinOrientation::Right)
        } else if str_eq(name, "up") {
            Some(PinOrientation::Up)
        } else if str_eq(name, "down") {
            Some(PinOrientation::Down)
        } else {
            None
        }
    }

    /// The JSON name of the orientation.
    pub fn name(&self) -> (r: &'static str)
        ensures
            r@ == orientation_name(*self),
    {
        match self {
            PinOrientation::Left => "left",
            PinOrientation::Right => "right",
            PinOrientation::Up => "up",
            PinOrientation::Down => "down",
        }
    }
}

/// The JSON name of an orientation.
pub open spec fn orientation_name(o: PinOrientation) -> Seq<char> {
    match o {
        PinOrientation::Left => "left"@,
        PinOrientation::Right => "right"@,
        PinOrientation::Up => "up"@,
        PinOrientation::Down => "down"@,
    }
}

/// The JSON name of an electrical type.
pub open spec fn electrical_type_name(t: PinElectricalType) -> Seq<char> {
    match t {
        PinElectricalType::Input => "input"@,
        PinElectricalType::Output => "output"@,
        PinElectricalType::Bidirectional => "bidirectional"@,
        PinElectricalType::Passive => "passive"@,
        PinElectricalType::Power => "power"@,
        PinElectricalType::OpenCollector => "open_collector"@,
        PinElectricalType::OpenEmitter => "open_emitter"@,
        PinElectricalType::HiZ => "hi_z"@,
    }
}

/// Reading an electrical type from a name is the inverse of its JSON name:
/// each type's own name gives that type, and a name gives a type only when
/// it is that type's name.
pub proof fn lemma_electrical_type_from_its_name(t: PinElectricalType, n: Seq<char>)
    ensures
        electrical_type_named(electrical_type_name(t)) == Some(t),
        electrical_type_named(n) == Some(t) <==> n == electrical_type_name(t),
{
    reveal_strlit("input");
    reveal_strlit("output");
    reveal_strlit("bidirectional");
    reveal_strlit("passive");
    reveal_strlit("power");
    reveal_strlit("open_collector");
    reveal_strlit("open_emitter");
    reveal_strlit("hi_z");
    assert("input"@.len() == 5 && "output"@.len() == 6 && "bidirectional"@.len() == 13);
    assert("passive"@.len() == 7 && "power"@.len() == 5 && "open_collector"@.len() == 14);
    assert("open_emitter"@.len() == 12 && "hi_z"@.len() == 4);
    assert("power"@[0] != "input"@[0]);
}

impl PinElectricalType {
    /// The electrical type its JSON name stands for.
    pub fn from_name(name: &str) -> (r: Option<PinElectricalType>)
        ensures
            r == electrical_type_named(name@),
    {
        if str_eq(name, "input") {
            Some(PinElectricalType::Input)
        } else if str_eq(name, "output") {
            Some(PinElectricalType::Output)
        } else if str_eq(name, "bidirectional") {
            Some(PinElectricalType::Bidirectional)
        } else if str_eq(name, "passive") {
            Some(PinElectricalType::Passive)
        } else if str_eq(name, "power") {
            Some(PinElectricalType::Power)
        } else if str_eq(name, "open_collector") {
            Some(PinElectricalType::OpenCollector)
        } else if str_eq(name, "open_emitter") {
            Some(PinElectricalType::OpenEmitter)
        } else if str_eq(name, "hi_z") {
            Some(PinElectricalType::HiZ)
        } else {
            None
        }
    }
}

impl PinSymbol {
    /// The decoration its JSON name stands for.
    pub fn from_name(name: &str) -> (r: Option<PinSymbol>)
        ensures
            r == pin_symbol_named(name@),
    {
        if str_eq(name, "none") {
            Some(PinSymbol::NoSymbol)
        } else if str_eq(name, "dot") {
            Some(PinSymbol::Dot)
        } else if str_eq(name, "right_left_signal_flow") {
            Some(PinSymbol::RightLeftSignalFlow)
        } else if str_eq(name, "clock") {
            Some(PinSymbol::Clock)
        } else if str_eq(name, "active_low_input") {
            Some(PinSymbol::ActiveLowInput)
        } else if str_eq(name, "analog_signal_in") {
            Some(PinSymbol::AnalogSignalIn)
        } else if str_eq(name, "not_logic_connection") {
            Some(PinSymbol::NotLogicConnection)
        } else if str_eq(name, "postponed_output") {
            Some(PinSymbol::PostponedOutput)
        } else if str_eq(name, "open_collector") {
            Some(PinSymbol::OpenCollector)
        } else if str_eq(name, "hi_z") {
            Some(PinSymbol::HiZ)
        } else if str_eq(name, "high_current") {
            Some(PinSymbol::HighCurrent)
        } else if str_eq(name, "pulse") {
            Some(PinSymbol::Pulse)
        } else if str_eq(name, "schmitt") {
            Some(PinSymbol::Schmitt)
        } else if str_eq(name, "active_low_output") {
            Some(PinSymbol::ActiveLowOutput)
        } else if str_eq(name, "open_collector_pull_up") {
            Some(PinSymbol::OpenCollectorPullUp)
        } else if str_eq(name, "open_emitter") {
            Some(PinSymbol::OpenEmitter)
        } else if str_eq(name, "open_emitter_pull_up") {
            Some(PinSymbol::OpenEmitterPullUp)
        } else if str_eq(name, "digital_signal_in") {
            Some(PinSymbol::DigitalSignalIn)
        } else if str_eq(name, "shift_left") {
            Some(PinSymbol::ShiftLeft)
        } else if str_eq(name, "open_output") {
            Some(PinSymbol::OpenOutput)
        } else if str_eq(name, "left_right_signal_flow") {
            Some(PinSymbol::LeftRightSignalFlow)
        } else if str_eq(name, "bidirectional_signal_flow") {
            Some(PinSymbol::BidirectionalSignalFlow)
        } else {
            None
        }
    }
}

/// A pin orientation field always resolves to an orientation.
proof fn lemma_orientation_total(value: Seq<char>)
    ensures
        resolve_name(value, str_views(PIN_ORIENTATIONS@), pair_views(Seq::empty())) matches Some(
            n,
        ) ==> orientation_named(n) is Some,
{
    let acc = str_views(PIN_ORIENTATIONS@);
    lemma_folded_match_in(acc, crate::vocab::fold(value));
    lemma_synonym_in(pair_views(Seq::empty()), crate::vocab::fold(value));
    assert(acc =~= seq!["left"@, "right"@, "up"@, "down"@]);
}

/// A pin electrical-type field always resolves to an electrical type.
proof fn lemma_electrical_type_total(value: Seq<char>)
    ensures
        resolve_name(
            value,
            str_views(PIN_ELECTRICAL_TYPES@),
            pair_views(PIN_ELECTRICAL_TYPE_SYNONYMS@),
        ) matches Some(n) ==> electrical_type_named(n) is Some,
{
    let acc = str_views(PIN_ELECTRICAL_TYPES@);
    let syn = pair_views(PIN_ELECTRICAL_TYPE_SYNONYMS@);
    lemma_folded_match_in(acc, crate::vocab::fold(value));
    lemma_synonym_in(syn, crate::vocab::fold(value));
    assert(acc =~= seq![
        "input"@,
        "output"@,
        "bidirectional"@,
        "passive"@,
        "power"@,
        "open_collector"@,
        "open_emitter"@,
        "hi_z"@,
    ]);
    assert(syn =~= seq![
        ("io"@, "bidirectional"@),
        ("inputoutput"@, "bidirectional"@),
        ("tristate"@, "hi_z"@),
        ("highimpedance"@, "hi_z"@),
    ]);
}

/// A pin decoration field always resolves to a decoration.
proof fn lemma_pin_symbol_total(value: Seq<char>)
    ensures
        resolve_name(value, str_views(PIN_SYMBOLS@), pair_views(PIN_SYMBOL_SYNONYMS@)) matches Some(
            n,
        ) ==> pin_symbol_named(n) is Some,
{
    let acc = str_views(PIN_SYMBOLS@);
    let syn = pair_views(PIN_SYMBOL_SYNONYMS@);
    lemma_folded_match_in(acc, crate::vocab::fold(value));
    lemma_synonym_in(syn, crate::vocab::fold(value));
    assert(acc =~= seq![
        "none"@,
        "dot"@,
        "right_left_signal_flow"@,
        "clock"@,
        "active_low_input"@,
        "analog_signal_in"@,
        "not_logic_connection"@,
        "postponed_output"@,
        "open_collector"@,
        "hi_z"@,
        "high_current"@,
        "pulse"@,
        "schmitt"@,
        "active_low_output"@,
        "open_collector_pull_up"@,
        "open_emitter"@,
        "open_emitter_pull_up"@,
        "digital_signal_in"@,
        "shift_left"@,
        "open_output"@,
        "left_right_signal_flow"@,
        "bidirectional_signal_flow"@,
    ]);
    assert(syn =~= seq![
        ("invert"@, "dot"@),
        ("inversion"@, "dot"@),
        ("clk"@, "clock"@),
        ("lowinput"@, "active_low_input"@),
        ("lowoutput"@, "active_low_output"@),
        ("rightleft"@, "right_left_signal_flow"@),
        ("leftright"@, "left_right_signal_flow"@),
        ("bidirectional"@, "bidirectional_signal_flow"@),
        ("analog"@, "analog_signal_in"@),
        ("digital"@, "digital_signal_in"@),
        ("notlogic"@, "not_logic_connection"@),
        ("postponed"@, "postponed_output"@),
        ("highimpedance"@, "hi_z"@),
        ("schmitttrigger"@, "schmitt"@),
    ]);
}


/// An orientation field always resolves to an orientation.
proof fn lemma_orientation_field(json: Json, key: Seq<char>, field: Seq<char>)
    ensures
        enum_field_result(json, key, field, str_views(PIN_ORIENTATIONS@), Seq::empty()) matches Ok(
            Some(n),
        ) ==> orientation_named(n) is Some,
{
    assert(pair_views(Seq::<(&str, &str)>::empty()) =~= Seq::empty());
    match json.spec_get(key) {
        Some(v) => match v.node {
            JsonNode::Str(s) => lemma_orientation_total(s@),
            _ => {},
        },
        None => {},
    }
}

/// An electrical-type field always resolves to an electrical type.
proof fn lemma_electrical_type_field(json: Json, key: Seq<char>, field: Seq<char>)
    ensures
        enum_field_result(
            json,
            key,
            field,
            str_views(PIN_ELECTRICAL_TYPES@),
            pair_views(PIN_ELECTRICAL_TYPE_SYNONYMS@),
        ) matches Ok(Some(n)) ==> electrical_type_named(n) is Some,
{
    match json.spec_get(key) {
        Some(v) => match v.node {
            JsonNode::Str(s) => lemma_electrical_type_total(s@),
            _ => {},
        },
        None => {},
    }
}

/// A decoration field always resolves to a decoration.
proof fn lemma_pin_symbol_field(json: Json, key: Seq<char>, field: Seq<char>)
    ensures
        enum_field_result(
            json,
            key,
            field,
            str_views(PIN_SYMBOLS@),
            pair_views(PIN_SYMBOL_SYNONYMS@),
        ) matches Ok(Some(n)) ==> pin_symbol_named(n) is Some,
{
    match json.spec_get(key) {
        Some(v) => match v.node {
            JsonNode::Str(s) => lemma_pin_symbol_total(s@),
            _ => {},
        },
        None => {},
    }
}

// ---------------------------------------------------------------- the pin record

/// A pin's fractional coordinates, in 1/100000 of a schematic unit.
#[derive(PartialEq, Eq, Structural, Clone, Copy, Debug)]
pub struct PinFrac {
    pub x: i32,
    pub y: i32,
    pub length: i32,
}

impl PinFrac {
    /// Whether every part is zero (such a record is not written).
    pub fn is_zero(&self) -> (r: bool)
        ensures
            r == (self.x == 0 && self.y == 0 && self.length == 0),
    {
        self.x == 0 && self.y == 0 && self.length == 0
    }
}

/// A schematic pin as a tool request describes it.
#[derive(Debug)]
pub struct Pin {
    pub name: String,
    pub designator: String,
    pub x: i32,
    pub y: i32,
    pub length: i32,
    pub orientation: PinOrientation,
    pub electrical_type: PinElectricalType,
    pub hidden: bool,
    pub show_name: bool,
    pub show_designator: bool,
    pub description: String,
    pub owner_part_id: i32,
    pub owner_part_display_mode: i32,
    /// A BGR colour.
    pub colour: u32,
    pub graphically_locked: bool,
    pub symbol_inner_edge: PinSymbol,
    pub symbol_outer_edge: PinSymbol,
    pub symbol_inside: PinSymbol,
    pub symbol_outside: PinSymbol,
    pub is_not_accessible: bool,
    pub formal_type: u8,
    pub swap_id_group: String,
    pub part_and_sequence: String,
    pub default_value: String,
    pub symbol_line_width: i32,
    pub frac: Option<PinFrac>,
}

/// `o`, or `d` when it is `None`.
pub open spec fn or_else<T>(o: Option<T>, d: T) -> T {
    match o {
        Some(v) => v,
        None => d,
    }
}

/// The name a pin error gives a pin's field.
pub open spec fn pin_field_name(designator: Seq<char>, key: Seq<char>) -> Seq<char> {
    "Pin '"@ + designator + "' "@ + key
}

/// The error for a missing integer coordinate.
pub open spec fn pin_missing_integer(designator: Seq<char>, key: Seq<char>) -> Seq<char> {
    "Pin '"@ + designator + "' is missing an integer '"@ + key + "'"@
}

/// What an enum-valued pin field resolves to: its name, `None` when absent.
pub open spec fn pin_enum(json: Json, designator: Seq<char>, key: Seq<char>, accepted: Seq<&str>, synonyms: Seq<(&str, &str)>) -> Result<Option<Seq<char>>, Seq<char>> {
    enum_field_result(json, key, pin_field_name(designator, key), str_views(accepted), pair_views(synonyms))
}

/// The first reason a pin's JSON cannot be read, in the order the fields
/// are checked; `None` when it reads.
pub open spec fn pin_error(json: Json) -> Option<Seq<char>> {
    match json.str_at("designator"@) {
        None => Some("Pin is missing its 'designator' string"@),
        Some(d) => {
            if i32_at(json, "x"@) is None {
                Some(pin_missing_integer(d, "x"@))
            } else if i32_at(json, "y"@) is None {
                Some(pin_missing_integer(d, "y"@))
            } else if pin_enum(json, d, "orientation"@, PIN_ORIENTATIONS@, Seq::empty()) is Err {
                Some(pin_enum(json, d, "orientation"@, PIN_ORIENTATIONS@, Seq::empty())->Err_0)
            } else if pin_enum(json, d, "electrical_type"@, PIN_ELECTRICAL_TYPES@, PIN_ELECTRICAL_TYPE_SYNONYMS@) is Err {
                Some(pin_enum(json, d, "electrical_type"@, PIN_ELECTRICAL_TYPES@, PIN_ELECTRICAL_TYPE_SYNONYMS@)->Err_0)
            } else if pin_enum(json, d, "symbol_inner_edge"@, PIN_SYMBOLS@, PIN_SYMBOL_SYNONYMS@) is Err {
                Some(pin_enum(json, d, "symbol_inner_edge"@, PIN_SYMBOLS@, PIN_SYMBOL_SYNONYMS@)->Err_0)
            } else if pin_enum(json, d, "symbol_outer_edge"@, PIN_SYMBOLS@, PIN_SYMBOL_SYNONYMS@) is Err {
                Some(pin_enum(json, d, "symbol_outer_edge"@, PIN_SYMBOLS@, PIN_SYMBOL_SYNONYMS@)->Err_0)
            } else if pin_enum(json, d, "symbol_inside"@, PIN_SYMBOLS@, PIN_SYMBOL_SYNONYMS@) is Err {
                Some(pin_enum(json, d, "symbol_inside"@, PIN_SYMBOLS@, PIN_SYMBOL_SYNONYMS@)->Err_0)
            } else if pin_enum(json, d, "symbol_outside"@, PIN_SYMBOLS@, PIN_SYMBOL_SYNONYMS@) is Err {
                Some(pin_enum(json, d, "symbol_outside"@, PIN_SYMBOLS@, PIN_SYMBOL_SYNONYMS@)->Err_0)
            } else {
                None
            }
        },
    }
}

/// The decoration a pin field names, `NoSymbol` when absent.
pub open spec fn pin_symbol_at(json: Json, d: Seq<char>, key: Seq<char>) -> PinSymbol {
    match pin_enum(json, d, key, PIN_SYMBOLS@, PIN_SYMBOL_SYNONYMS@) {
        Ok(Some(n)) => or_else(pin_symbol_named(n), PinSymbol::NoSymbol),
        _ => PinSymbol::NoSymbol,
    }
}

/// The fractional coordinates a pin's `frac` object gives.
pub open spec fn frac_of(json: Json) -> Option<PinFrac> {
    match json.spec_get("frac"@) {
        None => None,
        Some(f) => {
            let pf = PinFrac {
                x: or_else(i32_at(f, "x"@), 0i32),
                y: or_else(i32_at(f, "y"@), 0i32),
                length: or_else(i32_at(f, "length"@), 0i32),
            };
            if pf.x == 0 && pf.y == 0 && pf.length == 0 {
                None
            } else {
                Some(pf)
            }
        },
    }
}

/// Every field of `p` is what the JSON gives it, each absent one at its
/// from-scratch default.
pub open spec fn pin_matches(json: Json, p: Pin) -> bool {
    let d = json.str_at("designator"@)->0;
    &&& json.str_at("designator"@) is Some
    &&& p.designator@ == d
    &&& p.name@ == or_else(json.str_at("name"@), d)
    &&& Some(p.x) == i32_at(json, "x"@)
    &&& Some(p.y) == i32_at(json, "y"@)
    &&& p.length == or_else(i32_at(json, "length"@), 10i32)
    &&& p.orientation == (match pin_enum(json, d, "orientation"@, PIN_ORIENTATIONS@, Seq::empty()) {
        Ok(Some(n)) => or_else(orientation_named(n), PinOrientation::Right),
        _ => PinOrientation::Right,
    })
    &&& p.electrical_type == (match pin_enum(
        json,
        d,
        "electrical_type"@,
        PIN_ELECTRICAL_TYPES@,
        PIN_ELECTRICAL_TYPE_SYNONYMS@,
    ) {
        Ok(Some(n)) => or_else(electrical_type_named(n), PinElectricalType::Passive),
        _ => PinElectricalType::Passive,
    })
    &&& p.hidden == or_else(json.bool_at("hidden"@), false)
    &&& p.show_name == or_else(json.bool_at("show_name"@), true)
    &&& p.show_designator == or_else(json.bool_at("show_designator"@), true)
    &&& p.owner_part_id == or_else(i32_at(json, "owner_part_id"@), 1i32)
    &&& p.symbol_inner_edge == pin_symbol_at(json, d, "symbol_inner_edge"@)
    &&& p.symbol_outer_edge == pin_symbol_at(json, d, "symbol_outer_edge"@)
    &&& p.symbol_inside == pin_symbol_at(json, d, "symbol_inside"@)
    &&& p.symbol_outside == pin_symbol_at(json, d, "symbol_outside"@)
    &&& p.description@ == or_else(json.str_at("description"@), ""@)
    &&& p.colour == (or_else(json.u64_at("colour"@), 0u64) as u32)
    &&& p.graphically_locked == or_else(json.bool_at("graphically_locked"@), false)
    &&& p.swap_id_group@ == or_else(json.str_at("swap_id_group"@), ""@)
    &&& p.part_and_sequence@ == or_else(json.str_at("part_and_sequence"@), "|&|"@)
    &&& p.default_value@ == or_else(json.str_at("default_value"@), ""@)
    &&& p.owner_part_display_mode == or_else(i32_at(json, "owner_part_display_mode"@), 0i32)
    &&& p.symbol_line_width == or_else(i32_at(json, "symbol_line_width"@), 0i32)
    &&& p.frac == frac_of(json)
    &&& p.is_not_accessible == or_else(json.bool_at("is_not_accessible"@), false)
    &&& p.formal_type == (match bounded_u64_at(json, "formal_type"@, 255) {
        Some(v) => v as u8,
        None => 1u8,
    })
}

fn str_or(o: Option<&str>, d: &str) -> (r: String)
    ensures
        r@ == (match o {
            Some(s) => s@,
            None => d@,
        }),
{
    match o {
        Some(s) => s.to_string(),
        None => d.to_string(),
    }
}

fn pin_symbol_field(json: &Json, designator: &str, key: &str) -> (r: Result<PinSymbol, String>)
    ensures
        (match r {
            Ok(s) => pin_enum(*json, designator@, key@, PIN_SYMBOLS@, PIN_SYMBOL_SYNONYMS@) is Ok
                && s == pin_symbol_at(*json, designator@, key@),
            Err(e) => pin_enum(*json, designator@, key@, PIN_SYMBOLS@, PIN_SYMBOL_SYNONYMS@) == Err::<Option<Seq<char>>, Seq<char>>(e@),
        }),
{
    let field = pin_field(designator, key);
    match enum_field(json, key, field.as_str(), &PIN_SYMBOLS, &PIN_SYMBOL_SYNONYMS) {
        Ok(Some(n)) => {
            proof {
                lemma_pin_symbol_field(*json, key@, field@);
            }
            match PinSymbol::from_name(n.as_str()) {
                Some(s) => Ok(s),
                None => Ok(PinSymbol::NoSymbol),
            }
        },
        Ok(None) => Ok(PinSymbol::NoSymbol),
        Err(e) => Err(e),
    }
}

fn pin_field(designator: &str, key: &str) -> (r: String)
    ensures
        r@ == pin_field_name(designator@, key@),
{
    let mut f = String::new();
    push_str(&mut f, "Pin '");
    push_str(&mut f, designator);
    push_str(&mut f, "' ");
    push_str(&mut f, key);
    f
}

fn missing_integer(designator: &str, key: &str) -> (r: String)
    ensures
        r@ == pin_missing_integer(designator@, key@),
{
    let mut e = String::new();
    push_str(&mut e, "Pin '");
    push_str(&mut e, designator);
    push_str(&mut e, "' is missing an integer '");
    push_str(&mut e, key);
    push_str(&mut e, "'");
    e
}

impl McpServer {
    /// Parses a schematic pin from JSON. The designator and the integer `x` and
    /// `y` are required; each enum-valued field is read by its JSON name or a
    /// synonym and an unrecognised one is refused by name; every other field
    /// takes its from-scratch default when absent.
    pub fn parse_schlib_pin(json: &Json) -> (r: Result<Pin, String>)
        ensures
            r is Err <==> pin_error(*json) is Some,
            r matches Err(e) ==> pin_error(*json) == Some(e@),
            r matches Ok(p) ==> pin_matches(*json, p),
    {
        let designator = match json.str_field("designator") {
            Some(d) => d,
            None => return Err("Pin is missing its 'designator' string".to_string()),
        };
        let name = str_or(json.str_field("name"), designator);
        let x = match json_i32(json, "x") {
            Some(v) => v,
            None => return Err(missing_integer(designator, "x")),
        };
        let y = match json_i32(json, "y") {
            Some(v) => v,
            None => return Err(missing_integer(designator, "y")),
        };
        let length = match json_i32(json, "length") {
            Some(v) => v,
            None => 10,
        };
        let no_synonyms: [(&'static str, &'static str); 0] = [];
        assert(no_synonyms@ =~= Seq::<(&str, &str)>::empty());
        let orientation_field = pin_field(designator, "orientation");
        let orientation = match enum_field(
            json,
            "orientation",
            orientation_field.as_str(),
            &PIN_ORIENTATIONS,
            &no_synonyms,
        ) {
            Ok(Some(n)) => {
                proof {
                    lemma_orientation_field(*json, "orientation"@, orientation_field@);
                }
                match PinOrientation::from_name(n.as_str()) {
                    Some(o) => o,
                    None => PinOrientation::Right,
                }
            },
            Ok(None) => PinOrientation::Right,
            Err(e) => return Err(e),
        };
        let type_field = pin_field(designator, "electrical_type");
        let electrical_type = match enum_field(
            json,
            "electrical_type",
            type_field.as_str(),
            &PIN_ELECTRICAL_TYPES,
            &PIN_ELECTRICAL_TYPE_SYNONYMS,
        ) {
            Ok(Some(n)) => {
                proof {
                    lemma_electrical_type_field(*json, "electrical_type"@, type_field@);
                }
                match PinElectricalType::from_name(n.as_str()) {
                    Some(t) => t,
                    None => PinElectricalType::Passive,
                }
            },
            Ok(None) => PinElectricalType::Passive,
            Err(e) => return Err(e),
        };
        let hidden = match json.bool_field("hidden") {
            Some(b) => b,
            None => false,
        };
        let show_name = match json.bool_field("show_name") {
            Some(b) => b,
            None => true,
        };
        let show_designator = match json.bool_field("show_designator") {
            Some(b) => b,
            None => true,
        };
        let owner_part_id = match json_i32(json, "owner_part_id") {
            Some(v) => v,
            None => 1,
        };
        let symbol_inner_edge = pin_symbol_field(json, designator, "symbol_inner_edge")?;
        let symbol_outer_edge = pin_symbol_field(json, designator, "symbol_outer_edge")?;
        let symbol_inside = pin_symbol_field(json, designator, "symbol_inside")?;
        let symbol_outside = pin_symbol_field(json, designator, "symbol_outside")?;
        let description = str_or(json.str_field("description"), "");
        let colour_raw: u64 = match json.u64_field("colour") {
            Some(v) => v,
            None => 0,
        };
        let colour: u32 = #[verifier::truncate] (colour_raw as u32);
        let graphically_locked = match json.bool_field("graphically_locked") {
            Some(b) => b,
            None => false,
        };
        let swap_id_group = str_or(json.str_field("swap_id_group"), "");
        let part_and_sequence = str_or(json.str_field("part_and_sequence"), "|&|");
        let default_value = str_or(json.str_field("default_value"), "");
        let owner_part_display_mode = match json_i32(json, "owner_part_display_mode") {
            Some(v) => v,
            None => 0,
        };
        let symbol_line_width = match json_i32(json, "symbol_line_width") {
            Some(v) => v,
            None => 0,
        };
        let frac = match json.get("frac") {
            Some(f) => {
                let pf = PinFrac {
                    x: match json_i32(f, "x") {
                        Some(v) => v,
                        None => 0,
                    },
                    y: match json_i32(f, "y") {
                        Some(v) => v,
                        None => 0,
                    },
                    length: match json_i32(f, "length") {
                        Some(v) => v,
                        None => 0,
                    },
                };
                if pf.is_zero() {
                    None
                } else {
                    Some(pf)
                }
            },
            None => None,
        };
        let is_not_accessible = match json.bool_field("is_not_accessible") {
            Some(b) => b,
            None => false,
        };
        let formal_type = match json.u64_field("formal_type") {
            Some(v) => if v <= 255 {
                v as u8
            } else {
                1
            },
            None => 1,
        };
        Ok(Pin {
            name,
            designator: designator.to_string(),
            x,
            y,
            length,
            orientation,
            electrical_type,
            hidden,
            show_name,
            show_designator,
            description,
            owner_part_id,
            owner_part_display_mode,
            colour,
            graphically_locked,
            symbol_inner_edge,
            symbol_outer_edge,
            symbol_inside,
            symbol_outside,
            is_not_accessible,
            formal_type,
            swap_id_group,
            part_and_sequence,
            default_value,
            symbol_line_width,
            frac,
        })
    }
}

/// A pin's connection tip: `length` units from its body end `(x, y)` in the
/// direction it points, which is how the pin is drawn.
pub fn pin_tip(pin: &Pin) -> (r: (i32, i32))
    requires
        i32::MIN <= pin.x + pin.length <= i32::MAX,
        i32::MIN <= pin.x - pin.length <= i32::MAX,
        i32::MIN <= pin.y + pin.length <= i32::MAX,
        i32::MIN <= pin.y - pin.length <= i32::MAX,
    ensures
        r == tip_of(pin.x as int, pin.y as int, pin.length as int, pin.orientation),
{
    match pin.orientation {
        PinOrientation::Right => (pin.x + pin.length, pin.y),
        PinOrientation::Left => (pin.x - pin.length, pin.y),
        PinOrientation::Up => (pin.x, pin.y + pin.length),
        PinOrientation::Down => (pin.x, pin.y - pin.length),
    }
}

/// The point `length` units from `(x, y)` in the direction `o`.
pub open spec fn tip_of(x: int, y: int, length: int, o: PinOrientation) -> (i32, i32) {
    match o {
        PinOrientation::Right => ((x + length) as i32, y as i32),
        PinOrientation::Left => ((x - length) as i32, y as i32),
        PinOrientation::Up => (x as i32, (y + length) as i32),
        PinOrientation::Down => (x as i32, (y - length) as i32),
    }
}


// ---------------------------------------------------------------- replay lists

/// The views of a list of strings.
pub open spec fn strings_view(v: Seq<String>) -> Seq<Seq<char>> {
    v.map_values(|s: String| s@)
}

/// The views of a list of string pairs.
pub open spec fn pairs_view(v: Seq<(String, String)>) -> Seq<(Seq<char>, Seq<char>)> {
    v.map_values(|p: (String, String)| (p.0@, p.1@))
}

/// The strings among `items`, in order; any other entry is dropped.
pub open spec fn strings_among(items: Seq<Json>) -> Seq<Seq<char>>
    decreases items.len(),
{
    if items.len() == 0 {
        Seq::empty()
    } else {
        match items.last().spec_as_str() {
            Some(s) => strings_among(items.drop_last()).push(s),
            None => strings_among(items.drop_last()),
        }
    }
}

/// The array member `key` of an object, if it is one.
pub open spec fn array_at(json: Json, key: Seq<char>) -> Option<Seq<Json>> {
    match json.spec_get(key) {
        Some(v) => match v.node {
            JsonNode::Array(a) => Some(a@),
            _ => None,
        },
        None => None,
    }
}

/// The key order a read region reported (`param_key_order`): its string
/// entries; nothing when absent.
pub open spec fn key_order_of(json: Json) -> Seq<Seq<char>> {
    match array_at(json, "param_key_order"@) {
        Some(a) => strings_among(a),
        None => Seq::empty(),
    }
}

impl McpServer {
    /// Parses the `param_key_order` list a read region carries, so a
    /// read-modify-write keeps the block's original key order. Absent gives
    /// the empty list (the writer's canonical order); entries that are not
    /// strings are dropped.
    pub fn parse_key_order(json: &Json) -> (r: Vec<String>)
        ensures
            strings_view(r@) == key_order_of(*json),
    {
        let mut out: Vec<String> = Vec::new();
        match json.get("param_key_order") {
            Some(v) => match &v.node {
                JsonNode::Array(items) => {
                    let mut i: usize = 0;
                    while i < items.len()
                        invariant
                            i <= items.len(),
                            strings_view(out@) == strings_among(items@.take(i as int)),
                        decreases items.len() - i,
                    {
                        assert(items@.take((i + 1) as int).drop_last() =~= items@.take(i as int));
                        match items[i].as_str() {
                            Some(s) => {
                                out.push(s.to_string());
                                assert(strings_view(out@) =~= strings_among(items@.take(i as int)).push(s@));
                            },
                            None => {},
                        }
                        i += 1;
                    }
                    assert(items@.take(items.len() as int) =~= items@);
                },
                _ => {},
            },
            None => {},
        }
        out
    }
}

/// The `[key, value]` string pairs among `items`: each entry that is an
/// array whose first two elements are strings; any other entry is dropped.
pub open spec fn lenient_pairs(items: Seq<Json>) -> Seq<(Seq<char>, Seq<char>)>
    decreases items.len(),
{
    if items.len() == 0 {
        Seq::empty()
    } else {
        let rest = lenient_pairs(items.drop_last());
        match items.last().node {
            JsonNode::Array(a) => if a@.len() >= 2 && a@[0].spec_as_str() is Some
                && a@[1].spec_as_str() is Some {
                rest.push((a@[0].spec_as_str()->0, a@[1].spec_as_str()->0))
            } else {
                rest
            },
            _ => rest,
        }
    }
}

/// What `parse_additional_parameters` gives.
pub open spec fn additional_parameters_of(json: Json) -> Seq<(Seq<char>, Seq<char>)> {
    match array_at(json, "additional_parameters"@) {
        Some(a) => lenient_pairs(a),
        None => Seq::empty(),
    }
}

/// The `[key, value]` pair an array entry holds in its first two elements.
fn leading_pair(entry: &Json) -> (r: Option<(String, String)>)
    ensures
        r matches Some(p) ==> (match entry.node {
            JsonNode::Array(a) => a@.len() >= 2 && a@[0].spec_as_str() == Some(p.0@)
                && a@[1].spec_as_str() == Some(p.1@),
            _ => false,
        }),
        r is None ==> (match entry.node {
            JsonNode::Array(a) => !(a@.len() >= 2 && a@[0].spec_as_str() is Some
                && a@[1].spec_as_str() is Some),
            _ => true,
        }),
{
    match &entry.node {
        JsonNode::Array(a) => {
            if a.len() < 2 {
                return None;
            }
            match (a[0].as_str(), a[1].as_str()) {
                (Some(k), Some(v)) => Some((k.to_string(), v.to_string())),
                _ => None,
            }
        },
        _ => None,
    }
}

impl McpServer {
    /// Parses an `additional_parameters` catch-all: an array of `[key, value]`
    /// string pairs. A malformed entry is dropped and a missing list is empty,
    /// so a from-scratch primitive re-emits nothing.
    pub fn parse_additional_parameters(json: &Json) -> (r: Vec<(String, String)>)
        ensures
            pairs_view(r@) == additional_parameters_of(*json),
    {
        let mut out: Vec<(String, String)> = Vec::new();
        match json.get("additional_parameters") {
            Some(v) => match &v.node {
                JsonNode::Array(items) => {
                    let mut i: usize = 0;
                    while i < items.len()
                        invariant
                            i <= items.len(),
                            pairs_view(out@) == lenient_pairs(items@.take(i as int)),
                        decreases items.len() - i,
                    {
                        assert(items@.take((i + 1) as int).drop_last() =~= items@.take(i as int));
                        match leading_pair(&items[i]) {
                            Some(p) => {
                                let ghost pv = (p.0@, p.1@);
                                out.push(p);
                                assert(pairs_view(out@) =~= lenient_pairs(items@.take(i as int)).push(
                                    pv,
                                ));
                            },
                            None => {},
                        }
                        i += 1;
                    }
                    assert(items@.take(items.len() as int) =~= items@);
                },
                _ => {},
            },
            None => {},
        }
        out
    }
}

/// The pairs of `items` when every entry is an array of exactly two
/// strings, the shape a list of string pairs deserialises from; `None`
/// when any entry is not.
pub open spec fn strict_pairs(items: Seq<Json>) -> Option<Seq<(Seq<char>, Seq<char>)>>
    decreases items.len(),
{
    if items.len() == 0 {
        Some(Seq::empty())
    } else {
        match strict_pairs(items.drop_last()) {
            None => None,
            Some(rest) => match items.last().node {
                JsonNode::Array(a) => if a@.len() == 2 && a@[0].spec_as_str() is Some
                    && a@[1].spec_as_str() is Some {
                    Some(rest.push((a@[0].spec_as_str()->0, a@[1].spec_as_str()->0)))
                } else {
                    None
                },
                _ => None,
            },
        }
    }
}

/// What `json_raw_params` gives: the record's raw segments when they have
/// the `[[key, value], ...]` shape, else none at all.
pub open spec fn raw_params_of(json: Json) -> Seq<(Seq<char>, Seq<char>)> {
    match array_at(json, "raw_params"@) {
        Some(a) => or_else(strict_pairs(a), Seq::empty()),
        None => Seq::empty(),
    }
}

/// Reads a record's raw segments (`raw_params`), so a read-modify-write
/// replays the record as Altium wrote it. Anything but a list of string
/// pairs is read as no segments.
pub fn json_raw_params(json: &Json) -> (r: Vec<(String, String)>)
    ensures
        pairs_view(r@) == raw_params_of(*json),
{
    let mut out: Vec<(String, String)> = Vec::new();
    match json.get("raw_params") {
        Some(v) => match &v.node {
            JsonNode::Array(items) => {
                let mut i: usize = 0;
                while i < items.len()
                    invariant
                        i <= items.len(),
                        strict_pairs(items@.take(i as int)) == Some(pairs_view(out@)),
                        array_at(*json, "raw_params"@) == Some(items@),
                    decreases items.len() - i,
                {
                    assert(items@.take((i + 1) as int).drop_last() =~= items@.take(i as int));
                    let whole = match &items[i].node {
                        JsonNode::Array(a) => a.len() == 2,
                        _ => false,
                    };
                    assert(items@.take((i + 1) as int).last() == items@[i as int]);
                    if !whole {
                        proof {
                            lemma_strict_pairs_stays_none(items@, i as int);
                        }
                        let empty: Vec<(String, String)> = Vec::new();
                        assert(pairs_view(empty@) =~= Seq::empty());
                        return empty;
                    }
                    match leading_pair(&items[i]) {
                        Some(p) => {
                            let ghost pv = (p.0@, p.1@);
                            out.push(p);
                            assert(pairs_view(out@) =~= pairs_view(out@.drop_last()).push(pv));
                        },
                        None => {
                            proof {
                                lemma_strict_pairs_stays_none(items@, i as int);
                            }
                            let empty: Vec<(String, String)> = Vec::new();
                            assert(pairs_view(empty@) =~= Seq::empty());
                            return empty;
                        },
                    }
                    i += 1;
                }
                assert(items@.take(items.len() as int) =~= items@);
            },
            _ => {},
        },
        None => {},
    }
    out
}

/// Once a prefix has no strict reading, no longer prefix has one.
proof fn lemma_strict_pairs_stays_none(items: Seq<Json>, i: int)
    requires
        0 <= i < items.len(),
        strict_pairs(items.take(i + 1)) is None,
    ensures
        strict_pairs(items) is None,
    decreases items.len() - i,
{
    if i + 1 < items.len() {
        assert(items.take(i + 2).drop_last() =~= items.take(i + 1));
        lemma_strict_pairs_stays_none(items, i + 1);
    } else {
        assert(items.take(i + 1) =~= items);
    }
}

// ---------------------------------------------------------------- display flags

/// The display and lock flags every schematic graphic shape carries.
#[derive(PartialEq, Eq, Structural, Clone, Copy, Debug)]
pub struct ShapeDisplayFlags {
    pub graphically_locked: bool,
    pub disabled: bool,
    pub dimmed: bool,
    pub owner_part_display_mode: i32,
}

/// The display/lock flags a schematic graphic's JSON gives.
pub open spec fn display_flags_of(json: Json) -> ShapeDisplayFlags {
    ShapeDisplayFlags {
        graphically_locked: or_else(json.bool_at("graphically_locked"@), false),
        disabled: or_else(json.bool_at("disabled"@), false),
        dimmed: or_else(json.bool_at("dimmed"@), false),
        owner_part_display_mode: or_else(i32_at(json, "owner_part_display_mode"@), 0i32),
    }
}

/// Reads the four display/lock flags of a schematic graphic shape; absent
/// keys default to `false` / `0`, matching the records Altium writes.
pub fn parse_schlib_display_flags(json: &Json) -> (r: ShapeDisplayFlags)
    ensures
        r == display_flags_of(*json),
        r.graphically_locked == or_else(json.bool_at("graphically_locked"@), false),
        r.disabled == or_else(json.bool_at("disabled"@), false),
        r.dimmed == or_else(json.bool_at("dimmed"@), false),
        r.owner_part_display_mode == or_else(i32_at(*json, "owner_part_display_mode"@), 0i32),
{
    ShapeDisplayFlags {
        graphically_locked: match json.bool_field("graphically_locked") {
            Some(b) => b,
            None => false,
        },
        disabled: match json.bool_field("disabled") {
            Some(b) => b,
            None => false,
        },
        dimmed: match json.bool_field("dimmed") {
            Some(b) => b,
            None => false,
        },
        owner_part_display_mode: match json_i32(json, "owner_part_display_mode") {
            Some(v) => v,
            None => 0,
        },
    }
}

// ---------------------------------------------------------------- unknown keys

/// How `{:?}` prints a list of string slices.
pub uninterp spec fn debug_text(keys: Seq<Seq<char>>) -> Seq<char>;

/// `format!("{:?}", keys)` for a slice of string slices. The claim is only
/// that the text is the named function of the keys.
#[verifier::external_body]
fn debug_of_keys(keys: &[&str]) -> (r: String)
    ensures
        r@ == debug_text(str_views(keys@)),
{
    format!("{keys:?}")
}

/// The first member name of `members` that `allowed` does not hold.
pub open spec fn first_unknown(members: Seq<(String, Json)>, allowed: Seq<Seq<char>>) -> Option<Seq<char>>
    decreases members.len(),
{
    if members.len() == 0 {
        None
    } else if !allowed.contains(members[0].0@) {
        Some(members[0].0@)
    } else {
        first_unknown(members.drop_first(), allowed)
    }
}

/// What `check_unknown_fields` gives: for an object with a member outside
/// `allowed`, the error naming the first such member and what is allowed.
pub open spec fn unknown_field_error(json: Json, allowed: Seq<&str>) -> Option<Seq<char>> {
    match json.node {
        JsonNode::Object(members) => match first_unknown(members@, str_views(allowed)) {
            Some(key) => Some("Unknown field '"@ + key + "'. Allowed fields are: "@ + debug_text(
                str_views(allowed),
            )),
            None => None,
        },
        _ => None,
    }
}

impl McpServer {
    /// Refuses an object carrying a member outside `allowed_keys`, so a typo
    /// in an optional key is reported rather than silently ignored. A value
    /// that is not an object carries no keys and passes.
    pub fn check_unknown_fields(json: &Json, allowed_keys: &[&str]) -> (r: Result<(), String>)
        ensures
            r is Ok <==> unknown_field_error(*json, allowed_keys@) is None,
            r matches Err(e) ==> unknown_field_error(*json, allowed_keys@) == Some(e@),
    {
        match &json.node {
            JsonNode::Object(members) => {
                let mut i: usize = 0;
                assert(members@.skip(0) =~= members@);
                while i < members.len()
                    invariant
                        i <= members.len(),
                        json.node == JsonNode::Object(*members),
                        first_unknown(members@, str_views(allowed_keys@)) == first_unknown(
                            members@.skip(i as int),
                            str_views(allowed_keys@),
                        ),
                    decreases members.len() - i,
                {
                    let key = chars_of(members[i].0.as_str());
                    let ghost rest = members@.skip(i as int);
                    assert(rest[0] == members@[i as int]);
                    if !chars_in(key.as_slice(), allowed_keys) {
                        let mut e = String::new();
                        push_str(&mut e, "Unknown field '");
                        push_str(&mut e, members[i].0.as_str());
                        push_str(&mut e, "'. Allowed fields are: ");
                        let allowed = debug_of_keys(allowed_keys);
                        push_str(&mut e, allowed.as_str());
                        return Err(e);
                    }
                    assert(rest.drop_first() =~= members@.skip(i + 1));
                    i += 1;
                }
                Ok(())
            },
            _ => Ok(()),
        }
    }
}

// ---------------------------------------------------------------- malformed records

/// What an error report carries: the tool, the message and, where known,
/// the file, the component and a detail line.
#[derive(Debug)]
pub struct ErrorContext {
    pub operation: String,
    pub message: String,
    pub filepath: Option<String>,
    pub component: Option<String>,
    pub details: Option<String>,
}

impl McpServer {
    /// The error for a record its parser could not build, named and indexed so
    /// a bad record is refused rather than silently left out of the file.
    pub fn malformed(operation: &str, filepath: &str, component: &str, kind: &str, index: usize, reason: &str) -> (r: ErrorContext)
        ensures
            r.operation@ == operation@,
            r.message@ == "Malformed "@ + kind@ + ": "@ + reason@,
            r.filepath matches Some(f) && f@ == filepath@,
            r.component matches Some(c) && c@ == component@,
            r.details matches Some(d) && d@ == "Failed to parse "@ + kind@ + " at index "@
                + crate::text::decimal(index as nat),
    {
        let mut message = String::new();
        push_str(&mut message, "Malformed ");
        push_str(&mut message, kind);
        push_str(&mut message, ": ");
        push_str(&mut message, reason);
        let mut details = String::new();
        push_str(&mut details, "Failed to parse ");
        push_str(&mut details, kind);
        push_str(&mut details, " at index ");
        let n = u64_text(index as u64);
        push_str(&mut details, n.as_str());
        ErrorContext {
            operation: operation.to_string(),
            message,
            filepath: Some(filepath.to_string()),
            component: Some(component.to_string()),
            details: Some(details),
        }
    }
}


// ---------------------------------------------------------------- symbol header

/// The designator text a symbol gets: the explicit `designator`, else the
/// prefix (explicit, else from the component type through the IEEE 315
/// table, else `U`) followed by `?`.
pub open spec fn designator_text(
    designator: Option<Seq<char>>,
    prefix: Option<Seq<char>>,
    component_type: Option<Seq<char>>,
) -> Seq<char> {
    match designator {
        Some(d) => d,
        None => {
            let p = match prefix {
                Some(p) => p,
                None => match component_type {
                    Some(t) => ieee_prefix_of(component_type_key(t)),
                    None => "U"@,
                },
            };
            p + "?"@
        },
    }
}

/// The views of an optional string slice.
pub open spec fn opt_str_view(o: Option<&str>) -> Option<Seq<char>> {
    match o {
        Some(s) => Some(s@),
        None => None,
    }
}

/// The reference designator a symbol is written with, so that every symbol
/// carries one. Precedence: an explicit designator; an explicit prefix; the
/// prefix the component type maps to; `U`. A prefix gets a `?` appended.
pub fn symbol_designator(designator: Option<&str>, prefix: Option<&str>, component_type: Option<&str>) -> (r: String)
    ensures
        r@ == designator_text(
            opt_str_view(designator),
            opt_str_view(prefix),
            opt_str_view(component_type),
        ),
{
    match designator {
        Some(d) => d.to_string(),
        None => {
            let mut r = String::new();
            match prefix {
                Some(p) => push_str(&mut r, p),
                None => match component_type {
                    Some(t) => push_str(&mut r, ieee_designator_prefix(t)),
                    None => push_str(&mut r, "U"),
                },
            }
            push_str(&mut r, "?");
            r
        },
    }
}

/// The header fields of a symbol that a tool request sets. `None` leaves
/// the field at the new symbol's default.
#[derive(Debug)]
pub struct SymbolHeader {
    pub name: String,
    pub description: Option<String>,
    pub designator: String,
    pub designator_unique_id: Option<String>,
    pub part_count: Option<u32>,
    pub display_mode_count: Option<u32>,
    pub current_part_id: Option<u32>,
    pub part_id_locked: Option<bool>,
    pub source_library_name: Option<String>,
    pub target_file_name: Option<String>,
    pub storage_name: Option<String>,
    /// `Some(None)`: the count was given but does not fit.
    pub all_pin_count: Option<Option<u32>>,
}

/// The member `key` as a `u32`, when it is an integer that fits.
pub open spec fn u32_at(json: Json, key: Seq<char>) -> Option<u32> {
    match json.u64_at(key) {
        Some(v) => if v <= u32::MAX as u64 {
            Some(v as u32)
        } else {
            None
        },
        None => None,
    }
}

/// A part count clamped to the 1..=255 a symbol can hold.
pub open spec fn clamped_part_count(v: u64) -> u32 {
    if v < 1 {
        1
    } else if v > 255 {
        255
    } else {
        v as u32
    }
}

fn u32_field(json: &Json, key: &str) -> (r: Option<u32>)
    ensures
        r == u32_at(*json, key@),
{
    match json.u64_field(key) {
        Some(v) => if v <= u32::MAX as u64 {
            Some(v as u32)
        } else {
            None
        },
        None => None,
    }
}

fn opt_string(o: Option<&str>) -> (r: Option<String>)
    ensures
        opt_view(r) == opt_str_view(o),
{
    match o {
        Some(s) => Some(s.to_string()),
        None => None,
    }
}

/// Reads the header of a symbol object: its name (`default_name` when it
/// has none), the designator by the precedence of [`symbol_designator`],
/// the part count clamped to 1..=255, and each other header field that is
/// present with the right type.
pub fn parse_symbol_header(json: &Json, default_name: &str) -> (r: SymbolHeader)
    ensures
        r.name@ == or_else(json.str_at("name"@), default_name@),
        opt_view(r.description) == json.str_at("description"@),
        r.designator@ == designator_text(
            json.str_at("designator"@),
            json.str_at("designator_prefix"@),
            json.str_at("component_type"@),
        ),
        opt_view(r.designator_unique_id) == json.str_at("designator_unique_id"@),
        r.part_count == (match json.u64_at("part_count"@) {
            Some(v) => Some(clamped_part_count(v)),
            None => None,
        }),
        r.display_mode_count == u32_at(*json, "display_mode_count"@),
        r.current_part_id == u32_at(*json, "current_part_id"@),
        r.part_id_locked == json.bool_at("part_id_locked"@),
        opt_view(r.source_library_name) == json.str_at("source_library_name"@),
        opt_view(r.target_file_name) == json.str_at("target_file_name"@),
        opt_view(r.storage_name) == json.str_at("storage_name"@),
        r.all_pin_count == (match json.u64_at("all_pin_count"@) {
            Some(_) => Some(u32_at(*json, "all_pin_count"@)),
            None => None,
        }),
{
    let name = match json.str_field("name") {
        Some(n) => n.to_string(),
        None => default_name.to_string(),
    };
    let designator = symbol_designator(
        json.str_field("designator"),
        json.str_field("designator_prefix"),
        json.str_field("component_type"),
    );
    let part_count = match json.u64_field("part_count") {
        Some(v) => Some(
            if v < 1 {
                1
            } else if v > 255 {
                255
            } else {
                v as u32
            },
        ),
        None => None,
    };
    let all_pin_count = match json.u64_field("all_pin_count") {
        Some(_) => Some(u32_field(json, "all_pin_count")),
        None => None,
    };
    SymbolHeader {
        name,
        description: opt_string(json.str_field("description")),
        designator,
        designator_unique_id: opt_string(json.str_field("designator_unique_id")),
        part_count,
        display_mode_count: u32_field(json, "display_mode_count"),
        current_part_id: u32_field(json, "current_part_id"),
        part_id_locked: json.bool_field("part_id_locked"),
        source_library_name: opt_string(json.str_field("source_library_name")),
        target_file_name: opt_string(json.str_field("target_file_name")),
        storage_name: opt_string(json.str_field("storage_name")),
        all_pin_count,
    }
}

// ---------------------------------------------------------------- footprint links

/// A symbol's link to a footprint model: a name, not an embedded footprint.
#[derive(Debug)]
pub struct FootprintLink {
    pub name: String,
    pub description: Option<String>,
    pub library_path: Option<String>,
    pub is_current: bool,
    pub unique_id: Option<String>,
    pub raw_params: Vec<(String, String)>,
}

/// Reads a symbol's footprint link: `None` when it has no `name` string
/// (the caller reports the link as malformed); otherwise the name, the
/// optional description and library path, whether it is the current model,
/// its read-preserved identity and raw segments.
pub fn parse_footprint_link(json: &Json) -> (r: Option<FootprintLink>)
    ensures
        r is Some <==> json.str_at("name"@) is Some,
        r matches Some(l) ==> {
            &&& Some(l.name@) == json.str_at("name"@)
            &&& opt_view(l.description) == json.str_at("description"@)
            &&& opt_view(l.library_path) == json.str_at("library_path"@)
            &&& l.is_current == or_else(json.bool_at("is_current"@), false)
            &&& opt_view(l.unique_id) == json.str_at("unique_id"@)
            &&& pairs_view(l.raw_params@) == raw_params_of(*json)
        },
{
    let name = match json.str_field("name") {
        Some(n) => n.to_string(),
        None => return None,
    };
    Some(FootprintLink {
        name,
        description: opt_string(json.str_field("description")),
        library_path: opt_string(json.str_field("library_path")),
        is_current: match json.bool_field("is_current") {
            Some(b) => b,
            None => false,
        },
        unique_id: opt_string(json.str_field("unique_id")),
        raw_params: json_raw_params(json),
    })
}

} // verus!
