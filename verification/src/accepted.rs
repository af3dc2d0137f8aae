//! The values an enum-valued string field accepts, as the JSON boundary
//! spells them (the `snake_case` names). Each list is the field's accepted
//! set and the error's "accepted values" alike; the synonym lists map a
//! folded spelling (lower case, no separators) to the name it stands for.
use vstd::prelude::*;

verus! {

/// `hole_shape` of a pad.
pub const HOLE_SHAPES: [&'static str; 3] = ["round", "square", "slot"];

/// `paste_mask_expansion_mode` / `solder_mask_expansion_mode`.
pub const MASK_EXPANSION_MODES: [&'static str; 3] = ["none", "manual", "from_rule"];

/// `power_plane_connect_style` of a pad or via.
pub const POWER_PLANE_CONNECT_STYLES: [&'static str; 3] = ["relief", "direct", "no_connect"];

/// `stack_mode` of a pad and `diameter_stack_mode` of a via.
pub const STACK_MODES: [&'static str; 3] = ["simple", "top_middle_bottom", "full_stack"];

/// `drill_layer_pair_type` of a via.
pub const DRILL_LAYER_PAIR_TYPES: [&'static str; 4] = [
    "through",
    "blind_buried_start",
    "mid",
    "end",
];

/// `kind` of a `PcbLib` text.
pub const TEXT_KINDS: [&'static str; 3] = ["stroke", "true_type", "bar_code"];

/// `stroke_font` of a `PcbLib` text.
pub const STROKE_FONTS: [&'static str; 3] = ["default", "sans_serif", "serif"];

/// `kind` of a region, by name (a raw `KIND` integer is accepted too).
pub const REGION_KINDS: [&'static str; 4] = ["copper", "cutout", "named_region", "cavity"];

/// `justification` of a `PcbLib` text or a `SchLib` label.
pub const TEXT_JUSTIFICATIONS: [&'static str; 9] = [
    "bottom_left",
    "bottom_center",
    "bottom_right",
    "middle_left",
    "middle_center",
    "middle_right",
    "top_left",
    "top_center",
    "top_right",
];

/// `orientation` of a pin.
pub const PIN_ORIENTATIONS: [&'static str; 4] = ["left", "right", "up", "down"];

/// `electrical_type` of a pin.
pub const PIN_ELECTRICAL_TYPES: [&'static str; 8] = [
    "input",
    "output",
    "bidirectional",
    "passive",
    "power",
    "open_collector",
    "open_emitter",
    "hi_z",
];

/// The four `symbol_*` decorations of a pin.
pub const PIN_SYMBOLS: [&'static str; 22] = [
    "none",
    "dot",
    "right_left_signal_flow",
    "clock",
    "active_low_input",
    "analog_signal_in",
    "not_logic_connection",
    "postponed_output",
    "open_collector",
    "hi_z",
    "high_current",
    "pulse",
    "schmitt",
    "active_low_output",
    "open_collector_pull_up",
    "open_emitter",
    "open_emitter_pull_up",
    "digital_signal_in",
    "shift_left",
    "open_output",
    "left_right_signal_flow",
    "bidirectional_signal_flow",
];

/// Spellings accepted besides [`TEXT_JUSTIFICATIONS`].
pub const TEXT_JUSTIFICATION_SYNONYMS: [(&'static str, &'static str); 9] = [
    ("bottomcentre", "bottom_center"),
    ("centerleft", "middle_left"),
    ("centreleft", "middle_left"),
    ("middlecentre", "middle_center"),
    ("center", "middle_center"),
    ("centre", "middle_center"),
    ("centerright", "middle_right"),
    ("centreright", "middle_right"),
    ("topcentre", "top_center"),
];

/// Spellings accepted besides [`PIN_ELECTRICAL_TYPES`].
pub const PIN_ELECTRICAL_TYPE_SYNONYMS: [(&'static str, &'static str); 4] = [
    ("io", "bidirectional"),
    ("inputoutput", "bidirectional"),
    ("tristate", "hi_z"),
    ("highimpedance", "hi_z"),
];

/// Spellings accepted besides [`PIN_SYMBOLS`].
pub const PIN_SYMBOL_SYNONYMS: [(&'static str, &'static str); 14] = [
    ("invert", "dot"),
    ("inversion", "dot"),
    ("clk", "clock"),
    ("lowinput", "active_low_input"),
    ("lowoutput", "active_low_output"),
    ("rightleft", "right_left_signal_flow"),
    ("leftright", "left_right_signal_flow"),
    ("bidirectional", "bidirectional_signal_flow"),
    ("analog", "analog_signal_in"),
    ("digital", "digital_signal_in"),
    ("notlogic", "not_logic_connection"),
    ("postponed", "postponed_output"),
    ("highimpedance", "hi_z"),
    ("schmitttrigger", "schmitt"),
];

/// Spellings accepted besides [`HOLE_SHAPES`].
pub const HOLE_SHAPE_SYNONYMS: [(&'static str, &'static str); 2] = [
    ("circle", "round"),
    ("circular", "round"),
];

} // verus!
