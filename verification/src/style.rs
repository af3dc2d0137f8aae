//! The style statistics the extract-style tool reports: the minimum,
//! maximum and most common of a list of integer measures (pin lengths,
//! stroke widths), tallies of names (pad shapes, layers) and of colours
//! written as `#RRGGBB`, and the summary of a schematic library built from
//! them. Fractional measures are summarised by the caller.
use vstd::prelude::*;
use crate::McpServer;
use crate::report::occurrences;
use crate::text::{push_char, push_chars, str_eq};

verus! {

// ---------------------------------------------------------------- integer measures

/// The minimum, maximum and most common of a non-empty list of measures,
/// and how many there are.
#[derive(PartialEq, Eq, Structural, Clone, Copy, Debug)]
pub struct IntStats {
    pub min: i64,
    pub max: i64,
    pub most_common: i64,
    pub count: usize,
}

/// `m` is the least of `values`.
pub open spec fn is_least(values: Seq<i64>, m: i64) -> bool {
    values.contains(m) && forall|i: int| 0 <= i < values.len() ==> m <= #[trigger] values[i]
}

/// `m` is the greatest of `values`.
pub open spec fn is_greatest(values: Seq<i64>, m: i64) -> bool {
    values.contains(m) && forall|i: int| 0 <= i < values.len() ==> #[trigger] values[i] <= m
}

/// `m` occurs in `values` at least as often as any other value.
pub open spec fn is_most_common(values: Seq<i64>, m: i64) -> bool {
    values.contains(m) && forall|i: int|
        0 <= i < values.len() ==> occurrences(values, #[trigger] values[i]) <= occurrences(values, m)
}

/// `stats` summarises `values`: nothing for an empty list, otherwise its
/// least, greatest and a most common value and its length.
pub open spec fn summarises(stats: Option<IntStats>, values: Seq<i64>) -> bool {
    &&& stats is None <==> values.len() == 0
    &&& stats matches Some(s) ==> {
        &&& s.count == values.len()
        &&& is_least(values, s.min)
        &&& is_greatest(values, s.max)
        &&& is_most_common(values, s.most_common)
    }
}

impl McpServer {
    /// The statistics of a list of integer measures: `None` for an empty
    /// list; otherwise its least and greatest value, a most common one
    /// (which of several equally common ones is not fixed) and its length.
    pub fn int_stats(values: &[i64]) -> (r: Option<IntStats>)
        ensures
            summarises(r, values@),
    {
        if values.len() == 0 {
            return None;
        }
        let mut min = values[0];
        let mut max = values[0];
        let mut i: usize = 1;
        while i < values.len()
            invariant
                1 <= i <= values.len(),
                values@.contains(min),
                values@.contains(max),
                forall|k: int| 0 <= k < i ==> min <= #[trigger] values@[k] <= max,
            decreases values.len() - i,
        {
            if values[i] < min {
                min = values[i];
            }
            if values[i] > max {
                max = values[i];
            }
            i += 1;
        }
        let most_common = McpServer::most_common(values);
        Some(IntStats { min, max, most_common, count: values.len() })
    }
}

// ---------------------------------------------------------------- colours

/// The upper-case hexadecimal digit for `d < 16`.
pub open spec fn hex_digit(d: nat) -> char {
    if d < 10 {
        ((d + 48) as u32) as char
    } else {
        ((d + 55) as u32) as char
    }
}

/// The upper-case hexadecimal representation of a natural number, without
/// leading zeros.
pub open spec fn hex(n: nat) -> Seq<char>
    decreases n,
{
    if n < 16 {
        seq![hex_digit(n)]
    } else {
        hex(n / 16).push(hex_digit(n % 16))
    }
}

/// How a colour is named in a style report: `#` and its value in upper-case
/// hexadecimal, at least six digits (`format!("#{c:06X}")`).
pub open spec fn colour_name(c: u32) -> Seq<char> {
    let digits = hex(c as nat);
    let zeros: nat = if digits.len() < 6 {
        (6 - digits.len()) as nat
    } else {
        0
    };
    "#"@ + Seq::new(zeros, |i: int| '0') + digits
}

fn hex_char(d: u32) -> (c: char)
    requires
        d < 16,
    ensures
        c == hex_digit(d as nat),
{
    if d < 10 {
        ((d + 48) as u8) as char
    } else {
        ((d + 55) as u8) as char
    }
}

fn hex_chars(n: u32) -> (v: Vec<char>)
    ensures
        v@ == hex(n as nat),
    decreases n,
{
    let mut v = if n >= 16 {
        hex_chars(n / 16)
    } else {
        Vec::new()
    };
    let c = hex_char(n % 16);
    v.push(c);
    proof {
        if n < 16 {
            assert(n % 16 == n);
            assert(v@ =~= seq![hex_digit(n as nat)]);
        }
    }
    v
}

/// The name of a colour in a style report, `#RRGGBB`.
pub fn colour_key(c: u32) -> (s: String)
    ensures
        s@ == colour_name(c),
{
    let digits = hex_chars(c);
    let mut s = String::new();
    push_char(&mut s, '#');
    let mut k: usize = digits.len();
    while k < 6
        invariant
            digits.len() <= k <= 6 || (k == digits.len() && k >= 6),
            s@ == seq!['#'] + Seq::new((k - digits.len()) as nat, |i: int| '0'),
        decreases 6 - k,
    {
        push_char(&mut s, '0');
        proof {
            assert(s@ =~= seq!['#'] + Seq::new((k + 1 - digits.len()) as nat, |i: int| '0'));
        }
        k += 1;
    }
    push_chars(&mut s, digits.as_slice());
    proof {
        reveal_strlit("#");
        let zeros: nat = if digits@.len() < 6 {
            (6 - digits@.len()) as nat
        } else {
            0
        };
        assert(k - digits.len() == zeros);
        assert(s@ =~= colour_name(c));
    }
    s
}

/// Whether `ch` is an upper-case hexadecimal digit, `0`-`9` or `A`-`F`.
pub open spec fn is_upper_hex(ch: char) -> bool {
    ('0' <= ch && ch <= '9') || ('A' <= ch && ch <= 'F')
}

/// The value of an upper-case hexadecimal digit.
pub open spec fn hex_value(ch: char) -> int {
    if '0' <= ch && ch <= '9' {
        ch as int - '0' as int
    } else {
        ch as int - 'A' as int + 10
    }
}

/// The number that a string of hexadecimal digits spells, most significant
/// digit first.
pub open spec fn hex_number(digits: Seq<char>) -> int
    decreases digits.len(),
{
    if digits.len() == 0 {
        0
    } else {
        hex_number(digits.drop_last()) * 16 + hex_value(digits.last())
    }
}

proof fn lemma_hex_digit_reads_back(d: nat)
    requires
        d < 16,
    ensures
        is_upper_hex(hex_digit(d)),
        hex_value(hex_digit(d)) == d,
{
    let ch = hex_digit(d);
    if d < 10 {
        assert(ch as int == d + 48);
    } else {
        assert(ch as int == d + 55);
    }
}

proof fn lemma_hex_reads_back(n: nat)
    ensures
        forall|i: int| 0 <= i < hex(n).len() ==> is_upper_hex(#[trigger] hex(n)[i]),
        hex_number(hex(n)) == n,
        hex(n).len() >= 1,
    decreases n,
{
    if n < 16 {
        lemma_hex_digit_reads_back(n);
        assert(hex(n).drop_last() =~= Seq::<char>::empty());
        assert(hex_number(hex(n)) == hex_number(Seq::<char>::empty()) * 16 + hex_value(hex_digit(n)));
    } else {
        lemma_hex_reads_back(n / 16);
        lemma_hex_digit_reads_back(n % 16);
        assert(hex(n).drop_last() =~= hex(n / 16));
        assert(hex(n).last() == hex_digit(n % 16));
        assert(hex_number(hex(n)) == hex_number(hex(n / 16)) * 16 + hex_value(hex_digit(n % 16)));
        assert((n / 16) * 16 + n % 16 == n);
    }
}

proof fn lemma_leading_zeros_read_as_nothing(k: nat, digits: Seq<char>)
    ensures
        hex_number(Seq::new(k, |i: int| '0') + digits) == hex_number(digits),
    decreases digits.len(), k,
{
    let zeros = Seq::new(k, |i: int| '0');
    if digits.len() == 0 {
        assert(zeros + digits =~= zeros);
        if k > 0 {
            let fewer = Seq::new((k - 1) as nat, |i: int| '0');
            lemma_leading_zeros_read_as_nothing((k - 1) as nat, digits);
            assert(zeros.drop_last() =~= fewer + digits);
        }
    } else {
        lemma_leading_zeros_read_as_nothing(k, digits.drop_last());
        assert((zeros + digits).drop_last() =~= zeros + digits.drop_last());
    }
}

/// A colour's name is `#` and then at least six upper-case hexadecimal
/// digits, `0`-`9` and `A`-`F`, which read back in base 16 give the colour.
pub proof fn lemma_colour_name_reads_back(c: u32)
    ensures
        colour_name(c).len() >= 7,
        colour_name(c)[0] == '#',
        forall|i: int| 1 <= i < colour_name(c).len() ==> is_upper_hex(#[trigger] colour_name(c)[i]),
        hex_number(colour_name(c).drop_first()) == c,
{
    reveal_strlit("#");
    let digits = hex(c as nat);
    lemma_hex_reads_back(c as nat);
    let k: nat = if digits.len() < 6 {
        (6 - digits.len()) as nat
    } else {
        0
    };
    let zeros = Seq::new(k, |i: int| '0');
    let name = colour_name(c);
    assert(name =~= seq!['#'] + zeros + digits);
    assert(name.drop_first() =~= zeros + digits);
    lemma_leading_zeros_read_as_nothing(k, digits);
    assert forall|i: int| 1 <= i < name.len() implies is_upper_hex(#[trigger] name[i]) by {
        if i < 1 + k {
            assert(name[i] == '0');
        } else {
            assert(name[i] == digits[i - 1 - k]);
        }
    }
}

// ---------------------------------------------------------------- tallies

/// How often `k` occurs among `keys`.
pub open spec fn count_text(keys: Seq<Seq<char>>, k: Seq<char>) -> nat
    decreases keys.len(),
{
    if keys.len() == 0 {
        0
    } else {
        count_text(keys.drop_last(), k) + (if keys.last() == k {
            1nat
        } else {
            0nat
        })
    }
}

/// The names of a list of strings.
pub open spec fn texts(keys: Seq<String>) -> Seq<Seq<char>> {
    keys.map_values(|s: String| s@)
}

/// `counts` tallies `keys`: each name among them once, with how often it
/// occurs, and no other name.
pub open spec fn tallies(counts: Seq<(String, usize)>, keys: Seq<Seq<char>>) -> bool {
    &&& forall|i: int, j: int| 0 <= i < j < counts.len() ==> (#[trigger] counts[i]).0@ != (#[trigger] counts[j]).0@
    &&& forall|i: int| 0 <= i < counts.len() ==> {
        &&& keys.contains((#[trigger] counts[i]).0@)
        &&& counts[i].1 == count_text(keys, counts[i].0@)
    }
    &&& forall|k: int| 0 <= k < keys.len() ==> exists|i: int| 0 <= i < counts.len() && (#[trigger] counts[i]).0@ == #[trigger] keys[k]
}

proof fn lemma_count_absent(keys: Seq<Seq<char>>, k: Seq<char>)
    requires
        !keys.contains(k),
    ensures
        count_text(keys, k) == 0,
    decreases keys.len(),
{
    if keys.len() > 0 {
        assert(!keys.drop_last().contains(k)) by {
            if keys.drop_last().contains(k) {
                let j = choose|j: int| 0 <= j < keys.drop_last().len() && keys.drop_last()[j] == k;
                assert(keys[j] == k);
            }
        }
        assert(keys.last() != k) by {
            assert(keys[keys.len() - 1] == keys.last());
        }
        lemma_count_absent(keys.drop_last(), k);
    }
}

/// Tallies `keys`: each distinct name once, with how often it occurs.
pub fn tally(keys: &[String]) -> (r: Vec<(String, usize)>)
    ensures
        tallies(r@, texts(keys@)),
{
    let mut out: Vec<(String, usize)> = Vec::new();
    let mut i: usize = 0;
    while i < keys.len()
        invariant
            i <= keys.len(),
            out.len() <= i,
            tallies(out@, texts(keys@.take(i as int))),
        decreases keys.len() - i,
    {
        let ghost before = texts(keys@.take(i as int));
        let ghost after = texts(keys@.take(i + 1));
        assert(after =~= before.push(keys@[i as int]@));
        assert(after.drop_last() =~= before);
        let key = &keys[i];
        let mut j: usize = 0;
        while j < out.len() && !str_eq(out[j].0.as_str(), key.as_str())
            invariant
                j <= out.len(),
                forall|m: int| 0 <= m < j ==> (#[trigger] out@[m]).0@ != key@,
            decreases out.len() - j,
        {
            j += 1;
        }
        let found = j < out.len();
        let ghost old_out = out@;
        if found {
            let n = out[j].1;
            assert(n == count_text(before, key@));
            assert(count_text(before, key@) <= before.len()) by {
                lemma_count_bound(before, key@);
            }
            let entry = (out[j].0.clone(), n + 1);
            assert(entry.0@ == old_out[j as int].0@);
            out.set(j, entry);
            proof {
                assert forall|a: int| 0 <= a < out@.len() implies {
                    &&& after.contains((#[trigger] out@[a]).0@)
                    &&& out@[a].1 == count_text(after, out@[a].0@)
                } by {
                    assert(before.contains(old_out[a].0@));
                    let w = choose|w: int| 0 <= w < before.len() && before[w] == old_out[a].0@;
                    assert(after[w] == before[w]);
                }
                assert forall|k: int| 0 <= k < after.len() implies exists|a: int|
                    0 <= a < out@.len() && (#[trigger] out@[a]).0@ == #[trigger] after[k] by {
                    if k < before.len() {
                        assert(before[k] == after[k]);
                        let a = choose|a: int| 0 <= a < old_out.len() && (#[trigger] old_out[a]).0@ == before[k];
                        assert(out@[a].0@ == after[k]);
                    } else {
                        assert(out@[j as int].0@ == after[k]);
                    }
                }
            }
        } else {
            proof {
                assert(!before.contains(key@)) by {
                    if before.contains(key@) {
                        let w = choose|w: int| 0 <= w < before.len() && before[w] == key@;
                        let a = choose|a: int| 0 <= a < old_out.len() && (#[trigger] old_out[a]).0@ == before[w];
                        assert(old_out[a].0@ == key@);
                    }
                }
                lemma_count_absent(before, key@);
            }
            out.push((key.clone(), 1));
            proof {
                assert forall|a: int| 0 <= a < out@.len() implies {
                    &&& after.contains((#[trigger] out@[a]).0@)
                    &&& out@[a].1 == count_text(after, out@[a].0@)
                } by {
                    if a < old_out.len() {
                        assert(out@[a] == old_out[a]);
                        assert(before.contains(old_out[a].0@));
                        let w = choose|w: int| 0 <= w < before.len() && before[w] == old_out[a].0@;
                        assert(after[w] == before[w]);
                    } else {
                        assert(after[after.len() - 1] == key@);
                    }
                }
                assert forall|k: int| 0 <= k < after.len() implies exists|a: int|
                    0 <= a < out@.len() && (#[trigger] out@[a]).0@ == #[trigger] after[k] by {
                    if k < before.len() {
                        assert(before[k] == after[k]);
                        let a = choose|a: int| 0 <= a < old_out.len() && (#[trigger] old_out[a]).0@ == before[k];
                        assert(out@[a] == old_out[a]);
                    } else {
                        assert(out@[old_out.len() as int].0@ == after[k]);
                    }
                }
            }
        }
        i += 1;
    }
    assert(keys@.take(keys.len() as int) =~= keys@);
    out
}

proof fn lemma_count_bound(keys: Seq<Seq<char>>, k: Seq<char>)
    ensures
        count_text(keys, k) <= keys.len(),
    decreases keys.len(),
{
    if keys.len() > 0 {
        lemma_count_bound(keys.drop_last(), k);
    }
}


// ---------------------------------------------------------------- schematic libraries

/// The style of a schematic library: its pin lengths and stroke widths
/// summarised, its stroke, fill and text colours tallied by name, and how
/// many of its rectangles are filled and how many are not.
#[derive(Debug)]
pub struct SchLibStyle {
    pub pin_lengths: Option<IntStats>,
    pub line_widths: Option<IntStats>,
    pub line_colors: Vec<(String, usize)>,
    pub fill_colors: Vec<(String, usize)>,
    pub text_colors: Vec<(String, usize)>,
    pub filled_count: usize,
    pub unfilled_count: usize,
}

/// The colour names of a list of colours.
pub open spec fn colour_names(colours: Seq<u32>) -> Seq<Seq<char>> {
    colours.map_values(|c: u32| colour_name(c))
}

/// How many of `flags` are `b`.
pub open spec fn count_flag(flags: Seq<bool>, b: bool) -> nat
    decreases flags.len(),
{
    if flags.len() == 0 {
        0
    } else {
        count_flag(flags.drop_last(), b) + (if flags.last() == b {
            1nat
        } else {
            0nat
        })
    }
}

fn widened_i32(values: &[i32]) -> (r: Vec<i64>)
    ensures
        r@ == values@.map_values(|v: i32| v as i64),
{
    let mut r: Vec<i64> = Vec::new();
    let mut i: usize = 0;
    while i < values.len()
        invariant
            i <= values.len(),
            r@ == values@.take(i as int).map_values(|v: i32| v as i64),
        decreases values.len() - i,
    {
        r.push(values[i] as i64);
        assert(values@.take(i + 1) =~= values@.take(i as int).push(values@[i as int]));
        i += 1;
    }
    assert(values@.take(values.len() as int) =~= values@);
    r
}

fn widened_u8(values: &[u8]) -> (r: Vec<i64>)
    ensures
        r@ == values@.map_values(|v: u8| v as i64),
{
    let mut r: Vec<i64> = Vec::new();
    let mut i: usize = 0;
    while i < values.len()
        invariant
            i <= values.len(),
            r@ == values@.take(i as int).map_values(|v: u8| v as i64),
        decreases values.len() - i,
    {
        r.push(values[i] as i64);
        assert(values@.take(i + 1) =~= values@.take(i as int).push(values@[i as int]));
        i += 1;
    }
    assert(values@.take(values.len() as int) =~= values@);
    r
}

/// Tallies colours by their `#RRGGBB` names.
pub fn colour_tally(colours: &[u32]) -> (r: Vec<(String, usize)>)
    ensures
        tallies(r@, colour_names(colours@)),
{
    let mut names: Vec<String> = Vec::new();
    let mut i: usize = 0;
    while i < colours.len()
        invariant
            i <= colours.len(),
            texts(names@) == colour_names(colours@.take(i as int)),
        decreases colours.len() - i,
    {
        let name = colour_key(colours[i]);
        let ghost old_names = names@;
        let ghost named = name@;
        names.push(name);
        assert(texts(names@) =~= texts(old_names).push(named));
        assert(colours@.take(i + 1) =~= colours@.take(i as int).push(colours@[i as int]));
        assert(colour_names(colours@.take(i + 1)) =~= colour_names(colours@.take(i as int)).push(
            colour_name(colours@[i as int]),
        ));
        i += 1;
    }
    assert(colours@.take(colours.len() as int) =~= colours@);
    tally(names.as_slice())
}

fn flag_counts(flags: &[bool]) -> (r: (usize, usize))
    ensures
        r.0 == count_flag(flags@, true),
        r.1 == count_flag(flags@, false),
        r.0 + r.1 == flags.len(),
{
    let mut on: usize = 0;
    let mut off: usize = 0;
    let mut i: usize = 0;
    while i < flags.len()
        invariant
            i <= flags.len(),
            on == count_flag(flags@.take(i as int), true),
            off == count_flag(flags@.take(i as int), false),
            on + off == i,
        decreases flags.len() - i,
    {
        assert(flags@.take(i + 1).drop_last() =~= flags@.take(i as int));
        if flags[i] {
            on += 1;
        } else {
            off += 1;
        }
        i += 1;
    }
    assert(flags@.take(flags.len() as int) =~= flags@);
    (on, off)
}

impl McpServer {
    /// The style of a schematic library from what its symbols hold: the
    /// length of every pin, the stroke width and the stroke, fill and text
    /// colour of every record that has one, and whether each rectangle is
    /// filled.
    pub fn schlib_style(
        pin_lengths: &[i32],
        line_widths: &[u8],
        line_colors: &[u32],
        fill_colors: &[u32],
        text_colors: &[u32],
        rectangles_filled: &[bool],
    ) -> (r: SchLibStyle)
        ensures
            summarises(r.pin_lengths, pin_lengths@.map_values(|v: i32| v as i64)),
            summarises(r.line_widths, line_widths@.map_values(|v: u8| v as i64)),
            tallies(r.line_colors@, colour_names(line_colors@)),
            tallies(r.fill_colors@, colour_names(fill_colors@)),
            tallies(r.text_colors@, colour_names(text_colors@)),
            r.filled_count == count_flag(rectangles_filled@, true),
            r.unfilled_count == count_flag(rectangles_filled@, false),
    {
        let lengths = widened_i32(pin_lengths);
        let widths = widened_u8(line_widths);
        let (filled_count, unfilled_count) = flag_counts(rectangles_filled);
        SchLibStyle {
            pin_lengths: McpServer::int_stats(lengths.as_slice()),
            line_widths: McpServer::int_stats(widths.as_slice()),
            line_colors: colour_tally(line_colors),
            fill_colors: colour_tally(fill_colors),
            text_colors: colour_tally(text_colors),
            filled_count,
            unfilled_count,
        }
    }
}


impl McpServer {
    /// The more common of the flags in `values`, as [`McpServer::most_common`]
    /// for flags: one that occurs at least as often as the other (which of
    /// the two when they are equally common is not fixed), and `false` (the
    /// default) for an empty list.
    pub fn most_common_flag(values: &[bool]) -> (r: bool)
        ensures
            values.len() == 0 ==> !r,
            values.len() > 0 ==> values@.contains(r),
            count_flag(values@, !r) <= count_flag(values@, r),
    {
        let (on, off) = flag_counts(values);
        proof {
            if values.len() > 0 {
                lemma_flag_present(values@, on > off);
            }
        }
        on > off
    }
}

proof fn lemma_flag_present(flags: Seq<bool>, b: bool)
    requires
        count_flag(flags, b) > 0,
    ensures
        flags.contains(b),
    decreases flags.len(),
{
    if flags.last() == b {
        assert(flags[flags.len() - 1] == b);
    } else {
        lemma_flag_present(flags.drop_last(), b);
        let i = choose|i: int| 0 <= i < flags.drop_last().len() && flags.drop_last()[i] == b;
        assert(flags[i] == b);
    }
}

} // verus!
