//! Character-level helpers shared by every parser of the library: trimming,
//! ASCII case folding, UTF-16 length, decimal rendering and the building of
//! `String`s from pieces, each with the mathematical reading it is held to.
use vstd::prelude::*;
use vstd::string::StringExecFns;

verus! {

// ---------------------------------------------------------------- specs

/// The Unicode `White_Space` property, the set `char::is_whitespace` tests.
pub open spec fn is_white_space(c: char) -> bool {
    let u = c as u32;
    ||| (0x09 <= u && u <= 0x0D)
    ||| u == 0x20
    ||| u == 0x85
    ||| u == 0xA0
    ||| u == 0x1680
    ||| (0x2000 <= u && u <= 0x200A)
    ||| u == 0x2028
    ||| u == 0x2029
    ||| u == 0x202F
    ||| u == 0x205F
    ||| u == 0x3000
}

/// `s` without its leading white space.
pub open spec fn trim_start(s: Seq<char>) -> Seq<char>
    decreases s.len(),
{
    if s.len() > 0 && is_white_space(s[0]) {
        trim_start(s.drop_first())
    } else {
        s
    }
}

/// `s` without its trailing white space.
pub open spec fn trim_end(s: Seq<char>) -> Seq<char>
    decreases s.len(),
{
    if s.len() > 0 && is_white_space(s.last()) {
        trim_end(s.drop_last())
    } else {
        s
    }
}

/// `s` without leading and trailing white space (what `str::trim` gives).
pub open spec fn trim(s: Seq<char>) -> Seq<char> {
    trim_end(trim_start(s))
}

pub open spec fn is_ascii_upper(c: char) -> bool {
    'A' <= c && c <= 'Z'
}

/// The ASCII lower-case form of one character; any other is left alone.
pub open spec fn ascii_lower(c: char) -> char {
    if is_ascii_upper(c) {
        ((c as u32) + 32) as char
    } else {
        c
    }
}

/// The ASCII lower-case form of a string (what `str::to_ascii_lowercase` gives).
pub open spec fn ascii_lowercase(s: Seq<char>) -> Seq<char> {
    s.map_values(|c: char| ascii_lower(c))
}

/// Whether every character of `s` is ASCII.
pub open spec fn all_ascii(s: Seq<char>) -> bool {
    forall|i: int| 0 <= i < s.len() ==> (s[i] as u32) < 128
}

/// The number of UTF-16 code units that encode `s`.
pub open spec fn utf16_len(s: Seq<char>) -> nat
    decreases s.len(),
{
    if s.len() == 0 {
        0
    } else {
        utf16_len(s.drop_last()) + (if (s.last() as u32) >= 0x10000 {
            2nat
        } else {
            1nat
        })
    }
}

/// The decimal digit character for `d < 10`.
pub open spec fn digit_char(d: nat) -> char {
    ((d + 48) as u32) as char
}

/// The decimal representation of a natural number, without leading zeros.
pub open spec fn decimal(n: nat) -> Seq<char>
    decreases n,
{
    if n < 10 {
        seq![digit_char(n)]
    } else {
        decimal(n / 10).push(digit_char(n % 10))
    }
}

/// The decimal representation of an integer, with a leading `-` when negative.
pub open spec fn signed_decimal(n: int) -> Seq<char> {
    if n < 0 {
        seq!['-'] + decimal((-n) as nat)
    } else {
        decimal(n as nat)
    }
}

/// The strings of `items` joined by `sep`.
pub open spec fn join(items: Seq<Seq<char>>, sep: Seq<char>) -> Seq<char>
    decreases items.len(),
{
    if items.len() == 0 {
        Seq::empty()
    } else if items.len() == 1 {
        items[0]
    } else {
        join(items.drop_last(), sep) + sep + items.last()
    }
}

/// The character views of a list of string slices.
pub open spec fn str_views(items: Seq<&str>) -> Seq<Seq<char>> {
    items.map_values(|s: &str| s@)
}

// ---------------------------------------------------------------- trusted std calls

/// `String::push`: appends one character to the string.
#[verifier::external_body]
pub(crate) fn push_char(s: &mut String, c: char)
    ensures
        final(s)@ == old(s)@.push(c),
{
    s.push(c);
}

// ---------------------------------------------------------------- exec helpers

/// The characters of `s`, in order.
pub fn chars_of(s: &str) -> (v: Vec<char>)
    ensures
        v@ == s@,
{
    let mut v: Vec<char> = Vec::new();
    for c in it: s.chars()
        invariant
            v@ == it.seq().take(it.index() as int),
            it.seq() == s@,
    {
        v.push(c);
    }
    v
}

/// A `String` holding the characters of `v`.
pub fn string_of(v: &[char]) -> (s: String)
    ensures
        s@ == v@,
{
    let mut s = String::new();
    let mut i: usize = 0;
    while i < v.len()
        invariant
            i <= v.len(),
            s@ == v@.take(i as int),
        decreases v.len() - i,
    {
        push_char(&mut s, v[i]);
        i += 1;
        assert(v@.take(i as int) =~= v@.take((i - 1) as int).push(v@[i - 1]));
    }
    assert(v@.take(v.len() as int) =~= v@);
    s
}

/// Appends the characters of `v` to `s`.
pub fn push_chars(s: &mut String, v: &[char])
    ensures
        final(s)@ == old(s)@ + v@,
{
    let mut i: usize = 0;
    while i < v.len()
        invariant
            i <= v.len(),
            s@ == old(s)@ + v@.take(i as int),
        decreases v.len() - i,
    {
        push_char(s, v[i]);
        i += 1;
        assert(v@.take(i as int) =~= v@.take((i - 1) as int).push(v@[i - 1]));
    }
    assert(v@.take(v.len() as int) =~= v@);
}

/// Appends `t` to `s`.
pub fn push_str(s: &mut String, t: &str)
    ensures
        final(s)@ == old(s)@ + t@,
{
    s.append(t);
}

/// Whether `c` is white space in the sense of `char::is_whitespace`.
pub fn is_whitespace(c: char) -> (b: bool)
    ensures
        b == is_white_space(c),
{
    let u = c as u32;
    (0x09 <= u && u <= 0x0D) || u == 0x20 || u == 0x85 || u == 0xA0 || u == 0x1680 || (0x2000
        <= u && u <= 0x200A) || u == 0x2028 || u == 0x2029 || u == 0x202F || u == 0x205F || u
        == 0x3000
}

proof fn lemma_trim_start_skip(s: Seq<char>, i: int)
    requires
        0 <= i <= s.len(),
        forall|k: int| 0 <= k < i ==> is_white_space(#[trigger] s[k]),
    ensures
        trim_start(s) == trim_start(s.subrange(i, s.len() as int)),
    decreases i,
{
    if i > 0 {
        assert(s.drop_first() =~= s.subrange(1, s.len() as int));
        let t = s.drop_first();
        assert forall|k: int| 0 <= k < i - 1 implies is_white_space(#[trigger] t[k]) by {
            assert(t[k] == s[k + 1]);
        }
        lemma_trim_start_skip(t, i - 1);
        assert(t.subrange(i - 1, t.len() as int) =~= s.subrange(i, s.len() as int));
    } else {
        assert(s.subrange(0, s.len() as int) =~= s);
    }
}

proof fn lemma_trim_end_cut(s: Seq<char>, j: int)
    requires
        0 <= j <= s.len(),
        forall|k: int| j <= k < s.len() ==> is_white_space(#[trigger] s[k]),
    ensures
        trim_end(s) == trim_end(s.subrange(0, j)),
    decreases s.len() - j,
{
    if j < s.len() {
        let t = s.drop_last();
        assert forall|k: int| j <= k < t.len() implies is_white_space(#[trigger] t[k]) by {
            assert(t[k] == s[k]);
        }
        lemma_trim_end_cut(t, j);
        assert(t.subrange(0, j) =~= s.subrange(0, j));
    } else {
        assert(s.subrange(0, j) =~= s);
    }
}

/// A string of nothing but white space trims away at the front.
proof fn lemma_trim_start_blank(s: Seq<char>)
    requires
        forall|k: int| 0 <= k < s.len() ==> is_white_space(#[trigger] s[k]),
    ensures
        trim_start(s) == Seq::<char>::empty(),
    decreases s.len(),
{
    if s.len() > 0 {
        let t = s.drop_first();
        assert forall|k: int| 0 <= k < t.len() implies is_white_space(#[trigger] t[k]) by {
            assert(t[k] == s[k + 1]);
        }
        lemma_trim_start_blank(t);
    }
}

/// Trimming the front of `s + r` leaves `r` alone once `s` holds a
/// character that is not white space.
proof fn lemma_trim_start_append(s: Seq<char>, r: Seq<char>)
    requires
        exists|k: int| 0 <= k < s.len() && !is_white_space(#[trigger] s[k]),
    ensures
        trim_start(s + r) == trim_start(s) + r,
    decreases s.len(),
{
    if is_white_space(s[0]) {
        let t = s.drop_first();
        let k = choose|k: int| 0 <= k < s.len() && !is_white_space(#[trigger] s[k]);
        assert(k != 0);
        assert(t[k - 1] == s[k]);
        lemma_trim_start_append(t, r);
        assert((s + r).drop_first() =~= t + r);
    }
}

/// White space around `s` does not change what `trim` leaves of it.
pub(crate) proof fn lemma_trim_padded(l: Seq<char>, s: Seq<char>, r: Seq<char>)
    requires
        forall|k: int| 0 <= k < l.len() ==> is_white_space(#[trigger] l[k]),
        forall|k: int| 0 <= k < r.len() ==> is_white_space(#[trigger] r[k]),
    ensures
        trim(l + s + r) == trim(s),
{
    let whole = l + s + r;
    assert forall|k: int| 0 <= k < l.len() implies is_white_space(#[trigger] whole[k]) by {
        assert(whole[k] == l[k]);
    }
    lemma_trim_start_skip(whole, l.len() as int);
    assert(whole.subrange(l.len() as int, whole.len() as int) =~= s + r);
    if exists|k: int| 0 <= k < s.len() && !is_white_space(#[trigger] s[k]) {
        lemma_trim_start_append(s, r);
        let front = trim_start(s);
        let padded = front + r;
        assert forall|k: int| front.len() <= k < padded.len() implies is_white_space(
            #[trigger] padded[k],
        ) by {
            assert(padded[k] == r[k - front.len()]);
        }
        lemma_trim_end_cut(padded, front.len() as int);
        assert(padded.subrange(0, front.len() as int) =~= front);
    } else {
        let sr = s + r;
        assert forall|k: int| 0 <= k < sr.len() implies is_white_space(#[trigger] sr[k]) by {
            if k < s.len() {
                assert(sr[k] == s[k]);
            } else {
                assert(sr[k] == r[k - s.len()]);
            }
        }
        lemma_trim_start_blank(sr);
        lemma_trim_start_blank(s);
    }
}

/// Lower-casing in ASCII leaves white space alone and makes none.
proof fn lemma_ascii_lower_white_space(c: char)
    ensures
        is_white_space(ascii_lower(c)) == is_white_space(c),
{
}

/// Trimming and ASCII lower-casing can be done in either order.
pub(crate) proof fn lemma_trim_ascii_lowercase(s: Seq<char>)
    ensures
        trim(ascii_lowercase(s)) == ascii_lowercase(trim(s)),
{
    lemma_trim_start_lowercase(s);
    lemma_trim_end_lowercase(trim_start(s));
}

proof fn lemma_trim_start_lowercase(s: Seq<char>)
    ensures
        trim_start(ascii_lowercase(s)) == ascii_lowercase(trim_start(s)),
    decreases s.len(),
{
    let m = ascii_lowercase(s);
    if s.len() > 0 {
        lemma_ascii_lower_white_space(s[0]);
        assert(m[0] == ascii_lower(s[0]));
        if is_white_space(s[0]) {
            assert(m.drop_first() =~= ascii_lowercase(s.drop_first()));
            lemma_trim_start_lowercase(s.drop_first());
        }
    }
}

proof fn lemma_trim_end_lowercase(s: Seq<char>)
    ensures
        trim_end(ascii_lowercase(s)) == ascii_lowercase(trim_end(s)),
    decreases s.len(),
{
    let m = ascii_lowercase(s);
    if s.len() > 0 {
        lemma_ascii_lower_white_space(s.last());
        assert(m.last() == ascii_lower(s.last()));
        if is_white_space(s.last()) {
            assert(m.drop_last() =~= ascii_lowercase(s.drop_last()));
            lemma_trim_end_lowercase(s.drop_last());
        }
    }
}

/// The bounds `(i, j)` of `v` with its surrounding white space removed:
/// `v[i..j]` is what `str::trim` leaves.
pub fn trim_bounds(v: &[char]) -> (r: (usize, usize))
    ensures
        r.0 <= r.1 <= v.len(),
        v@.subrange(r.0 as int, r.1 as int) == trim(v@),
{
    let mut i: usize = 0;
    while i < v.len() && is_whitespace(v[i])
        invariant
            i <= v.len(),
            forall|k: int| 0 <= k < i ==> is_white_space(#[trigger] v@[k]),
        decreases v.len() - i,
    {
        i += 1;
    }
    proof {
        lemma_trim_start_skip(v@, i as int);
    }
    let ghost rest = v@.subrange(i as int, v@.len() as int);
    assert(trim_start(rest) == rest);
    let mut j: usize = v.len();
    while j > i && is_whitespace(v[j - 1])
        invariant
            i <= j <= v.len(),
            rest == v@.subrange(i as int, v@.len() as int),
            forall|k: int| j - i <= k < rest.len() ==> is_white_space(#[trigger] rest[k]),
        decreases j,
    {
        j -= 1;
    }
    proof {
        lemma_trim_end_cut(rest, j - i);
        assert(rest.subrange(0, j - i) =~= v@.subrange(i as int, j as int));
        let t = v@.subrange(i as int, j as int);
        if t.len() > 0 {
            assert(t.last() == v@[j - 1]);
        }
    }
    (i, j)
}

/// The ASCII lower-case form of one character.
pub fn to_ascii_lower(c: char) -> (r: char)
    ensures
        r == ascii_lower(c),
{
    if 'A' <= c && c <= 'Z' {
        ((c as u8) + 32) as char
    } else {
        c
    }
}

/// The ASCII lower-case form of `v[from..to]`.
pub fn ascii_lowercase_range(v: &[char], from: usize, to: usize) -> (r: Vec<char>)
    requires
        from <= to <= v.len(),
    ensures
        r@ == ascii_lowercase(v@.subrange(from as int, to as int)),
{
    let mut r: Vec<char> = Vec::new();
    let mut i = from;
    while i < to
        invariant
            from <= i <= to <= v.len(),
            r@ == ascii_lowercase(v@.subrange(from as int, i as int)),
        decreases to - i,
    {
        r.push(to_ascii_lower(v[i]));
        i += 1;
        assert(ascii_lowercase(v@.subrange(from as int, i as int)) =~= ascii_lowercase(
            v@.subrange(from as int, (i - 1) as int),
        ).push(ascii_lower(v@[i - 1])));
    }
    r
}

/// Whether two character sequences are equal.
pub fn chars_eq(a: &[char], b: &[char]) -> (r: bool)
    ensures
        r == (a@ == b@),
{
    if a.len() != b.len() {
        return false;
    }
    let mut i: usize = 0;
    while i < a.len()
        invariant
            a.len() == b.len(),
            i <= a.len(),
            forall|k: int| 0 <= k < i ==> a@[k] == b@[k],
        decreases a.len() - i,
    {
        if a[i] != b[i] {
            return false;
        }
        i += 1;
    }
    assert(a@ =~= b@);
    true
}

/// Whether `v` spells `s`.
pub fn chars_eq_str(v: &[char], s: &str) -> (r: bool)
    ensures
        r == (v@ == s@),
{
    let w = chars_of(s);
    chars_eq(v, w.as_slice())
}

/// Whether `v` spells one of `names`.
pub fn chars_in(v: &[char], names: &[&str]) -> (r: bool)
    ensures
        r == str_views(names@).contains(v@),
{
    let mut i: usize = 0;
    while i < names.len()
        invariant
            i <= names.len(),
            forall|k: int| 0 <= k < i ==> names@[k]@ != v@,
        decreases names.len() - i,
    {
        if chars_eq_str(v, names[i]) {
            assert(str_views(names@)[i as int] == v@);
            return true;
        }
        i += 1;
    }
    assert forall|k: int| 0 <= k < str_views(names@).len() implies str_views(names@)[k] != v@ by {
        assert(str_views(names@)[k] == names@[k]@);
    }
    false
}

/// Whether two strings are equal.
pub fn str_eq(a: &str, b: &str) -> (r: bool)
    ensures
        r == (a@ == b@),
{
    let v = chars_of(a);
    chars_eq_str(v.as_slice(), b)
}

/// The number of UTF-16 code units that encode `s`.
pub fn utf16_units(s: &str) -> (n: usize)
    requires
        s@.len() <= usize::MAX / 2,
    ensures
        n == utf16_len(s@),
{
    let v = chars_of(s);
    let mut n: usize = 0;
    let mut i: usize = 0;
    while i < v.len()
        invariant
            i <= v.len(),
            v@ == s@,
            v.len() <= usize::MAX / 2,
            n == utf16_len(v@.take(i as int)),
            n <= 2 * i,
        decreases v.len() - i,
    {
        assert(v@.take((i + 1) as int).drop_last() =~= v@.take(i as int));
        if (v[i] as u32) >= 0x10000 {
            n += 2;
        } else {
            n += 1;
        }
        i += 1;
    }
    assert(v@.take(v.len() as int) =~= v@);
    n
}

/// The decimal text of `n`.
pub fn u64_text(n: u64) -> (s: String)
    ensures
        s@ == decimal(n as nat),
{
    // Collect the digits least significant first, then emit them reversed.
    let mut digits: Vec<char> = Vec::new();
    let mut m: u64 = n;
    let ghost mut tail: Seq<char> = Seq::empty();
    while m >= 10
        invariant
            decimal(n as nat) == decimal(m as nat) + tail,
            digits@.len() == tail.len(),
            forall|k: int|
                0 <= k < tail.len() ==> #[trigger] digits@[k] == tail[tail.len() - 1 - k],
        decreases m,
    {
        let d = (((m % 10) as u32) + 48) as u8 as char;
        proof {
            assert(d == digit_char((m % 10) as nat));
            assert(decimal(m as nat) == decimal((m / 10) as nat).push(d));
        }
        digits.push(d);
        proof {
            let old_tail = tail;
            tail = seq![d] + tail;
            assert(decimal(n as nat) =~= decimal((m / 10) as nat) + tail);
            assert forall|k: int| 0 <= k < tail.len() implies #[trigger] digits@[k] == tail[tail.len() - 1 - k] by {
                if k < tail.len() - 1 {
                    assert(tail[tail.len() - 1 - k] == old_tail[old_tail.len() - 1 - k]);
                }
            }
        }
        m = m / 10;
    }
    let d = ((m as u32) + 48) as u8 as char;
    assert(d == digit_char(m as nat));
    digits.push(d);
    proof {
        let old_tail = tail;
        tail = seq![d] + tail;
        assert(decimal(m as nat) == seq![d]);
        assert(decimal(n as nat) =~= tail);
        assert forall|k: int| 0 <= k < tail.len() implies #[trigger] digits@[k] == tail[tail.len() - 1 - k] by {
            if k < tail.len() - 1 {
                assert(tail[tail.len() - 1 - k] == old_tail[old_tail.len() - 1 - k]);
            }
        }
    }
    let mut s = String::new();
    let mut i: usize = digits.len();
    while i > 0
        invariant
            i <= digits.len(),
            digits@.len() == tail.len(),
            decimal(n as nat) == tail,
            forall|k: int|
                0 <= k < tail.len() ==> #[trigger] digits@[k] == tail[tail.len() - 1 - k],
            s@ == tail.take(digits.len() - i),
        decreases i,
    {
        i -= 1;
        push_char(&mut s, digits[i]);
        proof {
            let k = digits.len() - 1 - i;
            assert(digits@[i as int] == tail[k]);
            assert(tail.take(k + 1) =~= tail.take(k).push(tail[k]));
        }
    }
    assert(tail.take(digits.len() as int) =~= tail);
    s
}

/// The decimal text of `n`, with a leading `-` when it is negative.
pub fn i64_text(n: i64) -> (s: String)
    ensures
        s@ == signed_decimal(n as int),
{
    if n < 0 {
        let m: u64 = if n == i64::MIN {
            9223372036854775808u64
        } else {
            (-n) as u64
        };
        let mut s = String::new();
        push_char(&mut s, '-');
        let digits = u64_text(m);
        push_str(&mut s, digits.as_str());
        assert(s@ =~= seq!['-'] + decimal((-n) as nat));
        s
    } else {
        u64_text(n as u64)
    }
}

/// The strings of `items` joined by `sep`.
pub fn join_strs(items: &[&str], sep: &str) -> (s: String)
    ensures
        s@ == join(str_views(items@), sep@),
{
    let mut s = String::new();
    let mut i: usize = 0;
    while i < items.len()
        invariant
            i <= items.len(),
            s@ == join(str_views(items@).take(i as int), sep@),
        decreases items.len() - i,
    {
        let ghost before = str_views(items@).take(i as int);
        if i > 0 {
            push_str(&mut s, sep);
        }
        push_str(&mut s, items[i]);
        proof {
            let after = str_views(items@).take((i + 1) as int);
            assert(after.drop_last() =~= before);
            assert(after.last() == items@[i as int]@);
            if i == 0 {
                assert(s@ =~= join(after, sep@));
            }
        }
        i += 1;
    }
    assert(str_views(items@).take(items.len() as int) =~= str_views(items@));
    s
}

} // verus!
