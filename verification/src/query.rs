//! Search, lookup and update helpers: the library type a path names, the
//! glob-to-regex translation and name search, the dry-run change preview of
//! an update, and the per-name existence summary.
use vstd::prelude::*;
use crate::McpServer;
use crate::fields::opt_view;
use crate::text::{chars_eq_str, chars_of, decimal, push_char, push_str, u64_text};
use crate::vocab::{lowercase_of_str, str_lowercase};

verus! {

// ---------------------------------------------------------------- library kinds

/// The kinds of file the tools read and write.
#[derive(PartialEq, Eq, Structural, Clone, Copy, Debug)]
pub enum LibraryKind {
    PcbLib,
    SchLib,
    LibPkg,
}

/// The extension `std::path::Path::extension` finds in `path` (the part of
/// the file name after its last `.`), as text.
pub uninterp spec fn file_extension(path: Seq<char>) -> Option<Seq<char>>;

/// `Path::new(path).extension()`, as a string. The claim is only that the
/// answer is the named function of the path.
#[verifier::external_body]
fn path_extension(path: &str) -> (r: Option<String>)
    ensures
        opt_view(r) == file_extension(path@),
{
    std::path::Path::new(path).extension().and_then(|e| e.to_str()).map(|e| e.to_string())
}

/// The library kind a lower-cased extension names.
pub open spec fn kind_of_extension(ext: Seq<char>) -> Option<LibraryKind> {
    if ext == "pcblib"@ {
        Some(LibraryKind::PcbLib)
    } else if ext == "schlib"@ {
        Some(LibraryKind::SchLib)
    } else if ext == "libpkg"@ {
        Some(LibraryKind::LibPkg)
    } else {
        None
    }
}

/// What `library_kind` gives for a path.
pub open spec fn library_kind_of(path: Seq<char>) -> Option<LibraryKind> {
    match file_extension(path) {
        Some(ext) => kind_of_extension(str_lowercase(ext)),
        None => None,
    }
}

/// The kind of library a path names, by its extension in any case
/// (`.PcbLib`, `.SchLib`, `.LibPkg`); `None` for any other file.
pub fn library_kind(filepath: &str) -> (r: Option<LibraryKind>)
    ensures
        r == library_kind_of(filepath@),
{
    let ext = match path_extension(filepath) {
        Some(e) => e,
        None => return None,
    };
    let lower = lowercase_of_str(ext.as_str());
    let v = chars_of(lower.as_str());
    if chars_eq_str(v.as_slice(), "pcblib") {
        Some(LibraryKind::PcbLib)
    } else if chars_eq_str(v.as_slice(), "schlib") {
        Some(LibraryKind::SchLib)
    } else if chars_eq_str(v.as_slice(), "libpkg") {
        Some(LibraryKind::LibPkg)
    } else {
        None
    }
}

// ---------------------------------------------------------------- glob patterns

/// Whether a glob character is a regex metacharacter to escape.
pub open spec fn is_regex_meta(c: char) -> bool {
    c == '.' || c == '+' || c == '^' || c == '$' || c == '(' || c == ')' || c == '[' || c == ']'
        || c == '{' || c == '}' || c == '|' || c == '\\'
}

/// The regex text one glob character stands for.
pub open spec fn glob_char_regex(c: char) -> Seq<char> {
    if c == '*' {
        seq!['.', '*']
    } else if c == '?' {
        seq!['.']
    } else if is_regex_meta(c) {
        seq!['\\', c]
    } else {
        seq![c]
    }
}

/// The regex text a glob stands for: `*` any run, `?` any one character,
/// every regex metacharacter escaped, everything else itself.
pub open spec fn glob_regex(glob: Seq<char>) -> Seq<char>
    decreases glob.len(),
{
    if glob.len() == 0 {
        Seq::empty()
    } else {
        glob_regex(glob.drop_last()) + glob_char_regex(glob.last())
    }
}

/// A glob translates piece by piece: the pattern of two globs written one
/// after the other is their two patterns one after the other.
pub proof fn lemma_glob_regex_concat(a: Seq<char>, b: Seq<char>)
    ensures
        glob_regex(a + b) == glob_regex(a) + glob_regex(b),
    decreases b.len(),
{
    if b.len() == 0 {
        assert(a + b =~= a);
        assert(glob_regex(a) + glob_regex(b) =~= glob_regex(a));
    } else {
        assert((a + b).drop_last() =~= a + b.drop_last());
        assert((a + b).last() == b.last());
        lemma_glob_regex_concat(a, b.drop_last());
        assert(glob_regex(a) + glob_regex(b.drop_last()) + glob_char_regex(b.last()) =~= glob_regex(
            a,
        ) + (glob_regex(b.drop_last()) + glob_char_regex(b.last())));
    }
}

/// A glob with no wildcard and no regex metacharacter is its own pattern.
pub proof fn lemma_plain_glob_is_literal(glob: Seq<char>)
    requires
        forall|i: int|
            0 <= i < glob.len() ==> #[trigger] glob[i] != '*' && glob[i] != '?' && !is_regex_meta(
                glob[i],
            ),
    ensures
        glob_regex(glob) == glob,
    decreases glob.len(),
{
    if glob.len() > 0 {
        let rest = glob.drop_last();
        assert forall|i: int| 0 <= i < rest.len() implies #[trigger] rest[i] != '*' && rest[i]
            != '?' && !is_regex_meta(rest[i]) by {
            assert(rest[i] == glob[i]);
        }
        lemma_plain_glob_is_literal(rest);
        assert(glob.last() == glob[glob.len() - 1]);
        assert(rest.push(glob.last()) =~= glob);
    }
}

impl McpServer {
    /// Converts a glob pattern to a regex pattern.
    pub fn glob_to_regex(glob: &str) -> (r: String)
        ensures
            r@ == glob_regex(glob@),
    {
        let v = chars_of(glob);
        let mut r = String::new();
        let mut i: usize = 0;
        while i < v.len()
            invariant
                i <= v.len(),
                v@ == glob@,
                r@ == glob_regex(v@.take(i as int)),
            decreases v.len() - i,
        {
            assert(v@.take((i + 1) as int).drop_last() =~= v@.take(i as int));
            let c = v[i];
            let ghost before = r@;
            if c == '*' {
                push_char(&mut r, '.');
                push_char(&mut r, '*');
            } else if c == '?' {
                push_char(&mut r, '.');
            } else if c == '.' || c == '+' || c == '^' || c == '$' || c == '(' || c == ')' || c == '['
                || c == ']' || c == '{' || c == '}' || c == '|' || c == '\\' {
                push_char(&mut r, '\\');
                push_char(&mut r, c);
            } else {
                push_char(&mut r, c);
            }
            assert(r@ =~= before + glob_char_regex(c));
            i += 1;
        }
        assert(v@.take(v.len() as int) =~= v@);
        r
    }
}

// ---------------------------------------------------------------- name search

/// The error text `regex::Regex::new` gives for `pattern`, or `None` where
/// it compiles.
pub uninterp spec fn regex_compile_error(pattern: Seq<char>) -> Option<Seq<char>>;

/// Whether the regex compiled from `pattern` matches somewhere in `text`
/// (`regex::Regex::is_match`).
pub uninterp spec fn regex_matches(pattern: Seq<char>, text: Seq<char>) -> bool;

#[verifier::external_type_specification]
#[verifier::external_body]
pub struct ExRegex(regex::Regex);

/// A compiled search pattern together with the regex text it was compiled
/// from. Only [`compile_regex`] builds one.
pub struct NamePattern {
    regex: regex::Regex,
    source: String,
}

impl NamePattern {
    /// The regex text the pattern was compiled from.
    pub closed spec fn source(&self) -> Seq<char> {
        self.source@
    }
}

/// `regex::Regex::new(source)`, its error rendered as text. The claim: it
/// succeeds exactly where the named compile error is absent, and the
/// pattern it builds records `source`.
#[verifier::external_body]
fn compile_regex(source: &str) -> (r: Result<NamePattern, String>)
    ensures
        r matches Ok(p) ==> regex_compile_error(source@) is None && p.source() == source@,
        r matches Err(e) ==> regex_compile_error(source@) == Some(e@),
{
    match regex::Regex::new(source) {
        Ok(regex) => Ok(NamePattern { regex, source: source.to_string() }),
        Err(e) => Err(e.to_string()),
    }
}

/// `regex::Regex::is_match`. The claim: the answer is the named match of
/// the pattern's source text against `text`.
#[verifier::external_body]
fn regex_is_match(pattern: &NamePattern, text: &str) -> (r: bool)
    ensures
        r == regex_matches(pattern.source(), text@),
{
    pattern.regex.is_match(text)
}

/// The regex text a search runs: `(?i)^…$` around the pattern, a glob
/// translated first.
pub open spec fn search_source(pattern: Seq<char>, glob: bool) -> Seq<char> {
    "(?i)^"@ + (if glob {
        glob_regex(pattern)
    } else {
        pattern
    }) + "$"@
}

/// What `search_regex_source` gives.
pub open spec fn search_regex_result(pattern: Seq<char>, pattern_type: Seq<char>) -> Result<Seq<char>, Seq<char>> {
    if pattern_type == "glob"@ {
        Ok(search_source(pattern, true))
    } else if pattern_type == "regex"@ {
        Ok(search_source(pattern, false))
    } else {
        Err("pattern_type must be one of: 'glob', 'regex'"@)
    }
}

/// The case-insensitive, whole-name regex a search with `pattern` of
/// `pattern_type` (`glob` or `regex`) runs; any other type is refused.
pub fn search_regex_source(pattern: &str, pattern_type: &str) -> (r: Result<String, String>)
    ensures
        (match r {
            Ok(s) => Ok(s@),
            Err(e) => Err(e@),
        }) == search_regex_result(pattern@, pattern_type@),
{
    let t = chars_of(pattern_type);
    let glob = if chars_eq_str(t.as_slice(), "glob") {
        true
    } else if chars_eq_str(t.as_slice(), "regex") {
        false
    } else {
        return Err("pattern_type must be one of: 'glob', 'regex'".to_string());
    };
    let mut s = String::new();
    push_str(&mut s, "(?i)^");
    if glob {
        let g = McpServer::glob_to_regex(pattern);
        push_str(&mut s, g.as_str());
    } else {
        push_str(&mut s, pattern);
    }
    push_str(&mut s, "$");
    Ok(s)
}

/// Compiles a search regex; a pattern the regex crate refuses is reported
/// as `Invalid pattern: ` and its reason.
pub fn compile_search_pattern(source: &str) -> (r: Result<NamePattern, String>)
    ensures
        r matches Ok(p) ==> regex_compile_error(source@) is None && p.source() == source@,
        r matches Err(e) ==> regex_compile_error(source@) is Some && e@ == "Invalid pattern: "@
            + regex_compile_error(source@)->0,
{
    match compile_regex(source) {
        Ok(p) => Ok(p),
        Err(reason) => {
            let mut e = String::new();
            push_str(&mut e, "Invalid pattern: ");
            push_str(&mut e, reason.as_str());
            Err(e)
        },
    }
}

/// The names `pattern` matches, in order.
pub open spec fn matching(pattern: Seq<char>, names: Seq<Seq<char>>) -> Seq<Seq<char>>
    decreases names.len(),
{
    if names.len() == 0 {
        Seq::empty()
    } else if regex_matches(pattern, names.last()) {
        matching(pattern, names.drop_last()).push(names.last())
    } else {
        matching(pattern, names.drop_last())
    }
}

/// The views of a list of strings.
pub open spec fn names_view(names: Seq<String>) -> Seq<Seq<char>> {
    names.map_values(|s: String| s@)
}

/// The component names `pattern` matches, in library order.
pub fn matching_names(pattern: &NamePattern, names: &[String]) -> (r: Vec<String>)
    ensures
        names_view(r@) == matching(pattern.source(), names_view(names@)),
{
    let mut out: Vec<String> = Vec::new();
    let mut i: usize = 0;
    while i < names.len()
        invariant
            i <= names.len(),
            names_view(out@) == matching(pattern.source(), names_view(names@).take(i as int)),
        decreases names.len() - i,
    {
        assert(names_view(names@).take((i + 1) as int).drop_last() =~= names_view(names@).take(
            i as int,
        ));
        assert(names_view(names@).take((i + 1) as int).last() == names@[i as int]@);
        if regex_is_match(pattern, names[i].as_str()) {
            out.push(names[i].clone());
            assert(names_view(out@) =~= matching(
                pattern.source(),
                names_view(names@).take(i as int),
            ).push(names@[i as int]@));
        }
        i += 1;
    }
    assert(names_view(names@).take(names.len() as int) =~= names_view(names@));
    out
}

// ---------------------------------------------------------------- dry-run previews

/// What a footprint's preview compares: its description and its count of
/// each primitive kind, in the kind order the caller lists.
pub struct FootprintSummary {
    pub description: String,
    pub counts: Vec<usize>,
}

/// What a symbol's preview compares.
pub struct SymbolSummary {
    pub description: String,
    pub designator: String,
    pub part_count: u32,
    /// The count of each record kind, in the kind order the caller lists.
    pub counts: Vec<usize>,
    pub footprint_count: usize,
}

/// The line for a changed description.
pub open spec fn quoted_change(label: Seq<char>, old: Seq<char>, new: Seq<char>) -> Seq<char> {
    label + ": '"@ + old + "' -> '"@ + new + "'"@
}

/// The line for a changed count.
pub open spec fn count_change(label: Seq<char>, old: nat, new: nat) -> Seq<char> {
    label + ": "@ + decimal(old) + " -> "@ + decimal(new)
}

/// One line per kind whose count differs, in kind order.
pub open spec fn count_changes(kinds: Seq<Seq<char>>, old: Seq<usize>, new: Seq<usize>) -> Seq<Seq<char>>
    decreases kinds.len(),
{
    if kinds.len() == 0 {
        Seq::empty()
    } else {
        let i = kinds.len() - 1;
        let rest = count_changes(kinds.drop_last(), old, new);
        if old[i] != new[i] {
            rest.push(count_change(kinds[i] + "_count"@, old[i] as nat, new[i] as nat))
        } else {
            rest
        }
    }
}

/// The preview, with the line that stands for no change at all.
pub open spec fn or_no_change(changes: Seq<Seq<char>>) -> Seq<Seq<char>> {
    if changes.len() == 0 {
        seq!["no structural changes detected"@]
    } else {
        changes
    }
}

/// The changes an update of a footprint would make.
pub open spec fn footprint_preview(kinds: Seq<Seq<char>>, old: Option<FootprintSummary>, new: FootprintSummary) -> Seq<Seq<char>> {
    or_no_change(
        match old {
            Some(o) => (if o.description@ != new.description@ {
                seq![quoted_change("description"@, o.description@, new.description@)]
            } else {
                Seq::empty()
            }) + count_changes(kinds, o.counts@, new.counts@),
            None => seq!["component will be created"@],
        },
    )
}

/// The changes an update of a symbol would make.
pub open spec fn symbol_preview(kinds: Seq<Seq<char>>, old: Option<SymbolSummary>, new: SymbolSummary) -> Seq<Seq<char>> {
    or_no_change(
        match old {
            Some(o) => (if o.description@ != new.description@ {
                seq![quoted_change("description"@, o.description@, new.description@)]
            } else {
                Seq::empty()
            }) + (if o.designator@ != new.designator@ {
                seq![quoted_change("designator"@, o.designator@, new.designator@)]
            } else {
                Seq::empty()
            }) + (if o.part_count != new.part_count {
                seq![count_change("part_count"@, o.part_count as nat, new.part_count as nat)]
            } else {
                Seq::empty()
            }) + count_changes(kinds, o.counts@, new.counts@) + (if o.footprint_count
                != new.footprint_count {
                seq![
                    count_change(
                        "footprint_count"@,
                        o.footprint_count as nat,
                        new.footprint_count as nat,
                    ),
                ]
            } else {
                Seq::empty()
            }),
            None => seq!["component will be created"@],
        },
    )
}

fn quoted_change_line(label: &str, old: &str, new: &str) -> (r: String)
    ensures
        r@ == quoted_change(label@, old@, new@),
{
    let mut s = String::new();
    push_str(&mut s, label);
    push_str(&mut s, ": '");
    push_str(&mut s, old);
    push_str(&mut s, "' -> '");
    push_str(&mut s, new);
    push_str(&mut s, "'");
    s
}

fn count_change_line(label: &str, old: u64, new: u64) -> (r: String)
    ensures
        r@ == count_change(label@, old as nat, new as nat),
{
    let mut s = String::new();
    push_str(&mut s, label);
    push_str(&mut s, ": ");
    let a = u64_text(old);
    push_str(&mut s, a.as_str());
    push_str(&mut s, " -> ");
    let b = u64_text(new);
    push_str(&mut s, b.as_str());
    s
}

/// Appends a line for every kind whose count differs.
fn push_count_changes(changes: &mut Vec<String>, kinds: &[&str], before: &[usize], after: &[usize])
    requires
        before.len() == kinds.len(),
        after.len() == kinds.len(),
    ensures
        names_view(final(changes)@) == names_view(old(changes)@) + count_changes(
            crate::text::str_views(kinds@),
            before@,
            after@,
        ),
{
    let ghost start = names_view(changes@);
    let mut i: usize = 0;
    while i < kinds.len()
        invariant
            i <= kinds.len(),
            before.len() == kinds.len(),
            after.len() == kinds.len(),
            names_view(changes@) == start + count_changes(
                crate::text::str_views(kinds@).take(i as int),
                before@,
                after@,
            ),
        decreases kinds.len() - i,
    {
        let ghost views = crate::text::str_views(kinds@).take((i + 1) as int);
        assert(views.drop_last() =~= crate::text::str_views(kinds@).take(i as int));
        assert(views[i as int] == kinds@[i as int]@);
        assert(count_changes(views, before@, after@) == (if before@[i as int] != after@[i as int] {
            count_changes(views.drop_last(), before@, after@).push(
                count_change(views[i as int] + "_count"@, before@[i as int] as nat, after@[i as int] as nat),
            )
        } else {
            count_changes(views.drop_last(), before@, after@)
        }));
        if before[i] != after[i] {
            let mut label = String::new();
            push_str(&mut label, kinds[i]);
            push_str(&mut label, "_count");
            let line = count_change_line(label.as_str(), before[i] as u64, after[i] as u64);
            let ghost lv = line@;
            assert(label@ =~= views[i as int] + "_count"@);
            assert(lv == count_change(views[i as int] + "_count"@, before@[i as int] as nat, after@[i as int] as nat));
            let ghost pre = changes@;
            changes.push(line);
            assert(changes@ == pre.push(line));
            assert(names_view(changes@) =~= names_view(pre).push(lv));
        }
        assert(names_view(changes@) =~= start + count_changes(views, before@, after@));
        i += 1;
    }
    assert(crate::text::str_views(kinds@).take(kinds.len() as int) =~= crate::text::str_views(
        kinds@,
    ));
}

fn finish_preview(changes: Vec<String>) -> (r: Vec<String>)
    ensures
        names_view(r@) == or_no_change(names_view(changes@)),
{
    if changes.len() == 0 {
        let mut r: Vec<String> = Vec::new();
        r.push("no structural changes detected".to_string());
        assert(names_view(r@) =~= seq!["no structural changes detected"@]);
        r
    } else {
        changes
    }
}

impl McpServer {
    /// Compares two footprints for a dry-run preview: a changed description,
    /// each primitive kind (of `kinds`) whose count changed, or that the
    /// component will be created; "no structural changes detected" when
    /// nothing differs.
    pub fn preview_footprint_changes(kinds: &[&str], old: Option<&FootprintSummary>, new: &FootprintSummary) -> (r: Vec<String>)
        requires
            new.counts.len() == kinds.len(),
            old matches Some(o) ==> o.counts.len() == kinds.len(),
        ensures
            names_view(r@) == footprint_preview(
                crate::text::str_views(kinds@),
                match old {
                    Some(o) => Some(*o),
                    None => None,
                },
                *new,
            ),
    {
        let mut changes: Vec<String> = Vec::new();
        match old {
            Some(o) => {
                let same = chars_eq_str(
                    chars_of(o.description.as_str()).as_slice(),
                    new.description.as_str(),
                );
                if !same {
                    changes.push(
                        quoted_change_line(
                            "description",
                            o.description.as_str(),
                            new.description.as_str(),
                        ),
                    );
                }
                assert(names_view(changes@) =~= (if o.description@ != new.description@ {
                    seq![quoted_change("description"@, o.description@, new.description@)]
                } else {
                    Seq::empty()
                }));
                push_count_changes(&mut changes, kinds, o.counts.as_slice(), new.counts.as_slice());
            },
            None => {
                changes.push("component will be created".to_string());
                assert(names_view(changes@) =~= seq!["component will be created"@]);
            },
        }
        finish_preview(changes)
    }
}

impl McpServer {
    /// Compares two symbols for a dry-run preview: description, designator,
    /// part count, the count of each record kind (of `kinds`) and the number
    /// of footprint links, or that the component will be created; "no
    /// structural changes detected" when nothing differs.
    pub fn preview_symbol_changes(kinds: &[&str], old: Option<&SymbolSummary>, new: &SymbolSummary) -> (r: Vec<String>)
        requires
            new.counts.len() == kinds.len(),
            old matches Some(o) ==> o.counts.len() == kinds.len(),
        ensures
            names_view(r@) == symbol_preview(
                crate::text::str_views(kinds@),
                match old {
                    Some(o) => Some(*o),
                    None => None,
                },
                *new,
            ),
    {
        let mut changes: Vec<String> = Vec::new();
        match old {
            Some(o) => {
                let ghost s0 = names_view(changes@);
                if !chars_eq_str(chars_of(o.description.as_str()).as_slice(), new.description.as_str()) {
                    changes.push(
                        quoted_change_line(
                            "description",
                            o.description.as_str(),
                            new.description.as_str(),
                        ),
                    );
                }
                let ghost d1 = (if o.description@ != new.description@ {
                    seq![quoted_change("description"@, o.description@, new.description@)]
                } else {
                    Seq::empty()
                });
                assert(names_view(changes@) =~= d1);
                if !chars_eq_str(chars_of(o.designator.as_str()).as_slice(), new.designator.as_str()) {
                    let line = quoted_change_line(
                        "designator",
                        o.designator.as_str(),
                        new.designator.as_str(),
                    );
                    let ghost lv = line@;
                    changes.push(line);
                    assert(names_view(changes@) =~= names_view(changes@.drop_last()).push(lv));
                }
                let ghost d2 = d1 + (if o.designator@ != new.designator@ {
                    seq![quoted_change("designator"@, o.designator@, new.designator@)]
                } else {
                    Seq::empty()
                });
                assert(names_view(changes@) =~= d2);
                if o.part_count != new.part_count {
                    let line = count_change_line("part_count", o.part_count as u64, new.part_count as u64);
                    let ghost lv = line@;
                    changes.push(line);
                    assert(names_view(changes@) =~= names_view(changes@.drop_last()).push(lv));
                }
                let ghost d3 = d2 + (if o.part_count != new.part_count {
                    seq![count_change("part_count"@, o.part_count as nat, new.part_count as nat)]
                } else {
                    Seq::empty()
                });
                assert(names_view(changes@) =~= d3);
                push_count_changes(&mut changes, kinds, o.counts.as_slice(), new.counts.as_slice());
                if o.footprint_count != new.footprint_count {
                    let line = count_change_line(
                        "footprint_count",
                        o.footprint_count as u64,
                        new.footprint_count as u64,
                    );
                    let ghost lv = line@;
                    changes.push(line);
                    assert(names_view(changes@) =~= names_view(changes@.drop_last()).push(lv));
                }
            },
            None => {
                changes.push("component will be created".to_string());
                assert(names_view(changes@) =~= seq!["component will be created"@]);
            },
        }
        finish_preview(changes)
    }
}

proof fn lemma_no_count_changes(kinds: Seq<Seq<char>>, counts: Seq<usize>)
    ensures
        count_changes(kinds, counts, counts) == Seq::<Seq<char>>::empty(),
    decreases kinds.len(),
{
    if kinds.len() > 0 {
        lemma_no_count_changes(kinds.drop_last(), counts);
    }
}

/// Previewing an update that changes nothing says so, rather than listing
/// nothing.
pub proof fn lemma_footprint_preview_of_no_change(kinds: Seq<Seq<char>>, summary: FootprintSummary)
    ensures
        footprint_preview(kinds, Some(summary), summary) == seq!["no structural changes detected"@],
{
    lemma_no_count_changes(kinds, summary.counts@);
    assert(Seq::<Seq<char>>::empty() + count_changes(kinds, summary.counts@, summary.counts@)
        =~= Seq::<Seq<char>>::empty());
}

/// Previewing a symbol update that changes nothing says so.
pub proof fn lemma_symbol_preview_of_no_change(kinds: Seq<Seq<char>>, summary: SymbolSummary)
    ensures
        symbol_preview(kinds, Some(summary), summary) == seq!["no structural changes detected"@],
{
    lemma_no_count_changes(kinds, summary.counts@);
    let e = Seq::<Seq<char>>::empty();
    assert(e + e + e + count_changes(kinds, summary.counts@, summary.counts@) + e =~= e);
}

proof fn lemma_decimal_ends_in_digit(n: nat)
    ensures
        decimal(n).len() > 0,
        decimal(n).last() as int <= '9' as int,
{
    if n < 10 {
        assert(decimal(n).last() as int == n + 48);
    } else {
        assert(decimal(n).last() as int == n % 10 + 48);
    }
}

proof fn lemma_change_lines_are_not_the_no_change_line(label: Seq<char>, a: Seq<char>, b: Seq<char>, x: nat, y: nat)
    ensures
        quoted_change(label, a, b) != "no structural changes detected"@,
        count_change(label, x, y) != "no structural changes detected"@,
{
    reveal_strlit("no structural changes detected");
    reveal_strlit("'");
    let none = "no structural changes detected"@;
    let q = quoted_change(label, a, b);
    assert(q.last() == '\'');
    assert(none.last() == 'd');
    lemma_decimal_ends_in_digit(y);
    let c = count_change(label, x, y);
    assert(c.last() == decimal(y).last());
}

proof fn lemma_count_changes_lines(kinds: Seq<Seq<char>>, old: Seq<usize>, new: Seq<usize>)
    ensures
        forall|j: int| 0 <= j < count_changes(kinds, old, new).len()
            ==> #[trigger] count_changes(kinds, old, new)[j] != "no structural changes detected"@,
        count_changes(kinds, old, new).len() == 0 ==> forall|i: int| 0 <= i < kinds.len()
            ==> #[trigger] old[i] == new[i],
    decreases kinds.len(),
{
    if kinds.len() > 0 {
        let i = kinds.len() - 1;
        lemma_count_changes_lines(kinds.drop_last(), old, new);
        lemma_change_lines_are_not_the_no_change_line(kinds[i] + "_count"@, Seq::empty(), Seq::empty(), old[i] as nat, new[i] as nat);
        if old[i] != new[i] {
            assert(count_changes(kinds, old, new).len() > 0);
        }
    }
}

/// The line a preview gives for a changed description, as the user reads it.
proof fn lemma_description_line(a: Seq<char>, b: Seq<char>)
    ensures
        quoted_change("description"@, a, b) == "description: '"@ + a + "' -> '"@ + b + "'"@,
        quoted_change("designator"@, a, b) == "designator: '"@ + a + "' -> '"@ + b + "'"@,
{
    reveal_strlit("description");
    reveal_strlit("designator");
    reveal_strlit(": '");
    reveal_strlit("description: '");
    reveal_strlit("designator: '");
    assert("description"@ + ": '"@ =~= "description: '"@);
    assert("designator"@ + ": '"@ =~= "designator: '"@);
    assert(quoted_change("description"@, a, b) =~= "description: '"@ + a + "' -> '"@ + b + "'"@);
    assert(quoted_change("designator"@, a, b) =~= "designator: '"@ + a + "' -> '"@ + b + "'"@);
}

/// A symbol update that changes the description is previewed first of all
/// by the line `description: '<old>' -> '<new>'`, and one that changes the
/// designator by `designator: '<old>' -> '<new>'`; the preview says
/// `no structural changes detected` only when the stored and the new symbol
/// agree in description, designator, part count, every record count and
/// footprint count.
pub proof fn lemma_symbol_preview_reports_each_difference(
    kinds: Seq<Seq<char>>,
    stored: SymbolSummary,
    new: SymbolSummary,
)
    ensures
        stored.description@ != new.description@ ==> symbol_preview(kinds, Some(stored), new)[0]
            == "description: '"@ + stored.description@ + "' -> '"@ + new.description@ + "'"@,
        stored.designator@ != new.designator@ ==> symbol_preview(kinds, Some(stored), new).contains(
            "designator: '"@ + stored.designator@ + "' -> '"@ + new.designator@ + "'"@,
        ),
        symbol_preview(kinds, Some(stored), new) == seq!["no structural changes detected"@] ==> {
            &&& stored.description@ == new.description@
            &&& stored.designator@ == new.designator@
            &&& stored.part_count == new.part_count
            &&& stored.footprint_count == new.footprint_count
            &&& forall|i: int| 0 <= i < kinds.len() ==> #[trigger] stored.counts@[i] == new.counts@[i]
        },
{
    let o = stored;
    let d = if o.description@ != new.description@ {
        seq![quoted_change("description"@, o.description@, new.description@)]
    } else {
        Seq::<Seq<char>>::empty()
    };
    let g = if o.designator@ != new.designator@ {
        seq![quoted_change("designator"@, o.designator@, new.designator@)]
    } else {
        Seq::<Seq<char>>::empty()
    };
    let p = if o.part_count != new.part_count {
        seq![count_change("part_count"@, o.part_count as nat, new.part_count as nat)]
    } else {
        Seq::<Seq<char>>::empty()
    };
    let c = count_changes(kinds, o.counts@, new.counts@);
    let f = if o.footprint_count != new.footprint_count {
        seq![count_change("footprint_count"@, o.footprint_count as nat, new.footprint_count as nat)]
    } else {
        Seq::<Seq<char>>::empty()
    };
    let changes = d + g + p + c + f;
    assert(symbol_preview(kinds, Some(stored), new) == or_no_change(changes));
    lemma_description_line(o.description@, new.description@);
    lemma_description_line(o.designator@, new.designator@);
    lemma_count_changes_lines(kinds, o.counts@, new.counts@);
    lemma_change_lines_are_not_the_no_change_line("description"@, o.description@, new.description@, 0, 0);
    lemma_change_lines_are_not_the_no_change_line("designator"@, o.designator@, new.designator@, 0, 0);
    lemma_change_lines_are_not_the_no_change_line("part_count"@, Seq::empty(), Seq::empty(), o.part_count as nat, new.part_count as nat);
    lemma_change_lines_are_not_the_no_change_line("footprint_count"@, Seq::empty(), Seq::empty(), o.footprint_count as nat, new.footprint_count as nat);
    if o.description@ != new.description@ {
        assert(changes[0] == d[0]);
    }
    if o.designator@ != new.designator@ {
        assert(changes[d.len() as int] == g[0]);
    }
    if changes.len() > 0 {
        assert forall|j: int| 0 <= j < changes.len() implies changes[j]
            != "no structural changes detected"@ by {
            if j < d.len() {
                assert(changes[j] == d[j]);
            } else if j < d.len() + g.len() {
                assert(changes[j] == g[j - d.len()]);
            } else if j < d.len() + g.len() + p.len() {
                assert(changes[j] == p[j - d.len() - g.len()]);
            } else if j < d.len() + g.len() + p.len() + c.len() {
                assert(changes[j] == c[j - d.len() - g.len() - p.len()]);
            } else {
                assert(changes[j] == f[j - d.len() - g.len() - p.len() - c.len()]);
            }
        }
        assert(or_no_change(changes)[0] == changes[0]);
    }
}

/// A footprint update that changes the description is previewed first of
/// all by the line `description: '<old>' -> '<new>'`; the preview says
/// `no structural changes detected` only when the stored and the new
/// footprint agree in description and every primitive count.
pub proof fn lemma_footprint_preview_reports_each_difference(
    kinds: Seq<Seq<char>>,
    stored: FootprintSummary,
    new: FootprintSummary,
)
    ensures
        stored.description@ != new.description@ ==> footprint_preview(kinds, Some(stored), new)[0]
            == "description: '"@ + stored.description@ + "' -> '"@ + new.description@ + "'"@,
        footprint_preview(kinds, Some(stored), new) == seq!["no structural changes detected"@] ==> {
            &&& stored.description@ == new.description@
            &&& forall|i: int| 0 <= i < kinds.len() ==> #[trigger] stored.counts@[i] == new.counts@[i]
        },
{
    let o = stored;
    let d = if o.description@ != new.description@ {
        seq![quoted_change("description"@, o.description@, new.description@)]
    } else {
        Seq::<Seq<char>>::empty()
    };
    let c = count_changes(kinds, o.counts@, new.counts@);
    let changes = d + c;
    assert(footprint_preview(kinds, Some(stored), new) == or_no_change(changes));
    lemma_description_line(o.description@, new.description@);
    lemma_count_changes_lines(kinds, o.counts@, new.counts@);
    lemma_change_lines_are_not_the_no_change_line("description"@, o.description@, new.description@, 0, 0);
    if o.description@ != new.description@ {
        assert(changes[0] == d[0]);
    }
    if changes.len() > 0 {
        if d.len() > 0 {
            assert(changes[0] == d[0]);
        } else {
            assert(changes[0] == c[0]);
        }
        assert(or_no_change(changes)[0] == changes[0]);
    }
}

/// A preview always says something: at least one line.
pub proof fn lemma_preview_never_empty(
    kinds: Seq<Seq<char>>,
    old_footprint: Option<FootprintSummary>,
    new_footprint: FootprintSummary,
    old_symbol: Option<SymbolSummary>,
    new_symbol: SymbolSummary,
)
    ensures
        footprint_preview(kinds, old_footprint, new_footprint).len() >= 1,
        symbol_preview(kinds, old_symbol, new_symbol).len() >= 1,
{
}

// ---------------------------------------------------------------- existence

/// The number of `true` among `flags`.
pub open spec fn count_true(flags: Seq<bool>) -> nat
    decreases flags.len(),
{
    if flags.len() == 0 {
        0
    } else {
        count_true(flags.drop_last()) + (if flags.last() {
            1nat
        } else {
            0nat
        })
    }
}

/// How many of the checked names exist, and whether all of them do.
pub fn existence_summary(exists: &[bool]) -> (r: (usize, bool))
    ensures
        r.0 == count_true(exists@),
        r.1 == (forall|i: int| 0 <= i < exists.len() ==> exists@[i]),
{
    let mut count: usize = 0;
    let mut all = true;
    let mut i: usize = 0;
    while i < exists.len()
        invariant
            i <= exists.len(),
            count == count_true(exists@.take(i as int)),
            count <= i,
            all == (forall|k: int| 0 <= k < i ==> exists@[k]),
        decreases exists.len() - i,
    {
        assert(exists@.take((i + 1) as int).drop_last() =~= exists@.take(i as int));
        if exists[i] {
            count += 1;
        } else {
            all = false;
        }
        i += 1;
    }
    assert(exists@.take(exists.len() as int) =~= exists@);
    (count, all)
}

/// All the checked names exist exactly when every one of them is counted.
pub proof fn lemma_all_exist_when_all_counted(exists: Seq<bool>)
    ensures
        (count_true(exists) == exists.len()) == (forall|i: int| 0 <= i < exists.len() ==> exists[i]),
    decreases exists.len(),
{
    if exists.len() > 0 {
        let rest = exists.drop_last();
        lemma_all_exist_when_all_counted(rest);
        lemma_count_true_bound(rest);
        if forall|i: int| 0 <= i < exists.len() ==> exists[i] {
            assert forall|i: int| 0 <= i < rest.len() implies rest[i] by {
                assert(rest[i] == exists[i]);
            }
        } else {
            let k = choose|k: int| 0 <= k < exists.len() && !exists[k];
            if k < exists.len() - 1 {
                assert(!rest[k]);
            }
        }
        if forall|i: int| 0 <= i < rest.len() ==> rest[i] {
            if exists.last() {
                assert forall|i: int| 0 <= i < exists.len() implies exists[i] by {
                    if i < exists.len() - 1 {
                        assert(rest[i] == exists[i]);
                    }
                }
            }
        }
    }
}

proof fn lemma_count_true_bound(flags: Seq<bool>)
    ensures
        count_true(flags) <= flags.len(),
    decreases flags.len(),
{
    if flags.len() > 0 {
        lemma_count_true_bound(flags.drop_last());
    }
}

} // verus!
