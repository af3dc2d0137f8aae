//! The arguments of the tool requests, read before any file is touched:
//! which are required, what each defaults to, and the error a request
//! missing one is answered with. Each reader checks in the order the tool
//! does, so the first fault of a request is the one reported.
use vstd::prelude::*;
use crate::McpServer;
use crate::json::{Json, JsonNode};
use crate::query::{library_kind, library_kind_of, LibraryKind};
use crate::records::{or_else, ErrorContext};
use crate::text::{push_str, str_eq};

verus! {

// ---------------------------------------------------------------- single arguments

/// `Missing required parameter: <key>`.
pub open spec fn missing_parameter(key: Seq<char>) -> Seq<char> {
    "Missing required parameter: "@ + key
}

/// The string items of a JSON list, in order; the others are passed over.
pub open spec fn string_items(items: Seq<Json>) -> Seq<Seq<char>>
    decreases items.len(),
{
    if items.len() == 0 {
        Seq::empty()
    } else {
        let rest = string_items(items.drop_last());
        match items.last().spec_as_str() {
            Some(s) => rest.push(s),
            None => rest,
        }
    }
}

/// The views of a list of strings.
pub open spec fn string_views(v: Seq<String>) -> Seq<Seq<char>> {
    v.map_values(|s: String| s@)
}

/// The string items of the list under `key`, when it is a list.
pub open spec fn string_list_at(arguments: Json, key: Seq<char>) -> Option<Seq<Seq<char>>> {
    match arguments.spec_get(key) {
        Some(v) => match v.node {
            JsonNode::Array(items) => Some(string_items(items@)),
            _ => None,
        },
        None => None,
    }
}

/// The error for a missing required argument.
pub fn missing_parameter_error(key: &str) -> (e: String)
    ensures
        e@ == missing_parameter(key@),
{
    let mut e = String::new();
    push_str(&mut e, "Missing required parameter: ");
    push_str(&mut e, key);
    e
}

/// A required string argument: refused, by name, when it is absent or not
/// a string.
pub fn required_string<'a>(arguments: &'a Json, key: &str) -> (r: Result<&'a str, String>)
    ensures
        r matches Ok(s) ==> arguments.str_at(key@) == Some(s@),
        r matches Err(e) ==> arguments.str_at(key@) is None && e@ == missing_parameter(key@),
        r is Err <==> arguments.str_at(key@) is None,
{
    match arguments.str_field(key) {
        Some(s) => Ok(s),
        None => Err(missing_parameter_error(key)),
    }
}

/// The string items of a JSON list, in order.
pub fn strings_of(items: &[Json]) -> (r: Vec<String>)
    ensures
        string_views(r@) == string_items(items@),
{
    let mut out: Vec<String> = Vec::new();
    let mut i: usize = 0;
    while i < items.len()
        invariant
            i <= items.len(),
            string_views(out@) == string_items(items@.take(i as int)),
        decreases items.len() - i,
    {
        let ghost before = out@;
        assert(items@.take(i + 1).drop_last() =~= items@.take(i as int));
        match items[i].as_str() {
            Some(s) => {
                out.push(s.to_string());
                assert(string_views(out@) =~= string_views(before).push(s@));
            },
            None => {},
        }
        i += 1;
    }
    assert(items@.take(items.len() as int) =~= items@);
    out
}

/// The string items of a required list argument: refused, by name, when it
/// is absent or not a list.
pub fn required_string_list(arguments: &Json, key: &str) -> (r: Result<Vec<String>, String>)
    ensures
        r is Err <==> string_list_at(*arguments, key@) is None,
        r matches Ok(v) ==> string_list_at(*arguments, key@) == Some(string_views(v@)),
        r matches Err(e) ==> e@ == missing_parameter(key@),
{
    match arguments.get(key) {
        Some(v) => match v.as_array() {
            Some(items) => Ok(strings_of(items.as_slice())),
            None => Err(missing_parameter_error(key)),
        },
        None => Err(missing_parameter_error(key)),
    }
}

// ---------------------------------------------------------------- search

/// What a search request asks for.
#[derive(Debug)]
pub struct SearchRequest {
    /// The libraries to search, in order.
    pub paths: Vec<String>,
    pub pattern: String,
    /// `glob` or `regex`.
    pub pattern_type: String,
}

/// The first fault of a search request, in the order the tool checks:
/// the library list, that it names one, the pattern, the pattern type.
pub open spec fn search_request_error(arguments: Json) -> Option<Seq<char>> {
    match string_list_at(arguments, "filepaths"@) {
        None => Some(missing_parameter("filepaths"@)),
        Some(paths) => if paths.len() == 0 {
            Some("filepaths must contain at least one path"@)
        } else if arguments.str_at("pattern"@) is None {
            Some(missing_parameter("pattern"@))
        } else {
            let t = or_else(arguments.str_at("pattern_type"@), "glob"@);
            if t == "glob"@ || t == "regex"@ {
                None
            } else {
                Some("pattern_type must be one of: 'glob', 'regex'"@)
            }
        },
    }
}

impl McpServer {
    /// Reads a search request: the string items of `filepaths` (at least one
    /// is required), the `pattern`, and the `pattern_type`, `glob` unless
    /// given and refused unless `glob` or `regex`.
    pub fn search_request(arguments: &Json) -> (r: Result<SearchRequest, String>)
        ensures
            r is Err <==> search_request_error(*arguments) is Some,
            r matches Err(e) ==> search_request_error(*arguments) == Some(e@),
            r matches Ok(q) ==> {
                &&& string_list_at(*arguments, "filepaths"@) == Some(string_views(q.paths@))
                &&& arguments.str_at("pattern"@) == Some(q.pattern@)
                &&& q.pattern_type@ == or_else(arguments.str_at("pattern_type"@), "glob"@)
            },
    {
        let paths = required_string_list(arguments, "filepaths")?;
        if paths.len() == 0 {
            return Err("filepaths must contain at least one path".to_string());
        }
        let pattern = required_string(arguments, "pattern")?;
        let pattern_type = match arguments.str_field("pattern_type") {
            Some(t) => t,
            None => "glob",
        };
        if !(str_eq(pattern_type, "glob") || str_eq(pattern_type, "regex")) {
            return Err("pattern_type must be one of: 'glob', 'regex'".to_string());
        }
        Ok(SearchRequest { paths, pattern: pattern.to_string(), pattern_type: pattern_type.to_string() })
    }
}

// ---------------------------------------------------------------- components by name

/// What an existence check asks for.
#[derive(Debug)]
pub struct ExistsRequest {
    pub filepath: String,
    /// The names to look up, in order.
    pub names: Vec<String>,
}

/// The first fault of an existence check: the library, the name list, that
/// it holds a name.
pub open spec fn exists_request_error(arguments: Json) -> Option<Seq<char>> {
    if arguments.str_at("filepath"@) is None {
        Some(missing_parameter("filepath"@))
    } else {
        match string_list_at(arguments, "component_names"@) {
            None => Some(missing_parameter("component_names"@)),
            Some(names) => if names.len() == 0 {
                Some("component_names array is empty or contains non-string values"@)
            } else {
                None
            },
        }
    }
}

/// A library and the component of it a request names.
#[derive(Debug)]
pub struct ComponentRequest {
    pub filepath: String,
    pub component_name: String,
}

/// The first fault of a request that names a library and a component in it.
pub open spec fn component_request_error(arguments: Json) -> Option<Seq<char>> {
    if arguments.str_at("filepath"@) is None {
        Some(missing_parameter("filepath"@))
    } else if arguments.str_at("component_name"@) is None {
        Some(missing_parameter("component_name"@))
    } else {
        None
    }
}

impl McpServer {
    /// Reads an existence check: the `filepath` and the string items of
    /// `component_names`, of which there must be one.
    pub fn exists_request(arguments: &Json) -> (r: Result<ExistsRequest, String>)
        ensures
            r is Err <==> exists_request_error(*arguments) is Some,
            r matches Err(e) ==> exists_request_error(*arguments) == Some(e@),
            r matches Ok(q) ==> {
                &&& arguments.str_at("filepath"@) == Some(q.filepath@)
                &&& string_list_at(*arguments, "component_names"@) == Some(string_views(q.names@))
            },
    {
        let filepath = required_string(arguments, "filepath")?;
        let names = required_string_list(arguments, "component_names")?;
        if names.len() == 0 {
            return Err("component_names array is empty or contains non-string values".to_string());
        }
        Ok(ExistsRequest { filepath: filepath.to_string(), names })
    }

    /// Reads a request for one component of a library (get, render): the
    /// `filepath`, then the `component_name`.
    pub fn component_request(arguments: &Json) -> (r: Result<ComponentRequest, String>)
        ensures
            r is Err <==> component_request_error(*arguments) is Some,
            r matches Err(e) ==> component_request_error(*arguments) == Some(e@),
            r matches Ok(q) ==> {
                &&& arguments.str_at("filepath"@) == Some(q.filepath@)
                &&& arguments.str_at("component_name"@) == Some(q.component_name@)
            },
    {
        let filepath = required_string(arguments, "filepath")?;
        let component_name = required_string(arguments, "component_name")?;
        Ok(ComponentRequest { filepath: filepath.to_string(), component_name: component_name.to_string() })
    }
}

// ---------------------------------------------------------------- render

/// The whole-number options of a render request: the canvas limits and, for
/// a symbol, the part shown. The scale is fractional and read by the caller.
#[derive(PartialEq, Eq, Structural, Clone, Copy, Debug)]
pub struct RenderLimits {
    pub max_width: usize,
    pub max_height: usize,
    pub part_id: i32,
}

impl McpServer {
    /// Reads the canvas limits of a render request, 80 by 40 unless given,
    /// and the part to show, 1 unless given (each taken as the tool's integer
    /// conversions give it, keeping its low bits).
    pub fn render_limits(arguments: &Json) -> (r: RenderLimits)
        ensures
            r.max_width == or_else(arguments.u64_at("max_width"@), 80u64) as usize,
            r.max_height == or_else(arguments.u64_at("max_height"@), 40u64) as usize,
            r.part_id == or_else(arguments.i64_at("part_id"@), 1i64) as i32,
    {
        let width = match arguments.u64_field("max_width") {
            Some(v) => v,
            None => 80,
        };
        let height = match arguments.u64_field("max_height") {
            Some(v) => v,
            None => 40,
        };
        let part = match arguments.i64_field("part_id") {
            Some(v) => v,
            None => 1,
        };
        RenderLimits {
            max_width: #[verifier::truncate] (width as usize),
            max_height: #[verifier::truncate] (height as usize),
            part_id: #[verifier::truncate] (part as i32),
        }
    }
}

// ---------------------------------------------------------------- update

/// What replaces a component in an update, by the library's kind.
#[derive(PartialEq, Eq, Structural, Clone, Copy, Debug)]
pub enum UpdateTarget {
    /// The request's `footprint` replaces a footprint of a `.PcbLib`.
    Footprint,
    /// The request's `symbol` replaces a symbol of a `.SchLib`.
    Symbol,
    /// The file is no library an update can change.
    Unsupported,
}

/// What an update asks for, once its library is known to be allowed.
#[derive(Debug)]
pub struct UpdateRequest {
    pub component_name: String,
    pub dry_run: bool,
    pub target: UpdateTarget,
}

/// The update target a library path names.
pub open spec fn update_target_of(filepath: Seq<char>) -> UpdateTarget {
    match library_kind_of(filepath) {
        Some(LibraryKind::PcbLib) => UpdateTarget::Footprint,
        Some(LibraryKind::SchLib) => UpdateTarget::Symbol,
        _ => UpdateTarget::Unsupported,
    }
}

/// The first fault of an update, after its library: the component name,
/// then the replacement its library's kind calls for.
pub open spec fn update_request_error(arguments: Json, filepath: Seq<char>) -> Option<Seq<char>> {
    if arguments.str_at("component_name"@) is None {
        Some(missing_parameter("component_name"@))
    } else {
        match update_target_of(filepath) {
            UpdateTarget::Footprint => if arguments.spec_get("footprint"@) is None {
                Some(missing_parameter("footprint (required for .PcbLib files)"@))
            } else {
                None
            },
            UpdateTarget::Symbol => if arguments.spec_get("symbol"@) is None {
                Some(missing_parameter("symbol (required for .SchLib files)"@))
            } else {
                None
            },
            UpdateTarget::Unsupported => None,
        }
    }
}

impl McpServer {
    /// Reads the rest of an update request once its `filepath` is allowed:
    /// the `component_name`, whether it is a dry run (not unless given), and
    /// what replaces the component, which must be present for the library's
    /// kind (`footprint` for a `.PcbLib`, `symbol` for a `.SchLib`).
    pub fn update_request(arguments: &Json, filepath: &str) -> (r: Result<UpdateRequest, String>)
        ensures
            r is Err <==> update_request_error(*arguments, filepath@) is Some,
            r matches Err(e) ==> update_request_error(*arguments, filepath@) == Some(e@),
            r matches Ok(q) ==> {
                &&& arguments.str_at("component_name"@) == Some(q.component_name@)
                &&& q.dry_run == or_else(arguments.bool_at("dry_run"@), false)
                &&& q.target == update_target_of(filepath@)
            },
    {
        let component_name = required_string(arguments, "component_name")?;
        let dry_run = match arguments.bool_field("dry_run") {
            Some(b) => b,
            None => false,
        };
        let target = match library_kind(filepath) {
            Some(LibraryKind::PcbLib) => UpdateTarget::Footprint,
            Some(LibraryKind::SchLib) => UpdateTarget::Symbol,
            _ => UpdateTarget::Unsupported,
        };
        match target {
            UpdateTarget::Footprint => if arguments.get("footprint").is_none() {
                return Err(missing_parameter_error("footprint (required for .PcbLib files)"));
            },
            UpdateTarget::Symbol => if arguments.get("symbol").is_none() {
                return Err(missing_parameter_error("symbol (required for .SchLib files)"));
            },
            UpdateTarget::Unsupported => {},
        }
        Ok(UpdateRequest { component_name: component_name.to_string(), dry_run, target })
    }
}

// ---------------------------------------------------------------- library packages

/// The first fault of a package request, after its path: that it names a
/// `.LibPkg`, the document list, that it holds a document.
pub open spec fn libpkg_request_error(arguments: Json, filepath: Seq<char>) -> Option<Seq<char>> {
    if library_kind_of(filepath) != Some(LibraryKind::LibPkg) {
        Some("write_libpkg only supports .LibPkg files"@)
    } else {
        match string_list_at(arguments, "documents"@) {
            None => Some(missing_parameter("documents"@)),
            Some(docs) => if docs.len() == 0 {
                Some("documents must contain at least one .SchLib/.PcbLib path"@)
            } else {
                None
            },
        }
    }
}

impl McpServer {
    /// Reads the documents of a package request once its `filepath` is
    /// allowed: the file must be a `.LibPkg`, and `documents` must list at
    /// least one path (its string items, in order).
    pub fn libpkg_documents(arguments: &Json, filepath: &str) -> (r: Result<Vec<String>, String>)
        ensures
            r is Err <==> libpkg_request_error(*arguments, filepath@) is Some,
            r matches Err(e) ==> libpkg_request_error(*arguments, filepath@) == Some(e@),
            r matches Ok(docs) ==> string_list_at(*arguments, "documents"@) == Some(string_views(docs@)),
    {
        match library_kind(filepath) {
            Some(LibraryKind::LibPkg) => {},
            _ => return Err("write_libpkg only supports .LibPkg files".to_string()),
        }
        let docs = required_string_list(arguments, "documents")?;
        if docs.len() == 0 {
            return Err("documents must contain at least one .SchLib/.PcbLib path".to_string());
        }
        Ok(docs)
    }
}


// ---------------------------------------------------------------- writes

/// The `name` strings of the records a write request carries, in order;
/// records without one are passed over.
pub open spec fn name_items(items: Seq<Json>) -> Seq<Seq<char>>
    decreases items.len(),
{
    if items.len() == 0 {
        Seq::empty()
    } else {
        let rest = name_items(items.drop_last());
        match items.last().str_at("name"@) {
            Some(s) => rest.push(s),
            None => rest,
        }
    }
}

/// The names the records of a write request give themselves, in order.
pub fn request_names(items: &[Json]) -> (r: Vec<String>)
    ensures
        string_views(r@) == name_items(items@),
{
    let mut out: Vec<String> = Vec::new();
    let mut i: usize = 0;
    while i < items.len()
        invariant
            i <= items.len(),
            string_views(out@) == name_items(items@.take(i as int)),
        decreases items.len() - i,
    {
        let ghost before = out@;
        assert(items@.take(i + 1).drop_last() =~= items@.take(i as int));
        match items[i].str_field("name") {
            Some(s) => {
                out.push(s.to_string());
                assert(string_views(out@) =~= string_views(before).push(s@));
            },
            None => {},
        }
        i += 1;
    }
    assert(items@.take(items.len() as int) =~= items@);
    out
}

/// The key at `i` repeats one before it.
pub open spec fn repeats_earlier(keys: Seq<Seq<char>>, i: int) -> bool {
    exists|j: int| 0 <= j < i && #[trigger] keys[j] == keys[i]
}

/// The index of the first key that repeats an earlier one: the first name
/// of a write request that another record of it already took, once the
/// caller has folded the names as the library resolves them.
pub fn first_repeat(keys: &[String]) -> (r: Option<usize>)
    ensures
        r matches Some(i) ==> i < keys.len() && repeats_earlier(string_views(keys@), i as int)
            && forall|k: int| 0 <= k < i ==> !repeats_earlier(string_views(keys@), k),
        r is None ==> forall|k: int| 0 <= k < keys.len() ==> !repeats_earlier(string_views(keys@), k),
{
    let ghost views = string_views(keys@);
    let mut i: usize = 0;
    while i < keys.len()
        invariant
            i <= keys.len(),
            views == string_views(keys@),
            forall|k: int| 0 <= k < i ==> !repeats_earlier(views, k),
        decreases keys.len() - i,
    {
        let mut j: usize = 0;
        while j < i
            invariant
                j <= i < keys.len(),
                views == string_views(keys@),
                forall|k: int| 0 <= k < i ==> !repeats_earlier(views, k),
                forall|m: int| 0 <= m < j ==> views[m] != views[i as int],
            decreases i - j,
        {
            if str_eq(keys[j].as_str(), keys[i].as_str()) {
                assert(views[j as int] == views[i as int]);
                assert(repeats_earlier(views, i as int));
                return Some(i);
            }
            j += 1;
        }
        i += 1;
    }
    None
}

/// The error for a name two records of one write request share: `kind` is
/// `symbol` or `footprint`.
pub fn duplicate_name_error(operation: &str, filepath: &str, kind: &str, name: &str) -> (r: ErrorContext)
    ensures
        r.operation@ == operation@,
        r.message@ == "Duplicate "@ + kind@ + " name: '"@ + name@ + "'"@,
        r.filepath matches Some(f) && f@ == filepath@,
        r.component matches Some(c) && c@ == name@,
        r.details matches Some(d) && d@ == "Each "@ + kind@ + " in the request must have a unique name"@,
{
    let mut message = String::new();
    push_str(&mut message, "Duplicate ");
    push_str(&mut message, kind);
    push_str(&mut message, " name: '");
    push_str(&mut message, name);
    push_str(&mut message, "'");
    let mut details = String::new();
    push_str(&mut details, "Each ");
    push_str(&mut details, kind);
    push_str(&mut details, " in the request must have a unique name");
    ErrorContext {
        operation: operation.to_string(),
        message,
        filepath: Some(filepath.to_string()),
        component: Some(name.to_string()),
        details: Some(details),
    }
}

/// The switches of a write request: whether it adds to an existing library
/// (not unless given), whether a footprint gets its designator text (unless
/// switched off) and whether it gets an extruded body (not unless given).
#[derive(PartialEq, Eq, Structural, Clone, Copy, Debug)]
pub struct WriteSwitches {
    pub append: bool,
    pub auto_designator: bool,
    pub auto_3d_body: bool,
}

impl McpServer {
    /// Reads the switches of a write request.
    pub fn write_switches(arguments: &Json) -> (r: WriteSwitches)
        ensures
            r.append == or_else(arguments.bool_at("append"@), false),
            r.auto_designator == or_else(arguments.bool_at("auto_designator"@), true),
            r.auto_3d_body == or_else(arguments.bool_at("auto_3d_body"@), false),
    {
        WriteSwitches {
            append: match arguments.bool_field("append") {
                Some(b) => b,
                None => false,
            },
            auto_designator: match arguments.bool_field("auto_designator") {
                Some(b) => b,
                None => true,
            },
            auto_3d_body: match arguments.bool_field("auto_3d_body") {
                Some(b) => b,
                None => false,
            },
        }
    }
}

} // verus!
