//! The Kani bounded model-checking adapter: its constants, failures and
//! the decisions it makes about harness inventories and tool output.
use vstd::prelude::*;
use crate::aeneas::{framed, prefixed};
use crate::names::{is_safe_atom, is_safe_symbol};
use crate::text::str_equal;
use crate::inventory::{has_duplicates, missing_from, MAX_INVENTORY};
use crate::normalize::{
    logicalize_spec, logicalize_with, normalize_output_with, normalize_timing_with, normalized_text,
    pair_views, timing_spec, truncate_chars, truncated,
};
use crate::process::{Diagnostic, MAX_MESSAGE_CHARS};
use crate::text::{
    chars_of, debug_list, debug_strings, decimal, push_decimal, string_of, string_views, strings_of,
    char_lists, views,
};

verus! {

pub const PROTOCOL_SCHEMA: &'static str = "proofbound-adapter-protocol/1";

pub const OBSERVATION_SCHEMA: &'static str = "proofbound-adapter-observation/2";

pub const ADAPTER_ID: &'static str = "kani";

pub const MAX_REQUEST_BYTES: u64 = 2097152;

/// Why a bounded-check request failed.
#[derive(Clone, Debug, PartialEq, Eq)]
pub enum AdapterError {
    Io(String),
    ToolUnavailable { program: String, source: String },
    Timeout(u64),
    Request(String),
    Unit(String),
    UnsafePath(String),
    ToolOutput(String),
    ToolFailed(String),
    Budget(String),
    Internal(String),
}

impl AdapterError {
    /// The stable diagnostic code of each failure class.
    pub open spec fn code_spec(&self) -> Seq<char> {
        match *self {
            AdapterError::ToolUnavailable { .. } => "PB-KANI-1001"@,
            AdapterError::Timeout(_) | AdapterError::Budget(_) => "PB-KANI-1002"@,
            AdapterError::Request(_) => "PB-KANI-1003"@,
            AdapterError::Unit(_) => "PB-KANI-1004"@,
            AdapterError::UnsafePath(_) => "PB-KANI-1005"@,
            AdapterError::ToolOutput(_) => "PB-KANI-1006"@,
            AdapterError::ToolFailed(_) => "PB-KANI-1007"@,
            AdapterError::Io(_) | AdapterError::Internal(_) => "PB-KANI-1099"@,
        }
    }

    /// The stable diagnostic code.
    pub fn code(&self) -> (s: &'static str)
        ensures
            s@ == self.code_spec(),
    {
        match self {
            AdapterError::ToolUnavailable { .. } => "PB-KANI-1001",
            AdapterError::Timeout(_) | AdapterError::Budget(_) => "PB-KANI-1002",
            AdapterError::Request(_) => "PB-KANI-1003",
            AdapterError::Unit(_) => "PB-KANI-1004",
            AdapterError::UnsafePath(_) => "PB-KANI-1005",
            AdapterError::ToolOutput(_) => "PB-KANI-1006",
            AdapterError::ToolFailed(_) => "PB-KANI-1007",
            AdapterError::Io(_) | AdapterError::Internal(_) => "PB-KANI-1099",
        }
    }

    /// What the operator should do about the failure.
    pub open spec fn remediation_spec(&self) -> Seq<char> {
        match *self {
            AdapterError::ToolUnavailable { .. } => "install the pinned Kani toolchain and ensure `cargo` is on the allowed PATH"@,
            AdapterError::Timeout(_) | AdapterError::Budget(_) => "increase the unit budget only after review, or reduce the bounded workload"@,
            AdapterError::Request(_) => "send canonical proofbound-adapter-protocol/1 JSON with no unknown fields"@,
            AdapterError::Unit(_) => "make the evidence unit and referenced model-check manifest agree exactly"@,
            AdapterError::UnsafePath(_) => "use a relative, non-symlink path contained by the project root"@,
            AdapterError::ToolOutput(_) => "use the pinned supported Kani metadata format and inspect the complete tool output"@,
            AdapterError::ToolFailed(_) => "reproduce the typed Kani invocation and fix the failing harness"@,
            AdapterError::Io(_) | AdapterError::Internal(_) => "inspect the adapter diagnostic and retry from a clean checkout"@,
        }
    }

    /// What the operator should do about the failure.
    pub fn remediation(&self) -> (s: &'static str)
        ensures
            s@ == self.remediation_spec(),
    {
        match self {
            AdapterError::ToolUnavailable { .. } => "install the pinned Kani toolchain and ensure `cargo` is on the allowed PATH",
            AdapterError::Timeout(_) | AdapterError::Budget(_) => "increase the unit budget only after review, or reduce the bounded workload",
            AdapterError::Request(_) => "send canonical proofbound-adapter-protocol/1 JSON with no unknown fields",
            AdapterError::Unit(_) => "make the evidence unit and referenced model-check manifest agree exactly",
            AdapterError::UnsafePath(_) => "use a relative, non-symlink path contained by the project root",
            AdapterError::ToolOutput(_) => "use the pinned supported Kani metadata format and inspect the complete tool output",
            AdapterError::ToolFailed(_) => "reproduce the typed Kani invocation and fix the failing harness",
            AdapterError::Io(_) | AdapterError::Internal(_) => "inspect the adapter diagnostic and retry from a clean checkout",
        }
    }

    /// The human-readable sentence for the failure.
    pub open spec fn message_spec(&self) -> Seq<char> {
        match *self {
            AdapterError::Io(m) => "I/O error: "@ + m@,
            AdapterError::ToolUnavailable { program, source } => "tool `"@ + program@
                + "` is unavailable: "@ + source@,
            AdapterError::Timeout(ms) => "tool exceeded its "@ + decimal(ms as nat)
                + " ms time budget"@,
            AdapterError::Request(m) => "invalid request: "@ + m@,
            AdapterError::Unit(m) => "invalid unit: "@ + m@,
            AdapterError::UnsafePath(p) => "unsafe path `"@ + p@ + "`"@,
            AdapterError::ToolOutput(m) => "tool output was invalid: "@ + m@,
            AdapterError::ToolFailed(m) => "tool failed: "@ + m@,
            AdapterError::Budget(m) => "resource budget exceeded: "@ + m@,
            AdapterError::Internal(m) => "internal adapter error: "@ + m@,
        }
    }

    /// The human-readable sentence for the failure.
    pub fn message(&self) -> (s: String)
        ensures
            s@ == self.message_spec(),
    {
        match self {
            AdapterError::Io(m) => prefixed("I/O error: ", m.as_str()),
            AdapterError::ToolUnavailable { program, source } => {
                let mut s = framed("tool `", program.as_str(), "` is unavailable: ");
                s.append(source.as_str());
                s
            },
            AdapterError::Timeout(ms) => {
                let mut s = "tool exceeded its ".to_owned();
                push_decimal(&mut s, *ms);
                s.append(" ms time budget");
                s
            },
            AdapterError::Request(m) => prefixed("invalid request: ", m.as_str()),
            AdapterError::Unit(m) => prefixed("invalid unit: ", m.as_str()),
            AdapterError::UnsafePath(p) => framed("unsafe path `", p.as_str(), "`"),
            AdapterError::ToolOutput(m) => prefixed("tool output was invalid: ", m.as_str()),
            AdapterError::ToolFailed(m) => prefixed("tool failed: ", m.as_str()),
            AdapterError::Budget(m) => prefixed("resource budget exceeded: ", m.as_str()),
            AdapterError::Internal(m) => prefixed("internal adapter error: ", m.as_str()),
        }
    }
    /// The protocol diagnostic: code, message cut to 8192 characters, the
    /// unsafe path if any, and the remediation.
    pub fn diagnostic(&self) -> (d: Diagnostic)
        ensures
            d.code@ == self.code_spec(),
            d.message@ == truncated(self.message_spec(), MAX_MESSAGE_CHARS as nat),
            (d.path is Some) <==> (self is UnsafePath),
            self matches AdapterError::UnsafePath(p) ==> d.path matches Some(q) && q@ == p@,
            d.remediation matches Some(r) && r@ == self.remediation_spec(),
    {
        let message = self.message();
        let path = match self {
            AdapterError::UnsafePath(p) => Some(p.as_str().to_owned()),
            _ => None,
        };
        Diagnostic {
            code: self.code().to_owned(),
            message: truncate_chars(message.as_str(), MAX_MESSAGE_CHARS),
            path,
            remediation: Some(self.remediation().to_owned()),
        }
    }
}

/// The timing markers of Kani and Cargo output.
pub open spec fn timing_markers() -> Seq<Seq<char>> {
    seq!["; finished in "@, "Verification Time: "@, "Runtime decision procedure: "@]
}

/// Masks the duration that follows a timing marker.
pub fn normalize_timing_line(line: &str) -> (out: String)
    ensures
        out@ == timing_spec(line@, timing_markers()),
{
    let markers = crate::names::markers_of(
        &["; finished in ", "Verification Time: ", "Runtime decision procedure: "],
    );
    proof {
        assert(views(markers@) =~= timing_markers());
    }
    let chars = chars_of(line);
    let out = normalize_timing_with(chars.as_slice(), &markers);
    string_of(out.as_slice())
}

/// The normalized output of a Kani run, as UTF-8 bytes: both project roots
/// become `$PROJECT`.
pub fn normalize_output(stdout: &[u8], stderr: &[u8], shadow_root: &str, project_root: &str) -> (out: Vec<u8>)
    ensures
        out@ == vstd::utf8::encode_utf8(
            normalized_text(
                stdout@,
                stderr@,
                crate::aeneas::output_replacements(shadow_root@, project_root@),
                timing_markers(),
            ),
        ),
{
    let markers = crate::names::markers_of(
        &["; finished in ", "Verification Time: ", "Runtime decision procedure: "],
    );
    let mut subs: Vec<(Vec<char>, Vec<char>)> = Vec::new();
    subs.push((chars_of(shadow_root), chars_of("$PROJECT")));
    subs.push((chars_of(project_root), chars_of("$PROJECT")));
    proof {
        assert(views(markers@) =~= timing_markers());
        assert(pair_views(subs@) =~= crate::aeneas::output_replacements(shadow_root@, project_root@));
    }
    normalize_output_with(stdout, stderr, &subs, &markers)
}

/// The scratch-directory marker of this adapter.
pub open spec fn temp_marker() -> Seq<char> {
    "/proofbound-kani-"@
}

/// Rewrites a path inside this adapter's scratch directory to its logical
/// spelling.
pub fn logicalize_temp_path(value: &str) -> (out: String)
    ensures
        out@ == logicalize_spec(value@, temp_marker()),
{
    logicalize_with(value, "/proofbound-kani-")
}

/// Keeps at most 8192 characters of a message.
pub fn truncate_message(message: &str) -> (out: String)
    ensures
        out@ == truncated(message@, MAX_MESSAGE_CHARS as nat),
{
    truncate_chars(message, MAX_MESSAGE_CHARS)
}

/// Accepts a relative path of ordinary components, or names it unsafe.
pub fn validate_relative_path(path: &str) -> (r: Result<(), AdapterError>)
    ensures
        r is Ok <==> crate::paths::is_relative_path(path@),
        r matches Err(e) ==> e matches AdapterError::UnsafePath(p) && p@ == path@,
{
    if crate::paths::relative_path_ok(path) {
        Ok(())
    } else {
        Err(AdapterError::UnsafePath(path.to_owned()))
    }
}

/// The directory names that a shadow copy of the project leaves out.
pub open spec fn excluded_names() -> Seq<Seq<char>> {
    seq![
        ".git"@,
        "target"@,
        ".lake"@,
        ".proofbound"@,
        ".venv"@,
        "node_modules"@,
        "__pycache__"@,
        ".pytest_cache"@,
        ".mypy_cache"@,
        ".ruff_cache"@,
    ]
}

/// Whether a path lies in a directory that shadow copies leave out.
pub fn should_exclude(relative: &str) -> (b: bool)
    ensures
        b == crate::paths::has_segment_in(relative@, excluded_names()),
{
    let names = crate::names::markers_of(
        &[
            ".git",
            "target",
            ".lake",
            ".proofbound",
            ".venv",
            "node_modules",
            "__pycache__",
            ".pytest_cache",
            ".mypy_cache",
            ".ruff_cache",
        ],
    );
    proof {
        assert(views(names@) =~= excluded_names());
    }
    crate::paths::has_segment_of(relative, &names)
}

/// A harness path: at most 1024 characters of nonempty `::`-separated
/// parts made of ASCII letters, digits and `_`.
pub open spec fn is_harness_symbol(s: Seq<char>) -> bool {
    &&& 0 < s.len() <= 1024
    &&& forall|k: int|
        0 <= k < crate::text::split(s, "::"@).len() ==> #[trigger] crate::text::split(s, "::"@)[k].len()
            > 0 && crate::names::all_in(crate::text::split(s, "::"@)[k], crate::names::CharClass::Word)
}

/// Whether `value` is a harness path.
pub fn safe_symbol(value: &str) -> (b: bool)
    ensures
        b == is_harness_symbol(value@),
{
    let s = chars_of(value);
    if s.len() == 0 || s.len() > 1024 {
        return false;
    }
    let sep = chars_of("::");
    proof {
        reveal_strlit("::");
    }
    let parts = crate::text::split_of(s.as_slice(), sep.as_slice());
    let mut k: usize = 0;
    while k < parts.len()
        invariant
            k <= parts@.len(),
            views(parts@) == crate::text::split(value@, "::"@),
            forall|j: int|
                0 <= j < k ==> #[trigger] views(parts@)[j].len() > 0 && crate::names::all_in(
                    views(parts@)[j],
                    crate::names::CharClass::Word,
                ),
        decreases parts@.len() - k,
    {
        proof {
            assert(views(parts@)[k as int] == parts@[k as int]@);
            assert(parts@[k as int]@.skip(0) =~= parts@[k as int]@);
        }
        if parts[k].len() == 0 || !crate::names::all_chars_in(
            parts[k].as_slice(),
            0,
            crate::names::CharClass::Word,
        ) {
            return false;
        }
        k = k + 1;
    }
    true
}

/// Accepts a manifest list that is within the inventory bound and repeats
/// no value.
pub fn require_unique(label: &str, values: &Vec<String>) -> (r: Result<(), AdapterError>)
    ensures
        r is Ok <==> (values@.len() <= MAX_INVENTORY && !has_duplicates(string_views(values@))),
        values@.len() > MAX_INVENTORY ==> (r matches Err(AdapterError::Unit(m)) && m@ == label@
            + " exceeds 100000 entries"@),
        values@.len() <= MAX_INVENTORY && has_duplicates(string_views(values@)) ==> (r matches Err(
            AdapterError::Unit(m),
        ) && m@ == label@ + " contains duplicates"@),
{
    let lists = char_lists(values);
    match crate::inventory::sorted_unique_chars(&lists) {
        Ok(_) => Ok(()),
        Err(crate::inventory::InventoryFault::TooLarge) => Err(AdapterError::Unit(prefixed(label, " exceeds 100000 entries"))),
        Err(crate::inventory::InventoryFault::Duplicates) => Err(AdapterError::Unit(prefixed(label, " contains duplicates"))),
    }
}

/// Requires the registered harness inventory to equal Kani's observed one.
pub fn exact_inventory(expected: &Vec<String>, actual: &Vec<String>) -> (r: Result<(), AdapterError>)
    ensures
        (expected@.len() == 0 || actual@.len() == 0) ==> (r matches Err(AdapterError::ToolOutput(m))
            && m@ == "Kani requires a nonempty registered and observed harness inventory"@),
        expected@.len() > 0 && actual@.len() > 0 ==> (r is Ok <==> string_views(actual@)
            == crate::inventory::sorted_list(string_views(expected@))),
        expected@.len() > 0 && actual@.len() > 0 && string_views(actual@)
            != crate::inventory::sorted_list(string_views(expected@)) ==> (r matches Err(
            AdapterError::ToolOutput(m),
        ) && m@ == "Kani harness inventory mismatch; missing="@ + debug_strings(
            missing_from(crate::inventory::sorted_list(string_views(expected@)), string_views(actual@)),
        ) + ", extra="@ + debug_strings(
            missing_from(string_views(actual@), crate::inventory::sorted_list(string_views(expected@))),
        )),
{
    if expected.len() == 0 || actual.len() == 0 {
        return Err(AdapterError::ToolOutput("Kani requires a nonempty registered and observed harness inventory".to_owned()));
    }
    let e = char_lists(expected);
    let a = char_lists(actual);
    let sorted = crate::inventory::sort_chars(&e);
    if crate::inventory::lists_equal(&sorted, &a) {
        return Ok(());
    }
    let missing = crate::inventory::missing_names(&sorted, &a);
    let extra = crate::inventory::missing_names(&a, &sorted);
    let mut m = "Kani harness inventory mismatch; missing=".to_owned();
    m.append(debug_list(&strings_of(&missing)).as_str());
    m.append(", extra=");
    m.append(debug_list(&strings_of(&extra)).as_str());
    Err(AdapterError::ToolOutput(m))
}

} // verus!

verus! {

/// The first whitespace-separated word that starts with a digit.
pub open spec fn first_numeric_word(words: Seq<Seq<char>>) -> Option<Seq<char>>
    decreases words.len(),
{
    if words.len() == 0 {
        None
    } else if words[0].len() > 0 && crate::names::is_dec(words[0][0]) {
        Some(words[0])
    } else {
        first_numeric_word(words.drop_first())
    }
}

/// A version of digits and dots.
pub open spec fn is_dotted_number(s: Seq<char>) -> bool {
    forall|i: int| 0 <= i < s.len() ==> crate::names::is_dec(#[trigger] s[i]) || s[i] == '.'
}

/// What `parse_version` makes of the version text (`stdout`, or `stderr`
/// when `stdout` is empty), decoded as UTF-8.
pub open spec fn version_result(text: Seq<char>) -> Result<Seq<char>, Seq<char>> {
    match first_numeric_word(crate::text::words(crate::text::trim(text))) {
        None => Err("Kani --version did not contain a version"@),
        Some(v) => if is_dotted_number(v) {
            Ok(v)
        } else {
            Err("unsupported Kani version token `"@ + v + "`"@)
        },
    }
}

/// The Kani version from its `--version` output.
pub fn parse_version(stdout: &[u8], stderr: &[u8]) -> (r: Result<String, AdapterError>)
    ensures
        ({
            let combined = if stdout@.len() == 0 { stderr@ } else { stdout@ };
            if !vstd::utf8::valid_utf8(combined) {
                r matches Err(AdapterError::ToolOutput(m)) && m@ == crate::text::utf8_error_text(combined)
            } else {
                match version_result(vstd::utf8::decode_utf8(combined)) {
                    Ok(v) => r matches Ok(s) && s@ == v,
                    Err(m) => r matches Err(AdapterError::ToolOutput(e)) && e@ == m,
                }
            }
        }),
{
    let combined = if stdout.len() == 0 { stderr } else { stdout };
    let text = match crate::text::utf8_text(combined) {
        Ok(t) => t,
        Err(e) => {
            return Err(AdapterError::ToolOutput(e));
        },
    };
    let chars = chars_of(text.as_str());
    let k = crate::text::trim_start_len(chars.as_slice());
    let mut rest: Vec<char> = Vec::new();
    crate::text::extend_range(&mut rest, chars.as_slice(), k, chars.len());
    let n = crate::text::trim_end_len(rest.as_slice());
    let mut trimmed: Vec<char> = Vec::new();
    crate::text::extend_range(&mut trimmed, rest.as_slice(), 0, n);
    proof {
        assert(rest@ =~= chars@.skip(k as int));
        assert(trimmed@ =~= rest@.take(n as int));
        assert(trimmed@ == crate::text::trim(text@));
    }
    let words = crate::text::words_of(trimmed.as_slice());
    let ghost text_view = vstd::utf8::decode_utf8(combined@);
    let mut i: usize = 0;
    proof {
        assert(views(words@).skip(0) =~= views(words@));
    }
    while i < words.len()
        invariant
            i <= words@.len(),
            first_numeric_word(views(words@)) == first_numeric_word(views(words@).skip(i as int)),
            views(words@) == crate::text::words(crate::text::trim(text_view)),
            vstd::utf8::valid_utf8(combined@),
            text_view == vstd::utf8::decode_utf8(combined@),
            combined@ == (if stdout@.len() == 0 { stderr@ } else { stdout@ }),
        decreases words@.len() - i,
    {
        let w = words[i].as_slice();
        proof {
            assert(views(words@).skip(i as int)[0] == w@);
            assert(views(words@).skip(i as int).drop_first() =~= views(words@).skip(i + 1));
        }
        if w.len() > 0 && '0' <= w[0] && w[0] <= '9' {
            let mut j: usize = 0;
            while j < w.len()
                invariant
                    j <= w@.len(),
                    forall|q: int| 0 <= q < j ==> crate::names::is_dec(#[trigger] w@[q]) || w@[q] == '.',
                    first_numeric_word(views(words@)) == Some(w@),
                    views(words@) == crate::text::words(crate::text::trim(text_view)),
                    vstd::utf8::valid_utf8(combined@),
                    text_view == vstd::utf8::decode_utf8(combined@),
                    combined@ == (if stdout@.len() == 0 { stderr@ } else { stdout@ }),
                decreases w@.len() - j,
            {
                if !(('0' <= w[j] && w[j] <= '9') || w[j] == '.') {
                    proof {
                        assert(!(crate::names::is_dec(w@[j as int]) || w@[j as int] == '.'));
                    }
                    let token = string_of(w);
                    return Err(AdapterError::ToolOutput(framed("unsupported Kani version token `", token.as_str(), "`")));
                }
                j = j + 1;
            }
            return Ok(string_of(w));
        }
        i = i + 1;
    }
    proof {
        assert(views(words@).skip(i as int) =~= Seq::<Seq<char>>::empty());
    }
    Err(AdapterError::ToolOutput("Kani --version did not contain a version".to_owned()))
}

} // verus!

verus! {

/// `path` without one leading `./`.
pub open spec fn strip_dot_slash(path: Seq<char>) -> Seq<char> {
    if path.len() >= 2 && path[0] == '.' && path[1] == '/' {
        path.skip(2)
    } else {
        path
    }
}

/// Accepts a source path from Kani metadata (a leading `./` allowed).
pub fn validate_metadata_path(path: &str) -> (r: Result<(), AdapterError>)
    ensures
        r is Ok <==> crate::paths::is_relative_path(strip_dot_slash(path@)),
        r matches Err(e) ==> (e matches AdapterError::ToolOutput(m) && m@
            == "unsafe source path in Kani metadata: `"@ + strip_dot_slash(path@) + "`"@),
{
    let chars = chars_of(path);
    let stripped = if chars.len() >= 2 && chars[0] == '.' && chars[1] == '/' {
        let mut rest: Vec<char> = Vec::new();
        crate::text::extend_range(&mut rest, chars.as_slice(), 2, chars.len());
        proof {
            assert(rest@ =~= path@.skip(2));
        }
        string_of(rest.as_slice())
    } else {
        path.to_owned()
    };
    if crate::paths::relative_path_ok(stripped.as_str()) {
        Ok(())
    } else {
        Err(AdapterError::ToolOutput(framed("unsafe source path in Kani metadata: `", stripped.as_str(), "`")))
    }
}

/// The totals Kani reports beside its harness lists.
#[derive(Clone, Copy, Debug, PartialEq, Eq)]
pub struct KaniTotals {
    pub standard_harnesses: usize,
    pub contract_harnesses: usize,
    pub functions_under_contract: usize,
}

/// Kani's `kani-list.json`, with each harness map as pairs in key order.
#[derive(Debug)]
pub struct KaniList {
    pub kani_version: String,
    pub file_version: String,
    pub standard_harnesses: Vec<(String, Vec<String>)>,
    pub contract_harnesses: Vec<(String, Vec<String>)>,
    pub contracts: Vec<crate::json::JsonValue>,
    pub totals: KaniTotals,
}

/// The harness groups as plain values.
pub open spec fn harness_groups(v: Seq<(String, Vec<String>)>) -> Seq<(Seq<char>, Seq<Seq<char>>)> {
    v.map_values(|p: (String, Vec<String>)| (p.0@, string_views(p.1@)))
}

/// All harnesses of all groups, group by group.
pub open spec fn flatten(groups: Seq<(Seq<char>, Seq<Seq<char>>)>) -> Seq<Seq<char>>
    decreases groups.len(),
{
    if groups.len() == 0 {
        Seq::empty()
    } else {
        flatten(groups.drop_last()) + groups.last().1
    }
}

/// The first group whose source path is unsafe.
pub open spec fn first_unsafe_source(groups: Seq<(Seq<char>, Seq<Seq<char>>)>, from: int) -> Option<int>
    decreases groups.len() - from,
{
    if from < 0 || from >= groups.len() {
        None
    } else if !crate::paths::is_relative_path(strip_dot_slash(groups[from].0)) {
        Some(from)
    } else {
        first_unsafe_source(groups, from + 1)
    }
}

/// The first harness that is not a harness path.
pub open spec fn first_invalid_harness(items: Seq<Seq<char>>, from: int) -> Option<int>
    decreases items.len() - from,
{
    if from < 0 || from >= items.len() {
        None
    } else if !is_harness_symbol(items[from]) {
        Some(from)
    } else {
        first_invalid_harness(items, from + 1)
    }
}

/// What Kani's metadata yields: its sorted harness inventory and version,
/// or the first rule it breaks.
pub open spec fn inventory_result(
    file_version: Seq<char>,
    contract_groups: nat,
    contracts: nat,
    totals: KaniTotals,
    groups: Seq<(Seq<char>, Seq<Seq<char>>)>,
) -> Result<Seq<Seq<char>>, Seq<char>> {
    let inventory = crate::inventory::sorted_list(flatten(groups));
    if file_version != "0.1"@ {
        Err("unsupported Kani list file version `"@ + file_version + "`"@)
    } else if contract_groups != 0 || contracts != 0 || totals.contract_harnesses != 0
        || totals.functions_under_contract != 0 {
        Err("contract harnesses are outside the initial adapter profile"@)
    } else if first_unsafe_source(groups, 0) is Some {
        Err("unsafe source path in Kani metadata: `"@ + strip_dot_slash(
            groups[first_unsafe_source(groups, 0)->0].0,
        ) + "`"@)
    } else if inventory.len() != totals.standard_harnesses {
        Err("Kani metadata totals do not match its harness list"@)
    } else if inventory.len() > MAX_INVENTORY || has_duplicates(inventory) {
        Err("Kani metadata contains too many or duplicate harnesses"@)
    } else if first_invalid_harness(inventory, 0) is Some {
        Err("invalid metadata harness `"@ + inventory[first_invalid_harness(inventory, 0)->0]
            + "`"@)
    } else {
        Ok(inventory)
    }
}

/// Validates Kani's harness metadata and returns its sorted harness
/// inventory with the Kani version.
#[verifier::loop_isolation(false)]
pub fn parse_kani_inventory(list: &KaniList) -> (r: Result<(Vec<String>, String), AdapterError>)
    ensures
        match inventory_result(
            list.file_version@,
            list.contract_harnesses@.len(),
            list.contracts@.len(),
            list.totals,
            harness_groups(list.standard_harnesses@),
        ) {
            Ok(inventory) => r matches Ok((items, version)) && string_views(items@) == inventory
                && version@ == list.kani_version@,
            Err(m) => r matches Err(AdapterError::ToolOutput(e)) && e@ == m,
        },
{
    let groups = &list.standard_harnesses;
    let ghost g = harness_groups(groups@);
    let expected_version = chars_of("0.1");
    let version = chars_of(list.file_version.as_str());
    if crate::inventory::compare_chars(version.as_slice(), expected_version.as_slice()) != 0 {
        return Err(AdapterError::ToolOutput(framed("unsupported Kani list file version `", list.file_version.as_str(), "`")));
    }
    if list.contract_harnesses.len() != 0 || list.contracts.len() != 0
        || list.totals.contract_harnesses != 0 || list.totals.functions_under_contract != 0 {
        return Err(AdapterError::ToolOutput("contract harnesses are outside the initial adapter profile".to_owned()));
    }
    let mut all: Vec<Vec<char>> = Vec::new();
    let mut i: usize = 0;
    while i < groups.len()
        invariant
            g == harness_groups(groups@),
            i <= g.len(),
            first_unsafe_source(g, 0) == first_unsafe_source(g, i as int),
            views(all@) == flatten(g.take(i as int)),
        decreases g.len() - i,
    {
        proof {
            assert(g[i as int] == (groups@[i as int].0@, string_views(groups@[i as int].1@)));
        }
        match validate_metadata_path(groups[i].0.as_str()) {
            Ok(()) => {},
            Err(e) => {
                proof {
                    assert(first_unsafe_source(g, i as int) == Some(i as int));
                }
                return Err(e);
            },
        }
        let lists = char_lists(&groups[i].1);
        let ghost before = views(all@);
        let mut k: usize = 0;
        while k < lists.len()
            invariant
                k <= lists@.len(),
                views(all@) == before + views(lists@).take(k as int),
            decreases lists@.len() - k,
        {
            let mut copy: Vec<char> = Vec::new();
            crate::text::extend_chars(&mut copy, lists[k].as_slice());
            let ghost mid = views(all@);
            all.push(copy);
            proof {
                assert(views(all@) =~= mid.push(lists@[k as int]@));
                assert(views(lists@).take(k + 1) =~= views(lists@).take(k as int).push(
                    views(lists@)[k as int],
                ));
                assert(before + views(lists@).take(k + 1) =~= before + views(lists@).take(k as int)
                    + seq![views(lists@)[k as int]]);
            }
            k = k + 1;
        }
        proof {
            assert(views(lists@).take(lists@.len() as int) =~= views(lists@));
            let t = g.take(i + 1);
            assert(t.drop_last() =~= g.take(i as int));
            assert(t.last() == g[i as int]);
        }
        i = i + 1;
    }
    proof {
        assert(g.take(g.len() as int) =~= g);
    }
    let sorted = crate::inventory::sort_chars(&all);
    if sorted.len() != list.totals.standard_harnesses {
        return Err(AdapterError::ToolOutput("Kani metadata totals do not match its harness list".to_owned()));
    }
    match crate::inventory::sorted_unique_chars(&sorted) {
        Ok(_) => {},
        Err(_) => {
            return Err(AdapterError::ToolOutput("Kani metadata contains too many or duplicate harnesses".to_owned()));
        },
    }
    let inventory = strings_of(&sorted);
    let mut j: usize = 0;
    proof {
        assert(views(sorted@).len() == sorted@.len());
    }
    while j < inventory.len()
        invariant
            j <= inventory@.len(),
            string_views(inventory@) == views(sorted@),
            first_invalid_harness(views(sorted@), 0) == first_invalid_harness(
                views(sorted@),
                j as int,
            ),
        decreases inventory@.len() - j,
    {
        proof {
            assert(string_views(inventory@)[j as int] == inventory@[j as int]@);
        }
        if !safe_symbol(inventory[j].as_str()) {
            return Err(AdapterError::ToolOutput(framed("invalid metadata harness `", inventory[j].as_str(), "`")));
        }
        j = j + 1;
    }
    Ok((inventory, list.kani_version.as_str().to_owned()))
}

} // verus!

verus! {

/// What a model-check unit selects for one Kani run.
#[derive(Clone, Debug)]
pub struct ModelCheck {
    pub schema: String,
    pub adapter: String,
    pub id: String,
    pub package: String,
    pub harnesses: Vec<String>,
    pub claims: Vec<String>,
    pub domain: BoundedDomain,
    pub solver: String,
    pub unwind: u64,
    pub resource_budget: crate::audit::ResourceBudget,
}

/// The exact Kani argument vector: package, each harness, solver, unwind
/// bound and a target directory inside the run root.
pub open spec fn check_args(
    package: Seq<char>,
    harnesses: Seq<Seq<char>>,
    solver: Seq<char>,
    unwind: nat,
    run_root: Seq<char>,
) -> Seq<Seq<char>> {
    seq!["kani"@, "--package"@, package, "--exact"@] + crate::process::flag_pairs(
        "--harness"@,
        harnesses,
    ) + seq![
        "--solver"@,
        solver,
        "--unwind"@,
        decimal(unwind),
        "--target-dir"@,
        crate::process::join_path(run_root, "kani-target"@),
    ]
}

/// Builds the typed Kani argument vector.
pub fn build_check_args(model: &ModelCheck, run_root: &str) -> (args: Vec<String>)
    ensures
        string_views(args@) == check_args(
            model.package@,
            string_views(model.harnesses@),
            model.solver@,
            model.unwind as nat,
            run_root@,
        ),
{
    let mut args: Vec<String> = Vec::new();
    args.push("kani".to_owned());
    args.push("--package".to_owned());
    args.push(model.package.as_str().to_owned());
    args.push("--exact".to_owned());
    let ghost head = string_views(args@);
    crate::process::push_flag_pairs(&mut args, "--harness", &model.harnesses);
    let ghost middle = string_views(args@);
    args.push("--solver".to_owned());
    args.push(model.solver.as_str().to_owned());
    args.push("--unwind".to_owned());
    let mut unwind = String::new();
    push_decimal(&mut unwind, model.unwind);
    args.push(unwind);
    args.push("--target-dir".to_owned());
    args.push(crate::process::joined_path(run_root, "kani-target"));
    proof {
        assert(head =~= seq!["kani"@, "--package"@, model.package@, "--exact"@]);
        assert(unwind@ =~= decimal(model.unwind as nat));
        assert(string_views(args@) =~= middle + seq![
            "--solver"@,
            model.solver@,
            "--unwind"@,
            decimal(model.unwind as nat),
            "--target-dir"@,
            crate::process::join_path(run_root@, "kani-target"@),
        ]);
    }
    args
}

/// The bounded domain a model check covers.
#[derive(Clone, Debug)]
pub struct BoundedDomain {
    pub id: String,
    pub description: String,
    pub cardinality: u64,
    pub ordering_key: Vec<u64>,
}

/// A bounded domain as plain values.
pub open spec fn domain_view(d: BoundedDomain) -> (Seq<char>, Seq<char>, u64, Seq<u64>) {
    (d.id@, d.description@, d.cardinality, d.ordering_key@)
}

/// The evidence unit a Kani check serves, as the rules read it; kinds keep
/// their manifest spelling.
#[derive(Clone, Debug)]
pub struct KaniEvidence {
    pub schema: String,
    pub id: String,
    pub adapter: String,
    pub kind: String,
    pub operation_kind: String,
    pub package: Option<String>,
    pub targets: Vec<String>,
    pub expected_inventory: Vec<String>,
    pub claims: Vec<String>,
    pub inputs: Vec<String>,
    pub environment_allowlist: Vec<String>,
    pub bounded_domain: Option<BoundedDomain>,
    pub resource_budget: crate::audit::ResourceBudget,
}

/// The fault of a list beyond the inventory bound or with a repeat.
pub open spec fn unique_fault(label: Seq<char>, values: Seq<Seq<char>>) -> Option<Seq<char>> {
    if values.len() > MAX_INVENTORY {
        Some(label + " exceeds 100000 entries"@)
    } else if has_duplicates(values) {
        Some(label + " contains duplicates"@)
    } else {
        None
    }
}

/// What is wrong with a Kani evidence unit, if anything (an invalid-unit
/// message).
pub open spec fn evidence_unit_fault(e: KaniEvidence) -> Option<Seq<char>> {
    if e.schema@ != "proofbound-evidence-unit/1"@ || e.adapter@ != "kani"@ || e.operation_kind@ != "kani"@
        || e.kind@ != "bounded-check"@ {
        Some("expected a proofbound-evidence-unit/1 bounded-check Kani operation"@)
    } else if unique_fault("claims"@, string_views(e.claims@)) is Some {
        unique_fault("claims"@, string_views(e.claims@))
    } else if unique_fault("expected_inventory"@, string_views(e.expected_inventory@)) is Some {
        unique_fault("expected_inventory"@, string_views(e.expected_inventory@))
    } else if unique_fault("operation.targets"@, string_views(e.targets@)) is Some {
        unique_fault("operation.targets"@, string_views(e.targets@))
    } else if unique_fault("inputs"@, string_views(e.inputs@)) is Some {
        unique_fault("inputs"@, string_views(e.inputs@))
    } else if unique_fault("environment_allowlist"@, string_views(e.environment_allowlist@)) is Some {
        unique_fault("environment_allowlist"@, string_views(e.environment_allowlist@))
    } else if e.resource_budget.time_seconds == 0 || e.resource_budget.disk_bytes == 0
        || e.resource_budget.memory_bytes == 0 {
        Some("resource budgets must all be non-zero"@)
    } else {
        None
    }
}

fn unit_error(message: String) -> (e: AdapterError)
    ensures
        e matches AdapterError::Unit(m) && m@ == message@,
{
    AdapterError::Unit(message)
}

/// Checks the evidence unit of a Kani check.
pub fn validate_evidence_unit(unit: &KaniEvidence) -> (r: Result<(), AdapterError>)
    ensures
        match evidence_unit_fault(*unit) {
            None => r is Ok,
            Some(m) => (r matches Err(AdapterError::Unit(x)) && x@ == m),
        },
{
    if !str_equal(unit.schema.as_str(), "proofbound-evidence-unit/1") || !str_equal(unit.adapter.as_str(), "kani")
        || !str_equal(unit.operation_kind.as_str(), "kani") || !str_equal(unit.kind.as_str(), "bounded-check") {
        return Err(unit_error("expected a proofbound-evidence-unit/1 bounded-check Kani operation".to_owned()));
    }
    require_unique("claims", &unit.claims)?;
    require_unique("expected_inventory", &unit.expected_inventory)?;
    require_unique("operation.targets", &unit.targets)?;
    require_unique("inputs", &unit.inputs)?;
    require_unique("environment_allowlist", &unit.environment_allowlist)?;
    if unit.resource_budget.time_seconds == 0 || unit.resource_budget.disk_bytes == 0
        || unit.resource_budget.memory_bytes == 0 {
        return Err(unit_error("resource budgets must all be non-zero".to_owned()));
    }
    Ok(())
}

/// The first harness that is not a safe symbol.
pub open spec fn first_unsafe_harness(harnesses: Seq<Seq<char>>, n: nat) -> Option<Seq<char>>
    decreases n,
{
    if n == 0 || n > harnesses.len() {
        None
    } else {
        match first_unsafe_harness(harnesses, (n - 1) as nat) {
            Some(h) => Some(h),
            None => if is_safe_symbol(harnesses[n - 1]) {
                None
            } else {
                Some(harnesses[n - 1])
            },
        }
    }
}

/// What is wrong with a model-check unit judged against its evidence unit,
/// if anything (an invalid-unit message).
pub open spec fn model_unit_fault(e: KaniEvidence, m: ModelCheck) -> Option<Seq<char>> {
    let harnesses = string_views(m.harnesses@);
    if m.schema@ != "proofbound-model-check-unit/1"@ || m.adapter@ != ADAPTER_ID@ {
        Some("referenced manifest is not a Kani model-check unit"@)
    } else if unique_fault("model harnesses"@, harnesses) is Some {
        unique_fault("model harnesses"@, harnesses)
    } else if unique_fault("model claims"@, string_views(m.claims@)) is Some {
        unique_fault("model claims"@, string_views(m.claims@))
    } else if harnesses.len() == 0 || m.claims@.len() == 0 {
        Some("model-check unit requires at least one harness and claim"@)
    } else if e.id@ != m.id@ || !(e.package matches Some(p) && p@ == m.package@) || string_views(
        e.targets@,
    ) != harnesses || string_views(e.expected_inventory@) != harnesses || string_views(e.claims@)
        != string_views(m.claims@) || e.resource_budget != m.resource_budget || !(
    e.bounded_domain matches Some(d) && domain_view(d) == domain_view(m.domain)) {
        Some(
            "evidence and model-check manifests disagree on id, package, harnesses, claims, domain, or budget"@,
        )
    } else if m.unwind == 0 || crate::text::trim(m.solver@).len() == 0 || !is_safe_atom(m.package@)
        || !is_safe_atom(m.solver@) {
        Some("package, solver, and unwind are invalid"@)
    } else {
        match first_unsafe_harness(harnesses, harnesses.len()) {
            Some(h) => Some("invalid harness name `"@ + h + "`"@),
            None => None,
        }
    }
}

fn same_strings(a: &Vec<String>, b: &Vec<String>) -> (r: bool)
    ensures
        r == (string_views(a@) == string_views(b@)),
{
    crate::inventory::lists_equal(&char_lists(a), &char_lists(b))
}

fn same_domain(a: &BoundedDomain, b: &BoundedDomain) -> (r: bool)
    ensures
        r == (domain_view(*a) == domain_view(*b)),
{
    if !str_equal(a.id.as_str(), b.id.as_str()) || !str_equal(a.description.as_str(), b.description.as_str())
        || a.cardinality != b.cardinality || a.ordering_key.len() != b.ordering_key.len() {
        return false;
    }
    let mut i: usize = 0;
    while i < a.ordering_key.len()
        invariant
            i <= a.ordering_key@.len(),
            a.ordering_key@.len() == b.ordering_key@.len(),
            forall|k: int| 0 <= k < i ==> a.ordering_key@[k] == b.ordering_key@[k],
        decreases a.ordering_key@.len() - i,
    {
        if a.ordering_key[i] != b.ordering_key[i] {
            return false;
        }
        i = i + 1;
    }
    proof {
        assert(a.ordering_key@ =~= b.ordering_key@);
    }
    true
}

/// Checks a model-check unit against the evidence unit it serves.
#[verifier::loop_isolation(false)]
pub fn validate_model_unit(evidence: &KaniEvidence, model: &ModelCheck) -> (r: Result<(), AdapterError>)
    ensures
        match model_unit_fault(*evidence, *model) {
            None => r is Ok,
            Some(m) => (r matches Err(AdapterError::Unit(x)) && x@ == m),
        },
{
    if !str_equal(model.schema.as_str(), "proofbound-model-check-unit/1") || !str_equal(model.adapter.as_str(), ADAPTER_ID) {
        return Err(unit_error("referenced manifest is not a Kani model-check unit".to_owned()));
    }
    require_unique("model harnesses", &model.harnesses)?;
    require_unique("model claims", &model.claims)?;
    if model.harnesses.len() == 0 || model.claims.len() == 0 {
        return Err(unit_error("model-check unit requires at least one harness and claim".to_owned()));
    }
    let package_ok = match &evidence.package {
        Some(p) => str_equal(p.as_str(), model.package.as_str()),
        None => false,
    };
    let domain_ok = match &evidence.bounded_domain {
        Some(d) => same_domain(d, &model.domain),
        None => false,
    };
    if !str_equal(evidence.id.as_str(), model.id.as_str()) || !package_ok || !same_strings(&evidence.targets, &model.harnesses)
        || !same_strings(&evidence.expected_inventory, &model.harnesses) || !same_strings(&evidence.claims, &model.claims)
        || evidence.resource_budget != model.resource_budget || !domain_ok {
        return Err(
            unit_error(
                "evidence and model-check manifests disagree on id, package, harnesses, claims, domain, or budget".to_owned(),
            ),
        );
    }
    if model.unwind == 0 || crate::lean::is_blank(model.solver.as_str()) || !crate::names::safe_atom(model.package.as_str())
        || !crate::names::safe_atom(model.solver.as_str()) {
        return Err(unit_error("package, solver, and unwind are invalid".to_owned()));
    }
    let ghost hs = string_views(model.harnesses@);
    let mut i: usize = 0;
    while i < model.harnesses.len()
        invariant
            i <= hs.len(),
            hs == string_views(model.harnesses@),
            first_unsafe_harness(hs, i as nat) is None,
        decreases hs.len() - i,
    {
        proof {
            assert(hs[i as int] == model.harnesses@[i as int]@);
            lemma_unsafe_harness_extends(hs, (i + 1) as nat, hs.len());
        }
        if !crate::names::safe_symbol(model.harnesses[i].as_str()) {
            let mut m = "invalid harness name `".to_owned();
            m.append(model.harnesses[i].as_str());
            m.append("`");
            return Err(unit_error(m));
        }
        i = i + 1;
    }
    Ok(())
}

proof fn lemma_unsafe_harness_extends(harnesses: Seq<Seq<char>>, m: nat, n: nat)
    requires
        m <= n <= harnesses.len(),
    ensures
        first_unsafe_harness(harnesses, m) is Some ==> first_unsafe_harness(harnesses, n)
            == first_unsafe_harness(harnesses, m),
    decreases n - m,
{
    if m < n {
        lemma_unsafe_harness_extends(harnesses, m, (n - 1) as nat);
    }
}


/// A model-check unit `validate_model_unit` accepts agrees with its
/// evidence unit on everything the evidence rests on: the id, the package,
/// the harnesses (the evidence unit's targets and expected inventory), the
/// claims, the budget and the bounded domain. A model check is never
/// accepted as evidence for a claim it does not name.
pub proof fn lemma_accepted_model_check_agrees_with_its_evidence(e: KaniEvidence, m: ModelCheck)
    requires
        model_unit_fault(e, m) is None,
    ensures
        e.id@ == m.id@,
        e.package is Some && e.package->0@ == m.package@,
        string_views(e.targets@) == string_views(m.harnesses@),
        string_views(e.expected_inventory@) == string_views(m.harnesses@),
        forall|i: int| 0 <= i < e.claims@.len() ==> m.claims@[i]@ == #[trigger] e.claims@[i]@,
        e.claims@.len() == m.claims@.len(),
        e.resource_budget == m.resource_budget,
        e.bounded_domain is Some && domain_view(e.bounded_domain->0) == domain_view(m.domain),
        m.claims@.len() > 0 && m.harnesses@.len() > 0,
{
    assert(string_views(e.claims@).len() == e.claims@.len());
    assert(string_views(m.claims@).len() == m.claims@.len());
    assert forall|i: int| 0 <= i < e.claims@.len() implies m.claims@[i]@ == #[trigger] e.claims@[i]@ by {
        assert(string_views(e.claims@)[i] == e.claims@[i]@);
        assert(string_views(m.claims@)[i] == m.claims@[i]@);
    }
}

} // verus!
