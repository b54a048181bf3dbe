//! The Charon/Aeneas translation adapter: its constants, failures and the
//! decisions it makes about manifests, symbols and tool output.
use vstd::prelude::*;
use crate::inventory::{
    compare_chars, sorted_set_of, compare_sets, missing_from, sorted_set, sorted_unique_chars, has_duplicates, InventoryFault,
    SetMismatch, MAX_INVENTORY,
};
use crate::normalize::{
    logicalize_spec, logicalize_with, normalize_output_with, normalize_timing_with,
    normalized_text, pair_views, timing_spec, truncate_chars, truncated,
};
use crate::process::{
    flag_pairs, push_flag_pairs, failed_run, failed_run_message, failure_detail, Diagnostic,
    ProcessOutput, ProcessSpec, MAX_MESSAGE_CHARS,
};
use crate::text::{
    chars_of, debug_list, debug_strings, decimal, push_decimal, string_of, string_views,
    strings_of, char_lists, views, join, join_strings, find, find_in, extend_range,
    lemma_find_from_props,
};

verus! {

pub const PROTOCOL_SCHEMA: &'static str = "proofbound-adapter-protocol/1";

pub const OBSERVATION_SCHEMA: &'static str = "proofbound-adapter-observation/1";

pub const ADAPTER_ID: &'static str = "charon-aeneas";

pub const MAX_REQUEST_BYTES: u64 = 2097152;

/// Why a translation request failed.
#[derive(Clone, Debug, PartialEq, Eq)]
pub enum AdapterError {
    Io(String),
    ToolUnavailable { program: String, source: String },
    Toolchain(String),
    Timeout(u64),
    Request(String),
    Unit(String),
    UnsafePath(String),
    Inventory(String),
    Determinism(String),
    Generated(String),
    ToolFailed(String),
    Budget(String),
    Internal(String),
}

/// `prefix ++ body ++ suffix` as a string.
pub fn framed(prefix: &str, body: &str, suffix: &str) -> (s: String)
    ensures
        s@ == prefix@ + body@ + suffix@,
{
    let mut s = prefix.to_owned();
    s.append(body);
    s.append(suffix);
    s
}

/// `prefix ++ body` as a string.
pub fn prefixed(prefix: &str, body: &str) -> (s: String)
    ensures
        s@ == prefix@ + body@,
{
    let mut s = prefix.to_owned();
    s.append(body);
    s
}

impl AdapterError {
    /// The stable diagnostic code of each failure class.
    pub open spec fn code_spec(&self) -> Seq<char> {
        match *self {
            AdapterError::ToolUnavailable { .. } => "PB-AENEAS-1001"@,
            AdapterError::Toolchain(_) => "PB-AENEAS-1002"@,
            AdapterError::Timeout(_) | AdapterError::Budget(_) => "PB-AENEAS-1003"@,
            AdapterError::Request(_) => "PB-AENEAS-1004"@,
            AdapterError::Unit(_) => "PB-AENEAS-1005"@,
            AdapterError::UnsafePath(_) => "PB-AENEAS-1006"@,
            AdapterError::Inventory(_) => "PB-AENEAS-1007"@,
            AdapterError::Determinism(_) => "PB-AENEAS-1008"@,
            AdapterError::Generated(_) => "PB-AENEAS-1009"@,
            AdapterError::ToolFailed(_) => "PB-AENEAS-1010"@,
            AdapterError::Io(_) | AdapterError::Internal(_) => "PB-AENEAS-1099"@,
        }
    }

    /// The stable diagnostic code.
    pub fn code(&self) -> (s: &'static str)
        ensures
            s@ == self.code_spec(),
    {
        match self {
            AdapterError::ToolUnavailable { .. } => "PB-AENEAS-1001",
            AdapterError::Toolchain(_) => "PB-AENEAS-1002",
            AdapterError::Timeout(_) | AdapterError::Budget(_) => "PB-AENEAS-1003",
            AdapterError::Request(_) => "PB-AENEAS-1004",
            AdapterError::Unit(_) => "PB-AENEAS-1005",
            AdapterError::UnsafePath(_) => "PB-AENEAS-1006",
            AdapterError::Inventory(_) => "PB-AENEAS-1007",
            AdapterError::Determinism(_) => "PB-AENEAS-1008",
            AdapterError::Generated(_) => "PB-AENEAS-1009",
            AdapterError::ToolFailed(_) => "PB-AENEAS-1010",
            AdapterError::Io(_) | AdapterError::Internal(_) => "PB-AENEAS-1099",
        }
    }

    /// What the operator should do about the failure.
    pub open spec fn remediation_spec(&self) -> Seq<char> {
        match *self {
            AdapterError::ToolUnavailable { .. } => "install the manifest-pinned Charon and Aeneas executables and expose them through PATH"@,
            AdapterError::Toolchain(_) => "pin concrete Charon/Aeneas revisions and matching Rust/Lean toolchains before translating"@,
            AdapterError::Timeout(_) | AdapterError::Budget(_) => "review the workload and increase the manifest budget only if justified"@,
            AdapterError::Request(_) => "send canonical proofbound-adapter-protocol/1 JSON with no unknown fields"@,
            AdapterError::Unit(_) => "make the evidence, translation, project, and toolchain manifests agree exactly"@,
            AdapterError::UnsafePath(_) => "use relative non-symlink paths contained by their declared ownership tree"@,
            AdapterError::Inventory(_) => "make translated symbol/report inventory match the authoritative translation manifest"@,
            AdapterError::Determinism(_) => "reproduce both runs and remove nondeterminism before accepting generated output"@,
            AdapterError::Generated(_) => "regenerate with update after reviewing bridge, axiom, warning, and ownership changes"@,
            AdapterError::ToolFailed(_) => "reproduce the typed Charon/Aeneas invocation and fix extraction or translation"@,
            AdapterError::Io(_) | AdapterError::Internal(_) => "inspect the diagnostic and retry from a clean checkout"@,
        }
    }


    /// What the operator should do about the failure.
    pub fn remediation(&self) -> (s: &'static str)
        ensures
            s@ == self.remediation_spec(),
    {
        match self {
            AdapterError::ToolUnavailable { .. } => "install the manifest-pinned Charon and Aeneas executables and expose them through PATH",
            AdapterError::Toolchain(_) => "pin concrete Charon/Aeneas revisions and matching Rust/Lean toolchains before translating",
            AdapterError::Timeout(_) | AdapterError::Budget(_) => "review the workload and increase the manifest budget only if justified",
            AdapterError::Request(_) => "send canonical proofbound-adapter-protocol/1 JSON with no unknown fields",
            AdapterError::Unit(_) => "make the evidence, translation, project, and toolchain manifests agree exactly",
            AdapterError::UnsafePath(_) => "use relative non-symlink paths contained by their declared ownership tree",
            AdapterError::Inventory(_) => "make translated symbol/report inventory match the authoritative translation manifest",
            AdapterError::Determinism(_) => "reproduce both runs and remove nondeterminism before accepting generated output",
            AdapterError::Generated(_) => "regenerate with update after reviewing bridge, axiom, warning, and ownership changes",
            AdapterError::ToolFailed(_) => "reproduce the typed Charon/Aeneas invocation and fix extraction or translation",
            AdapterError::Io(_) | AdapterError::Internal(_) => "inspect the diagnostic and retry from a clean checkout",
        }
    }

    /// The human-readable sentence for the failure.
    pub open spec fn message_spec(&self) -> Seq<char> {
        match *self {
            AdapterError::Io(m) => "I/O error: "@ + m@,
            AdapterError::ToolUnavailable { program, source } => "translation tool `"@ + program@
                + "` is unavailable: "@ + source@,
            AdapterError::Toolchain(m) => "translation toolchain is unavailable or unpinned: "@
                + m@,
            AdapterError::Timeout(ms) => "tool exceeded its "@ + decimal(ms as nat)
                + " ms time budget"@,
            AdapterError::Request(m) => "invalid request: "@ + m@,
            AdapterError::Unit(m) => "invalid translation unit: "@ + m@,
            AdapterError::UnsafePath(p) => "unsafe path `"@ + p@ + "`"@,
            AdapterError::Inventory(m) => "translation inventory is invalid: "@ + m@,
            AdapterError::Determinism(m) => "deterministic translation check failed: "@ + m@,
            AdapterError::Generated(m) => "generated artifact audit failed: "@ + m@,
            AdapterError::ToolFailed(m) => "translation tool failed: "@ + m@,
            AdapterError::Budget(m) => "resource budget exceeded: "@ + m@,
            AdapterError::Internal(m) => "internal adapter error: "@ + m@,
        }
    }

    /// The human-readable sentence for the failure.
    pub fn message(&self) -> (s: String)
        ensures
            s@ == self.message_spec(),
    {
        match self {
            AdapterError::Io(m) => prefixed("I/O error: ", m.as_str()),
            AdapterError::ToolUnavailable { program, source } => {
                let mut s = framed("translation tool `", program.as_str(), "` is unavailable: ");
                s.append(source.as_str());
                s
            },
            AdapterError::Toolchain(m) => prefixed("translation toolchain is unavailable or unpinned: ", m.as_str()),
            AdapterError::Timeout(ms) => {
                let mut s = "tool exceeded its ".to_owned();
                push_decimal(&mut s, *ms);
                s.append(" ms time budget");
                s
            },
            AdapterError::Request(m) => prefixed("invalid request: ", m.as_str()),
            AdapterError::Unit(m) => prefixed("invalid translation unit: ", m.as_str()),
            AdapterError::UnsafePath(p) => framed("unsafe path `", p.as_str(), "`"),
            AdapterError::Inventory(m) => prefixed("translation inventory is invalid: ", m.as_str()),
            AdapterError::Determinism(m) => prefixed("deterministic translation check failed: ", m.as_str()),
            AdapterError::Generated(m) => prefixed("generated artifact audit failed: ", m.as_str()),
            AdapterError::ToolFailed(m) => prefixed("translation tool failed: ", m.as_str()),
            AdapterError::Budget(m) => prefixed("resource budget exceeded: ", m.as_str()),
            AdapterError::Internal(m) => prefixed("internal adapter error: ", m.as_str()),
        }
    }

    /// The protocol diagnostic: code, message cut to 8192 characters, the
    /// unsafe path if any, and the remediation.
    pub fn diagnostic(&self) -> (d: Diagnostic)
        ensures
            d.code@ == self.code_spec(),
            d.message@ == truncated(self.message_spec(), MAX_MESSAGE_CHARS as nat),
            (d.path is Some) <==> (self is UnsafePath),
            self matches AdapterError::UnsafePath(p) ==> d.path matches Some(q) && q@ == p@,
            d.remediation matches Some(r) && r@ == self.remediation_spec(),
    {
        let message = self.message();
        let path = match self {
            AdapterError::UnsafePath(p) => Some(p.as_str().to_owned()),
            _ => None,
        };
        Diagnostic {
            code: self.code().to_owned(),
            message: truncate_chars(message.as_str(), MAX_MESSAGE_CHARS),
            path,
            remediation: Some(self.remediation().to_owned()),
        }
    }
}

/// The timing markers of Charon/Aeneas output.
pub open spec fn timing_markers() -> Seq<Seq<char>> {
    seq!["; finished in "@, " completed in "@, " elapsed: "@]
}

/// Masks the duration that follows a timing marker.
pub fn normalize_timing_line(line: &str) -> (out: String)
    ensures
        out@ == timing_spec(line@, timing_markers()),
{
    let markers = crate::names::markers_of(&["; finished in ", " completed in ", " elapsed: "]);
    proof {
        assert(views(markers@) =~= timing_markers());
    }
    let chars = chars_of(line);
    let out = normalize_timing_with(chars.as_slice(), &markers);
    string_of(out.as_slice())
}

/// The replacements that make a run's output machine-independent: the
/// shadow project root and the real project root both become `$PROJECT`.
pub open spec fn output_replacements(shadow_root: Seq<char>, project_root: Seq<char>) -> Seq<
    (Seq<char>, Seq<char>),
> {
    seq![(shadow_root, "$PROJECT"@), (project_root, "$PROJECT"@)]
}

/// The normalized output of a Charon/Aeneas run, as UTF-8 bytes.
pub fn normalize_process_output(
    stdout: &[u8],
    stderr: &[u8],
    shadow_root: &str,
    project_root: &str,
) -> (out: Vec<u8>)
    ensures
        out@ == vstd::utf8::encode_utf8(
            normalized_text(
                stdout@,
                stderr@,
                output_replacements(shadow_root@, project_root@),
                timing_markers(),
            ),
        ),
{
    let markers = crate::names::markers_of(&["; finished in ", " completed in ", " elapsed: "]);
    let mut subs: Vec<(Vec<char>, Vec<char>)> = Vec::new();
    subs.push((chars_of(shadow_root), chars_of("$PROJECT")));
    subs.push((chars_of(project_root), chars_of("$PROJECT")));
    proof {
        assert(views(markers@) =~= timing_markers());
        assert(pair_views(subs@) =~= output_replacements(shadow_root@, project_root@));
    }
    normalize_output_with(stdout, stderr, &subs, &markers)
}

/// The scratch-directory marker of this adapter.
pub open spec fn temp_marker() -> Seq<char> {
    "/proofbound-aeneas-"@
}

/// Rewrites a path inside this adapter's scratch directory to its logical
/// spelling.
pub fn logicalize_temp_path(value: &str) -> (out: String)
    ensures
        out@ == logicalize_spec(value@, temp_marker()),
{
    logicalize_with(value, "/proofbound-aeneas-")
}

/// Each argument with its scratch paths logicalized.
pub fn logical_args(args: &Vec<String>) -> (out: Vec<String>)
    ensures
        out@.len() == args@.len(),
        forall|k: int| 0 <= k < args@.len() ==> #[trigger] out@[k]@ == logicalize_spec(
            args@[k]@,
            temp_marker(),
        ),
{
    let mut out: Vec<String> = Vec::new();
    let mut i: usize = 0;
    while i < args.len()
        invariant
            i <= args@.len(),
            out@.len() == i,
            forall|k: int| 0 <= k < i ==> #[trigger] out@[k]@ == logicalize_spec(
                args@[k]@,
                temp_marker(),
            ),
        decreases args@.len() - i,
    {
        out.push(logicalize_temp_path(args[i].as_str()));
        i = i + 1;
    }
    out
}

/// Keeps at most 8192 characters of a message.
pub fn truncate_message(message: &str) -> (out: String)
    ensures
        out@ == truncated(message@, MAX_MESSAGE_CHARS as nat),
{
    truncate_chars(message, MAX_MESSAGE_CHARS)
}

/// Accepts a relative path of ordinary components, or names it unsafe.
pub fn validate_relative_path(path: &str) -> (r: Result<(), AdapterError>)
    ensures
        r is Ok <==> crate::paths::is_relative_path(path@),
        r matches Err(e) ==> e matches AdapterError::UnsafePath(p) && p@ == path@,
{
    if crate::paths::relative_path_ok(path) {
        Ok(())
    } else {
        Err(AdapterError::UnsafePath(path.to_owned()))
    }
}

/// The directory names that a shadow copy of the project leaves out.
pub open spec fn excluded_names() -> Seq<Seq<char>> {
    seq![
        ".git"@,
        "target"@,
        ".lake"@,
        ".proofbound"@,
        ".venv"@,
        "__pycache__"@,
        ".pytest_cache"@,
        ".mypy_cache"@,
        ".ruff_cache"@,
    ]
}

/// Whether a path lies in a directory that shadow copies leave out.
pub fn should_exclude(path: &str) -> (b: bool)
    ensures
        b == crate::paths::has_segment_in(path@, excluded_names()),
{
    let names = crate::names::markers_of(
        &[
            ".git",
            "target",
            ".lake",
            ".proofbound",
            ".venv",
            "__pycache__",
            ".pytest_cache",
            ".mypy_cache",
            ".ruff_cache",
        ],
    );
    proof {
        assert(views(names@) =~= excluded_names());
    }
    crate::paths::has_segment_of(path, &names)
}

/// Accepts a manifest list that is within the inventory bound and repeats
/// no value.
pub fn require_unique(label: &str, values: &Vec<String>) -> (r: Result<(), AdapterError>)
    ensures
        r is Ok <==> (values@.len() <= MAX_INVENTORY && !has_duplicates(string_views(values@))),
        r matches Err(e) ==> e matches AdapterError::Unit(m) && m@ == label@
            + " is too large or contains duplicates"@,
{
    let lists = char_lists(values);
    match sorted_unique_chars(&lists) {
        Ok(_) => Ok(()),
        Err(_) => Err(AdapterError::Unit(prefixed(label, " is too large or contains duplicates"))),
    }
}

/// Sorts a list, rejecting one beyond the inventory bound or with a
/// repeated value.
pub fn sorted_unique(values: Vec<String>, label: &str) -> (r: Result<Vec<String>, AdapterError>)
    ensures
        values@.len() > MAX_INVENTORY ==> (r matches Err(AdapterError::Inventory(m)) && m@ == label@
            + " exceeds 100000 entries"@),
        values@.len() <= MAX_INVENTORY && has_duplicates(string_views(values@)) ==> (r matches Err(
            AdapterError::Inventory(m),
        ) && m@ == label@ + " contains duplicates"@),
        values@.len() <= MAX_INVENTORY && !has_duplicates(string_views(values@)) ==> (r matches Ok(
            out,
        ) && string_views(out@) == sorted_set(string_views(values@))),
{
    let lists = char_lists(&values);
    match sorted_unique_chars(&lists) {
        Ok(sorted) => Ok(strings_of(&sorted)),
        Err(InventoryFault::TooLarge) => Err(AdapterError::Inventory(prefixed(label, " exceeds 100000 entries"))),
        Err(InventoryFault::Duplicates) => Err(AdapterError::Inventory(prefixed(label, " contains duplicates"))),
    }
}

/// `label mismatch; missing=[...], extra=[...]`.
pub open spec fn mismatch_message(label: Seq<char>, missing: Seq<Seq<char>>, extra: Seq<Seq<char>>) -> Seq<char> {
    label + " mismatch; missing="@ + debug_strings(missing) + ", extra="@ + debug_strings(extra)
}

/// Builds the mismatch sentence.
pub fn mismatch(label: &str, missing: &Vec<Vec<char>>, extra: &Vec<Vec<char>>) -> (s: String)
    ensures
        s@ == mismatch_message(label@, views(missing@), views(extra@)),
{
    let mut s = prefixed(label, " mismatch; missing=");
    s.append(debug_list(&strings_of(missing)).as_str());
    s.append(", extra=");
    s.append(debug_list(&strings_of(extra)).as_str());
    s
}

/// Requires two lists to name the same set; each must be bounded and free
/// of repeats (the expected one is checked first).
pub fn exact_set(label: &str, expected: &Vec<String>, actual: &Vec<String>) -> (r: Result<(), AdapterError>)
    ensures
        r is Ok <==> (expected@.len() <= MAX_INVENTORY && !has_duplicates(string_views(expected@))
            && actual@.len() <= MAX_INVENTORY && !has_duplicates(string_views(actual@))
            && crate::inventory::same_values(string_views(expected@), string_views(actual@))),
        r matches Err(e) ==> e is Inventory,
        (expected@.len() > MAX_INVENTORY || has_duplicates(string_views(expected@))) ==> (r matches Err(
            AdapterError::Inventory(m),
        ) && m@ == label@ + if expected@.len() > MAX_INVENTORY {
            " exceeds 100000 entries"@
        } else {
            " contains duplicates"@
        }),
        !(expected@.len() > MAX_INVENTORY || has_duplicates(string_views(expected@))) && (actual@.len()
            > MAX_INVENTORY || has_duplicates(string_views(actual@))) ==> (r matches Err(AdapterError::Inventory(m))
            && m@ == label@ + if actual@.len() > MAX_INVENTORY {
            " exceeds 100000 entries"@
        } else {
            " contains duplicates"@
        }),
        (expected@.len() <= MAX_INVENTORY && !has_duplicates(string_views(expected@))
            && actual@.len() <= MAX_INVENTORY && !has_duplicates(string_views(actual@))
            && !crate::inventory::same_values(string_views(expected@), string_views(actual@)))
            ==> (r matches Err(AdapterError::Inventory(m)) && m@ == mismatch_message(
            label@,
            missing_from(sorted_set(string_views(expected@)), sorted_set(string_views(actual@))),
            missing_from(sorted_set(string_views(actual@)), sorted_set(string_views(expected@))),
        )),
{
    let e = char_lists(expected);
    let a = char_lists(actual);
    match compare_sets(&e, &a) {
        Ok(()) => Ok(()),
        Err(SetMismatch::Invalid(InventoryFault::TooLarge)) => Err(AdapterError::Inventory(prefixed(label, " exceeds 100000 entries"))),
        Err(SetMismatch::Invalid(InventoryFault::Duplicates)) => Err(AdapterError::Inventory(prefixed(label, " contains duplicates"))),
        Err(SetMismatch::Differ { missing, extra }) => Err(AdapterError::Inventory(mismatch(label, &missing, &extra))),
    }
}

/// The translated start symbols must be exactly the manifest's.
pub fn exact_symbol_inventory(expected: &Vec<String>, actual: &Vec<String>) -> (r: Result<(), AdapterError>)
    ensures
        r is Ok <==> (expected@.len() <= MAX_INVENTORY && !has_duplicates(string_views(expected@))
            && actual@.len() <= MAX_INVENTORY && !has_duplicates(string_views(actual@))
            && crate::inventory::same_values(string_views(expected@), string_views(actual@))),
{
    exact_set("translated start symbols", expected, actual)
}

/// Fails a run whose output was cut short or whose exit status is not 0.
pub fn ensure_success(spec: &ProcessSpec, output: &ProcessOutput) -> (r: Result<(), AdapterError>)
    ensures
        r is Ok <==> (!output.truncated && output.status == Some(0i32)),
        output.truncated ==> (r matches Err(AdapterError::Inventory(m)) && m@ == "`"@ + spec.program@
            + "` output exceeded 8 MiB"@),
        !output.truncated && output.status != Some(0i32) ==> (r matches Err(
            AdapterError::ToolFailed(m),
        ) && exists|args: Seq<Seq<char>>|
            args.len() == spec.args@.len() && (forall|k: int|
                0 <= k < args.len() ==> #[trigger] args[k] == logicalize_spec(
                    spec.args@[k]@,
                    temp_marker(),
                )) && m@ == failed_run_message(
                spec.program@,
                args,
                output.status,
                failure_detail(output.stdout@, output.stderr@),
            )),
{
    if output.truncated {
        return Err(AdapterError::Inventory(framed("`", spec.program.as_str(), "` output exceeded 8 MiB")));
    }
    if output.status != Some(0i32) {
        let args = logical_args(&spec.args);
        let m = failed_run(spec.program.as_str(), &args, output);
        proof {
            assert(string_views(args@).len() == spec.args@.len());
            assert(forall|k: int| 0 <= k < args@.len() ==> #[trigger] string_views(args@)[k]
                == args@[k]@);
        }
        return Err(AdapterError::ToolFailed(m));
    }
    Ok(())
}

/// How generated Lean modules find the project's own sources.
#[derive(Clone, Copy, Debug, PartialEq, Eq, Structural)]
pub enum ImportMappingMode {
    /// Imports resolve against listed source roots.
    ExternalSourceRoot,
    /// Imports are rewritten by an audited rewrite with a pinned digest.
    AuditedRewrite,
}

/// The import mapping of a translation unit.
#[derive(Clone, Debug)]
pub struct ImportMapping {
    pub mode: ImportMappingMode,
    pub source_roots: Vec<String>,
    pub rewrite_digest: Option<String>,
}

/// A translation unit manifest, as the adapter reads it.
#[derive(Clone, Debug)]
pub struct TranslationUnit {
    pub schema: String,
    pub adapter: String,
    pub packages: Vec<String>,
    pub start_from: Vec<String>,
    pub opaque: Vec<String>,
    pub included: Vec<String>,
    pub claims: Vec<String>,
    pub generated_dir: String,
    pub handwritten_refinement: String,
    pub determinism_runs: u64,
    pub determinism_normalization: String,
    pub forbid_generated_axioms: bool,
    pub external_bridges: Vec<crate::generated::ExternalBridge>,
    pub template_axioms: Vec<crate::generated::TemplateAxiom>,
    pub warning_inventory: Vec<crate::generated::WarningInventory>,
    pub import_mapping: Option<ImportMapping>,
    pub resource_budget: crate::audit::ResourceBudget,
}

/// The exact Charon argument vector: the Aeneas preset, the start symbols
/// joined by commas, JSON output to `destination`, each opaque and included
/// item, and the shadow manifest after `--`.
pub open spec fn charon_args(
    opaque: Seq<Seq<char>>,
    included: Seq<Seq<char>>,
    starts: Seq<Seq<char>>,
    destination: Seq<char>,
    manifest: Seq<char>,
) -> Seq<Seq<char>> {
    seq![
        "cargo"@,
        "--preset"@,
        "aeneas"@,
        "--start-from"@,
        join(starts, ","@),
        "--error-on-warnings"@,
        "--dest-file"@,
        destination,
        "--format"@,
        "json"@,
    ] + flag_pairs("--opaque"@, opaque) + flag_pairs("--include"@, included) + seq![
        "--"@,
        "--manifest-path"@,
        manifest,
    ]
}

/// Builds the typed Charon argument vector; no shell is involved.
pub fn build_charon_args(
    unit: &TranslationUnit,
    starts: &Vec<String>,
    destination: &str,
    manifest: &str,
) -> (args: Vec<String>)
    ensures
        string_views(args@) == charon_args(
            string_views(unit.opaque@),
            string_views(unit.included@),
            string_views(starts@),
            destination@,
            manifest@,
        ),
{
    let mut args: Vec<String> = Vec::new();
    args.push("cargo".to_owned());
    args.push("--preset".to_owned());
    args.push("aeneas".to_owned());
    args.push("--start-from".to_owned());
    args.push(join_strings(starts, ","));
    args.push("--error-on-warnings".to_owned());
    args.push("--dest-file".to_owned());
    args.push(destination.to_owned());
    args.push("--format".to_owned());
    args.push("json".to_owned());
    let ghost head = string_views(args@);
    push_flag_pairs(&mut args, "--opaque", &unit.opaque);
    push_flag_pairs(&mut args, "--include", &unit.included);
    let ghost middle = string_views(args@);
    args.push("--".to_owned());
    args.push("--manifest-path".to_owned());
    args.push(manifest.to_owned());
    proof {
        assert(head =~= seq![
            "cargo"@,
            "--preset"@,
            "aeneas"@,
            "--start-from"@,
            join(string_views(starts@), ","@),
            "--error-on-warnings"@,
            "--dest-file"@,
            destination@,
            "--format"@,
            "json"@,
        ]);
        assert(string_views(args@) =~= middle + seq!["--"@, "--manifest-path"@, manifest@]);
    }
    args
}

/// The exact Aeneas argument vector: Lean backend, split files, JSON
/// report, warnings as errors, the destination and the LLBC input.
pub open spec fn aeneas_args(llbc: Seq<char>, destination: Seq<char>) -> Seq<Seq<char>> {
    seq![
        "-backend"@,
        "lean"@,
        "-split-files"@,
        "-emit-json"@,
        "-warnings-as-errors"@,
        "-dest"@,
        destination,
        llbc,
    ]
}

/// Builds the typed Aeneas argument vector.
pub fn build_aeneas_args(llbc: &str, destination: &str) -> (args: Vec<String>)
    ensures
        string_views(args@) == aeneas_args(llbc@, destination@),
{
    let mut args: Vec<String> = Vec::new();
    args.push("-backend".to_owned());
    args.push("lean".to_owned());
    args.push("-split-files".to_owned());
    args.push("-emit-json".to_owned());
    args.push("-warnings-as-errors".to_owned());
    args.push("-dest".to_owned());
    args.push(destination.to_owned());
    args.push(llbc.to_owned());
    proof {
        assert(string_views(args@) =~= aeneas_args(llbc@, destination@));
    }
    args
}

/// A package name as a Rust crate path segment: each `-` becomes `_`.
pub open spec fn crate_segment(package: Seq<char>) -> Seq<char> {
    package.map_values(|c: char| if c == '-' { '_' } else { c })
}

/// The crate a start symbol names: what precedes its first `::`.
pub open spec fn symbol_crate(symbol: Seq<char>) -> Seq<char> {
    match find(symbol, "::"@) {
        Some(i) => symbol.take(i),
        None => symbol,
    }
}

/// How many configured packages have `segment` as their crate segment.
pub open spec fn package_matches(packages: Seq<Seq<char>>, segment: Seq<char>) -> nat
    decreases packages.len(),
{
    if packages.len() == 0 {
        0
    } else {
        package_matches(packages.drop_last(), segment) + if crate_segment(packages.last())
            == segment {
            1nat
        } else {
            0nat
        }
    }
}

/// The first start symbol that does not name exactly one package.
pub open spec fn first_unmapped(packages: Seq<Seq<char>>, starts: Seq<Seq<char>>) -> Option<int>
    decreases starts.len(),
{
    if starts.len() == 0 {
        None
    } else {
        match first_unmapped(packages, starts.drop_last()) {
            Some(j) => Some(j),
            None => if package_matches(packages, symbol_crate(starts.last())) != 1 {
                Some(starts.len() - 1)
            } else {
                None
            },
        }
    }
}

/// The start symbols that belong to `package`, in their given order.
pub open spec fn symbols_for(starts: Seq<Seq<char>>, package: Seq<char>) -> Seq<Seq<char>>
    decreases starts.len(),
{
    if starts.len() == 0 {
        Seq::empty()
    } else if symbol_crate(starts.last()) == crate_segment(package) {
        symbols_for(starts.drop_last(), package).push(starts.last())
    } else {
        symbols_for(starts.drop_last(), package)
    }
}

/// The first of `packages` that no start symbol belongs to.
pub open spec fn first_idle(packages: Seq<Seq<char>>, starts: Seq<Seq<char>>) -> Option<int>
    decreases packages.len(),
{
    if packages.len() == 0 {
        None
    } else {
        match first_idle(packages.drop_last(), starts) {
            Some(j) => Some(j),
            None => if symbols_for(starts, packages.last()).len() == 0 {
                Some(packages.len() - 1)
            } else {
                None
            },
        }
    }
}

/// The message for a start symbol that names `count` packages.
pub open spec fn unmapped_message(symbol: Seq<char>, count: nat) -> Seq<char> {
    "start symbol `"@ + symbol + "` maps to "@ + decimal(count) + " configured packages"@
}

/// The message for a package without a start symbol.
pub open spec fn idle_message(package: Seq<char>) -> Seq<char> {
    "package `"@ + package + "` has no start_from symbol"@
}

/// The packages with their start symbols, as plain values.
pub open spec fn group_views(groups: Seq<(String, Vec<String>)>) -> Seq<(Seq<char>, Seq<Seq<char>>)> {
    groups.map_values(|g: (String, Vec<String>)| (g.0@, string_views(g.1@)))
}

/// Each distinct package, in increasing order, with its start symbols.
pub open spec fn start_groups(packages: Seq<Seq<char>>, starts: Seq<Seq<char>>) -> Seq<
    (Seq<char>, Seq<Seq<char>>),
> {
    sorted_set(packages).map_values(|p: Seq<char>| (p, symbols_for(starts, p)))
}

pub fn crate_segment_of(package: &[char]) -> (out: Vec<char>)
    ensures
        out@ == crate_segment(package@),
{
    let mut out: Vec<char> = Vec::new();
    let mut i: usize = 0;
    while i < package.len()
        invariant
            i <= package@.len(),
            out@ == crate_segment(package@.take(i as int)),
        decreases package@.len() - i,
    {
        let c = package[i];
        out.push(if c == '-' { '_' } else { c });
        proof {
            assert(crate_segment(package@.take(i + 1)) =~= crate_segment(package@.take(i as int)).push(
                if c == '-' { '_' } else { c },
            ));
        }
        i = i + 1;
    }
    proof {
        assert(package@.take(package@.len() as int) =~= package@);
    }
    out
}

pub(crate) fn symbol_crate_of(symbol: &[char]) -> (out: Vec<char>)
    ensures
        out@ == symbol_crate(symbol@),
{
    let sep = chars_of("::");
    proof {
        reveal_strlit("::");
    }
    match find_in(symbol, sep.as_slice(), 0) {
        Some(i) => {
            proof {
                lemma_find_from_props(symbol@, sep@, 0);
            }
            let mut out: Vec<char> = Vec::new();
            extend_range(&mut out, symbol, 0, i);
            proof {
                assert(out@ =~= symbol@.take(i as int));
            }
            out
        },
        None => {
            let mut out: Vec<char> = Vec::new();
            extend_range(&mut out, symbol, 0, symbol.len());
            proof {
                assert(out@ =~= symbol@);
            }
            out
        },
    }
}

fn count_matches(segments: &Vec<Vec<char>>, segment: &[char], Ghost(packages): Ghost<Seq<Seq<char>>>) -> (n: usize)
    requires
        segments@.len() == packages.len(),
        forall|k: int| 0 <= k < packages.len() ==> #[trigger] segments@[k]@ == crate_segment(packages[k]),
    ensures
        n == package_matches(packages, segment@),
{
    let mut n: usize = 0;
    let mut i: usize = 0;
    while i < segments.len()
        invariant
            i <= packages.len(),
            segments@.len() == packages.len(),
            forall|k: int| 0 <= k < packages.len() ==> #[trigger] segments@[k]@ == crate_segment(packages[k]),
            n == package_matches(packages.take(i as int), segment@),
            n <= i,
        decreases packages.len() - i,
    {
        proof {
            assert(packages.take(i + 1).drop_last() =~= packages.take(i as int));
            assert(segments@[i as int]@ == crate_segment(packages[i as int]));
        }
        if compare_chars(segments[i].as_slice(), segment) == 0 {
            n = n + 1;
        }
        i = i + 1;
    }
    proof {
        assert(packages.take(packages.len() as int) =~= packages);
    }
    n
}

/// Each of `packages` with the start symbols that belong to it.
pub open spec fn groups_of(packages: Seq<Seq<char>>, starts: Seq<Seq<char>>) -> Seq<
    (Seq<char>, Seq<Seq<char>>),
> {
    packages.map_values(|p: Seq<char>| (p, symbols_for(starts, p)))
}

proof fn lemma_first_unmapped_extends(packages: Seq<Seq<char>>, starts: Seq<Seq<char>>, n: int)
    requires
        0 <= n <= starts.len(),
        first_unmapped(packages, starts.take(n)) is Some,
    ensures
        first_unmapped(packages, starts) == first_unmapped(packages, starts.take(n)),
    decreases starts.len(),
{
    if starts.len() == n {
        assert(starts.take(n) =~= starts);
    } else {
        assert(starts.drop_last().take(n) =~= starts.take(n));
        lemma_first_unmapped_extends(packages, starts.drop_last(), n);
    }
}

proof fn lemma_first_idle_extends(packages: Seq<Seq<char>>, starts: Seq<Seq<char>>, n: int)
    requires
        0 <= n <= packages.len(),
        first_idle(packages.take(n), starts) is Some,
    ensures
        first_idle(packages, starts) == first_idle(packages.take(n), starts),
    decreases packages.len(),
{
    if packages.len() == n {
        assert(packages.take(n) =~= packages);
    } else {
        assert(packages.drop_last().take(n) =~= packages.take(n));
        lemma_first_idle_extends(packages.drop_last(), starts, n);
    }
}

/// Assigns each start symbol to the one configured package whose crate it
/// names. Fails on the first symbol that names no package or several, then
/// on the first package (in name order) that is left without a symbol. The
/// groups come in increasing package order, each package once.
pub fn group_start_symbols(packages: &Vec<String>, starts: &Vec<String>) -> (r: Result<
    Vec<(String, Vec<String>)>,
    AdapterError,
>)
    ensures
        match first_unmapped(string_views(packages@), string_views(starts@)) {
            Some(j) => (r matches Err(AdapterError::Unit(m)) && m@ == unmapped_message(
                starts@[j]@,
                package_matches(string_views(packages@), symbol_crate(starts@[j]@)),
            )),
            None => match first_idle(sorted_set(string_views(packages@)), string_views(starts@)) {
                Some(k) => (r matches Err(AdapterError::Unit(m)) && m@ == idle_message(
                    sorted_set(string_views(packages@))[k],
                )),
                None => (r matches Ok(groups) && group_views(groups@) == start_groups(
                    string_views(packages@),
                    string_views(starts@),
                )),
            },
        },
{
    let ghost pk = string_views(packages@);
    let ghost st = string_views(starts@);
    let package_chars = char_lists(packages);
    let start_chars = char_lists(starts);
    let mut segments: Vec<Vec<char>> = Vec::new();
    let mut i: usize = 0;
    while i < package_chars.len()
        invariant
            i <= package_chars@.len(),
            package_chars@.len() == pk.len(),
            views(package_chars@) == pk,
            segments@.len() == i,
            forall|k: int| 0 <= k < i ==> #[trigger] segments@[k]@ == crate_segment(pk[k]),
        decreases package_chars@.len() - i,
    {
        proof {
            assert(views(package_chars@)[i as int] == package_chars@[i as int]@);
        }
        segments.push(crate_segment_of(package_chars[i].as_slice()));
        i = i + 1;
    }
    let mut crates: Vec<Vec<char>> = Vec::new();
    let mut i: usize = 0;
    while i < start_chars.len()
        invariant
            i <= start_chars@.len(),
            start_chars@.len() == st.len(),
            st.len() == starts@.len(),
            st == string_views(starts@),
            pk == string_views(packages@),
            views(start_chars@) == st,
            segments@.len() == pk.len(),
            forall|k: int| 0 <= k < pk.len() ==> #[trigger] segments@[k]@ == crate_segment(pk[k]),
            crates@.len() == i,
            forall|k: int| 0 <= k < i ==> #[trigger] crates@[k]@ == symbol_crate(st[k]),
            first_unmapped(pk, st.take(i as int)) is None,
        decreases start_chars@.len() - i,
    {
        proof {
            assert(views(start_chars@)[i as int] == start_chars@[i as int]@);
            assert(st[i as int] == starts@[i as int]@);
        }
        let c = symbol_crate_of(start_chars[i].as_slice());
        let n = count_matches(&segments, c.as_slice(), Ghost(pk));
        proof {
            assert(st.take(i + 1).drop_last() =~= st.take(i as int));
            assert(st.take(i + 1).last() == st[i as int]);
        }
        if n != 1 {
            let mut m = "start symbol `".to_owned();
            m.append(starts[i].as_str());
            m.append("` maps to ");
            push_decimal(&mut m, n as u64);
            m.append(" configured packages");
            proof {
                assert(start_chars@[i as int]@ == st[i as int]);
                assert(n == package_matches(pk, symbol_crate(st[i as int])));
                assert(first_unmapped(pk, st.take(i + 1)) == Some(i as int));
                lemma_first_unmapped_extends(pk, st, i + 1);
                assert(m@ == unmapped_message(st[i as int], n as nat));
            }
            return Err(AdapterError::Unit(m));
        }
        crates.push(c);
        i = i + 1;
    }
    proof {
        assert(st.take(st.len() as int) =~= st);
    }
    let keys = sorted_set_of(&package_chars);
    let ghost ks = views(keys@);
    let mut groups: Vec<(String, Vec<String>)> = Vec::new();
    let mut k: usize = 0;
    while k < keys.len()
        invariant
            k <= keys@.len(),
            ks == views(keys@),
            ks == sorted_set(pk),
            st == string_views(starts@),
            pk == string_views(packages@),
            crates@.len() == st.len(),
            forall|q: int| 0 <= q < st.len() ==> #[trigger] crates@[q]@ == symbol_crate(st[q]),
            first_unmapped(pk, st) is None,
            first_idle(ks.take(k as int), st) is None,
            group_views(groups@) == groups_of(ks.take(k as int), st),
        decreases keys@.len() - k,
    {
        proof {
            assert(ks[k as int] == keys@[k as int]@);
        }
        let seg = crate_segment_of(keys[k].as_slice());
        let mut symbols: Vec<String> = Vec::new();
        let mut j: usize = 0;
        while j < crates.len()
            invariant
                j <= crates@.len(),
                crates@.len() == st.len(),
                st.len() == starts@.len(),
                st == string_views(starts@),
                forall|q: int| 0 <= q < st.len() ==> #[trigger] crates@[q]@ == symbol_crate(st[q]),
                seg@ == crate_segment(ks[k as int]),
                string_views(symbols@) == symbols_for(st.take(j as int), ks[k as int]),
            decreases crates@.len() - j,
        {
            proof {
                assert(st.take(j + 1).drop_last() =~= st.take(j as int));
                assert(st.take(j + 1).last() == st[j as int]);
                assert(crates@[j as int]@ == symbol_crate(st[j as int]));
                assert(st[j as int] == starts@[j as int]@);
            }
            if compare_chars(crates[j].as_slice(), seg.as_slice()) == 0 {
                let ghost before = string_views(symbols@);
                symbols.push(starts[j].as_str().to_owned());
                proof {
                    assert(string_views(symbols@) =~= before.push(st[j as int]));
                }
            }
            j = j + 1;
        }
        proof {
            assert(st.take(st.len() as int) =~= st);
            assert(ks.take(k + 1).drop_last() =~= ks.take(k as int));
            assert(ks.take(k + 1).last() == ks[k as int]);
        }
        if symbols.len() == 0 {
            let mut m = "package `".to_owned();
            let name = string_of(keys[k].as_slice());
            m.append(name.as_str());
            m.append("` has no start_from symbol");
            proof {
                assert(symbols_for(st, ks[k as int]).len() == 0);
                assert(first_idle(ks.take(k + 1), st) == Some(k as int));
                lemma_first_idle_extends(ks, st, k + 1);
                assert(m@ == idle_message(ks[k as int]));
            }
            return Err(AdapterError::Unit(m));
        }
        let ghost before = group_views(groups@);
        groups.push((string_of(keys[k].as_slice()), symbols));
        proof {
            assert(group_views(groups@) =~= before.push((ks[k as int], symbols_for(st, ks[k as int]))));
            assert(groups_of(ks.take(k + 1), st) =~= groups_of(ks.take(k as int), st).push(
                (ks[k as int], symbols_for(st, ks[k as int])),
            ));
        }
        k = k + 1;
    }
    proof {
        assert(ks.take(ks.len() as int) =~= ks);
    }
    Ok(groups)
}

} // verus!
