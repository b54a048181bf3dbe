//! A Charon/Aeneas translation as a sequence of decisions. The caller runs
//! each action (a tool in the project or its shadow copy, a read of what a
//! run produced, a read or a write of the committed generated tree) and
//! hands back what came of it; `translation_step` decides what follows.
//!
//! Translation runs twice, only ever in the shadow copy; the two runs'
//! normalized artifacts must agree byte for byte before anything is
//! answered, and only `update` ever writes the reviewed tree.
use vstd::prelude::*;
use crate::aeneas::{
    aeneas_args, build_aeneas_args, build_charon_args, charon_args, crate_segment, crate_segment_of,
    ensure_success, exact_set, exact_symbol_inventory, first_idle, first_unmapped, framed, prefixed,
    group_start_symbols, symbols_for, sorted_unique, AdapterError, TranslationUnit,
};
use crate::files::{difference_spec, first_difference, insert_entry, Difference, FileMap};
use crate::generated::{drift_message, expected_keys, found_keys, inventory_fault, same_keys};
use crate::aeneas::{mismatch_message, temp_marker};
use crate::normalize::logicalize_spec;
use crate::inventory::missing_from;
use crate::process::{failed_run_message, failure_detail};
use vstd::utf8::{decode_utf8, encode_utf8, valid_utf8};
use crate::generated::{audit_generated_inventory, compare_committed_generated, same_files};
use crate::paths::{components_prefix, is_relative_path};
use crate::inventory::{has_duplicates, same_values, sorted_set, MAX_INVENTORY};
use crate::normalize::{normalize_text_bytes, normalized_text_lines};
use crate::process::{ProcessOutput, ProcessSpec};
use crate::text::{
    chars_of, contains, decimal, find_in, join, push_decimal, str_equal, string_of, string_views, trim,
    trim_chars, utf8_error_text, utf8_text,
};
use crate::translation::{report_inventory_fault, translation_report_inventory, ReportFile, ToolchainLock};

verus! {

/// Where a tool runs: the reviewed project, or its shadow copy.
#[derive(Clone, Copy, Debug, PartialEq, Eq, Structural)]
pub enum Place {
    Project,
    Shadow,
}

/// Where a translation stands: what the last action was.
#[derive(Clone, Copy, Debug, PartialEq, Eq, Structural)]
pub enum TranslationPhase {
    /// Nothing has run yet.
    Start,
    /// `--version` of Charon (0) or Aeneas (1) is running.
    Version(u64),
    /// `cargo metadata` is running in the shadow copy.
    Metadata,
    /// The package manifests that `cargo metadata` printed are resolved.
    Packages,
    /// Run `.0` (1 or 2) translates package `.1`: Charon (stage 0), its
    /// pretty-printer (1) or Aeneas (2) is running.
    Tool(u64, usize, u64),
    /// The artifacts of a run are collected.
    Collect(u64),
    /// The committed generated tree is read.
    ReadCommitted,
    /// The committed generated tree is replaced.
    Write,
    /// The request is answered.
    Done,
}

/// What a translation has gathered so far.
pub struct TranslationState {
    pub phase: TranslationPhase,
    /// The Cargo manifest of each configured package, in the unit's order.
    pub manifests: Vec<String>,
    /// The normalized pretty-printed LLBC of the current run.
    pub pretty: FileMap,
    /// The first run's normalized artifacts.
    pub first_normalized: Option<FileMap>,
    /// The first run's generated artifacts.
    pub first_generated: Option<FileMap>,
    /// The start symbols the first run translated.
    pub first_symbols: Vec<String>,
    /// The second run's normalized artifacts.
    pub second_normalized: Option<FileMap>,
    /// The trimmed version texts of Charon and Aeneas, in that order.
    pub versions: Vec<String>,
}

/// A successful answer: the translated inventory and the tool version,
/// the Charon and Aeneas version texts joined by `; `.
pub struct TranslationAnswer {
    pub inventory: Vec<String>,
    pub tool_version: String,
}

impl TranslationState {
    /// A translation that has not started: nothing gathered.
    pub fn start() -> (s: TranslationState)
        ensures
            s.phase == TranslationPhase::Start,
            s.manifests@.len() == 0,
            s.pretty@.len() == 0,
            s.first_normalized is None,
            s.first_generated is None,
            s.first_symbols@.len() == 0,
            s.second_normalized is None,
            s.versions@.len() == 0,
    {
        TranslationState {
            phase: TranslationPhase::Start,
            manifests: Vec::new(),
            pretty: FileMap::new(),
            first_normalized: None,
            first_generated: None,
            first_symbols: Vec::new(),
            second_normalized: None,
            versions: Vec::new(),
        }
    }
}

/// What the caller is to do next.
pub enum TranslationAction {
    /// Run `spec` in `place` within `timeout_ms`, and report whether the
    /// file `produces` names exists afterwards.
    Run { spec: ProcessSpec, place: Place, timeout_ms: u64, produces: Option<String> },
    /// Resolve the packages that this `cargo metadata` output lists: each
    /// name with its canonical manifest inside the shadow copy.
    ResolvePackages(Vec<u8>),
    /// Collect run `.0`'s normalized generated artifacts and its
    /// translation reports.
    Collect(u64),
    /// Read the committed generated tree.
    ReadCommitted,
    /// Replace the committed generated tree with these files.
    WriteGenerated(FileMap),
    /// Answer the request: the translated inventory, or the failure.
    Respond(Result<TranslationAnswer, AdapterError>),
}

/// What came of an action.
pub enum ToolEvent {
    /// A tool ran, or could not be run; and whether the file it was to
    /// produce exists.
    Ran(Result<ProcessOutput, AdapterError>, bool),
    /// The packages `cargo metadata` listed, with their manifests.
    Packages(Result<Vec<(String, String)>, AdapterError>),
    /// A run's generated artifacts and its translation reports.
    Collected(Result<(FileMap, Vec<ReportFile>), AdapterError>),
    /// The committed generated tree.
    Committed(Result<FileMap, AdapterError>),
    /// The committed generated tree was replaced, or not.
    Written(Result<(), AdapterError>),
}

/// How long the unit may run, in milliseconds.
pub open spec fn budget_ms(unit: TranslationUnit) -> u64 {
    let t = unit.resource_budget.time_seconds;
    if t * 1000 > u64::MAX {
        u64::MAX
    } else {
        (t * 1000) as u64
    }
}

/// The tool version a translation reports: its version texts joined by
/// `; `.
pub open spec fn tool_version(s: TranslationState) -> Seq<char> {
    join(string_views(s.versions@), "; "@)
}

/// The state with another phase.
pub open spec fn with_phase(s: TranslationState, p: TranslationPhase) -> TranslationState {
    TranslationState { phase: p, ..s }
}

/// The action answers with a failure and the state is finished.
pub open spec fn fails(s: TranslationState, r: (TranslationState, TranslationAction)) -> bool {
    r.0 == with_phase(s, TranslationPhase::Done) && r.1 is Respond && r.1->Respond_0 is Err
}

/// The action answers with exactly the failure `e`.
pub open spec fn fails_with(s: TranslationState, r: (TranslationState, TranslationAction), e: AdapterError) -> bool {
    fails(s, r) && r.1->Respond_0->Err_0 == e
}

/// The failure is an inventory failure with message `m`.
pub open spec fn inventory_error(e: AdapterError, m: Seq<char>) -> bool {
    e matches AdapterError::Inventory(x) && x@ == m
}

/// The failure is a toolchain failure with message `m`.
pub open spec fn toolchain_error(e: AdapterError, m: Seq<char>) -> bool {
    e matches AdapterError::Toolchain(x) && x@ == m
}

/// The failure is a determinism failure with message `m`.
pub open spec fn determinism_error(e: AdapterError, m: Seq<char>) -> bool {
    e matches AdapterError::Determinism(x) && x@ == m
}

/// The failure is a generated-artifact failure with message `m`.
pub open spec fn generated_error(e: AdapterError, m: Seq<char>) -> bool {
    e matches AdapterError::Generated(x) && x@ == m
}

/// The failure is a request failure with message `m`.
pub open spec fn request_error(e: AdapterError, m: Seq<char>) -> bool {
    e matches AdapterError::Request(x) && x@ == m
}

/// The failure is an internal failure with message `m`.
pub open spec fn internal_error(e: AdapterError, m: Seq<char>) -> bool {
    e matches AdapterError::Internal(x) && x@ == m
}

/// The failure that answers.
pub open spec fn failure(r: (TranslationState, TranslationAction)) -> AdapterError {
    r.1->Respond_0->Err_0
}

/// The action runs `program` with `args` in `place` within `timeout`.
pub open spec fn runs(
    a: TranslationAction,
    program: Seq<char>,
    args: Seq<Seq<char>>,
    place: Place,
    timeout: u64,
    produces: Option<Seq<char>>,
) -> bool {
    &&& a matches TranslationAction::Run { spec, place: p, timeout_ms, produces: out }
    &&& spec.program@ == program
    &&& string_views(spec.args@) == args
    &&& p == place
    &&& timeout_ms == timeout
    &&& match (out, produces) {
        (Some(x), Some(y)) => x@ == y,
        (None, None) => true,
        _ => false,
    }
}

/// A run that failed: its output was cut short or its status is not 0.
pub open spec fn run_failed(o: ProcessOutput) -> bool {
    o.truncated || o.status != Some(0i32)
}

/// The version line of a `--version` run: standard output, or standard
/// error where standard output is empty.
pub open spec fn version_bytes(o: ProcessOutput) -> Seq<u8> {
    if o.stdout@.len() == 0 {
        o.stderr@
    } else {
        o.stdout@
    }
}

/// The program whose version stage `k` reads, and the revision it must
/// name.
pub open spec fn version_tool(k: u64) -> Seq<char> {
    if k == 0 {
        "charon"@
    } else {
        "aeneas"@
    }
}

pub open spec fn version_pin(lock: ToolchainLock, k: u64) -> Seq<char> {
    if k == 0 {
        lock.charon_revision@
    } else {
        lock.aeneas_revision@
    }
}

/// The message when a version does not name its pinned revision.
pub open spec fn version_message(program: Seq<char>, version: Seq<char>, pin: Seq<char>) -> Seq<char> {
    program + " version `"@ + version + "` does not contain pinned revision `"@ + pin + "`"@
}

/// The run directory of run `run`.
pub open spec fn run_dir(work: Seq<char>, run: u64) -> Seq<char> {
    work + "/run-"@ + decimal(run as nat)
}

/// The LLBC file run `run` makes of `package`.
pub open spec fn llbc_path(work: Seq<char>, run: u64, package: Seq<char>) -> Seq<char> {
    run_dir(work, run) + "/llbc/"@ + crate_segment(package) + ".llbc"@
}

/// Where Aeneas writes the Lean files of `package`.
pub open spec fn generated_destination(work: Seq<char>, run: u64, package: Seq<char>, packages: nat) -> Seq<char> {
    if packages == 1 {
        run_dir(work, run) + "/generated"@
    } else {
        run_dir(work, run) + "/generated/"@ + crate_segment(package)
    }
}

/// The relative path a run keeps `package`'s pretty-printed LLBC under.
pub open spec fn pretty_path(package: Seq<char>) -> Seq<char> {
    "llbc/"@ + crate_segment(package) + ".llbc.pretty"@
}

/// A run's normalized artifacts: its pretty-printed LLBC, and each
/// generated file under `generated/`.
pub open spec fn run_normalized(
    pretty: Seq<(Seq<char>, Seq<u8>)>,
    generated: Seq<(Seq<char>, Seq<u8>)>,
    n: nat,
) -> Seq<(Seq<char>, Seq<u8>)>
    decreases n,
{
    if n == 0 || n > generated.len() {
        pretty
    } else {
        insert_entry(
            run_normalized(pretty, generated, (n - 1) as nat),
            "generated/"@ + generated[n - 1].0,
            generated[n - 1].1,
        )
    }
}

/// Where two normalized runs first differ, in words.
pub open spec fn difference_text(a: Seq<(Seq<char>, Seq<u8>)>, b: Seq<(Seq<char>, Seq<u8>)>) -> Seq<char> {
    let d = difference_spec(a, b);
    if d.0 == 1 {
        "missing first-run artifact `"@ + d.1 + "`"@
    } else if d.0 == 2 {
        "missing second-run artifact `"@ + d.1 + "`"@
    } else if d.0 == 3 {
        "artifact `"@ + d.1 + "` byte "@ + decimal(d.2 as nat)
    } else {
        "unknown location"@
    }
}

/// Whether grouping the start symbols by package fails.
pub open spec fn grouping_fails(unit: TranslationUnit) -> bool {
    let packages = string_views(unit.packages@);
    let starts = string_views(unit.start_from@);
    first_unmapped(packages, starts) is Some || first_idle(sorted_set(packages), starts) is Some
}

/// Whether a list is a valid inventory: small enough, without duplicates.
pub open spec fn valid_inventory(v: Seq<Seq<char>>) -> bool {
    v.len() <= MAX_INVENTORY && !has_duplicates(v)
}

/// The time left before the budget runs out, if any.
pub open spec fn time_left(unit: TranslationUnit, elapsed: u64) -> Option<u64> {
    if elapsed >= budget_ms(unit) {
        None
    } else {
        Some((budget_ms(unit) - elapsed) as u64)
    }
}

/// What starting package `p` of run `run` decides: the run's Charon call,
/// or, past the last package, the collection of the run.
pub open spec fn enter_package_spec(
    unit: TranslationUnit,
    work: Seq<char>,
    elapsed: u64,
    run: u64,
    p: usize,
    s: TranslationState,
    r: (TranslationState, TranslationAction),
) -> bool {
    if p >= unit.packages@.len() {
        r.0 == with_phase(s, TranslationPhase::Collect(run)) && r.1 == TranslationAction::Collect(run)
    } else if grouping_fails(unit) {
        fails(s, r) && call_ensures(
            group_start_symbols,
            (&unit.packages, &unit.start_from),
            Err::<Vec<(String, Vec<String>)>, AdapterError>(r.1->Respond_0->Err_0),
        )
    } else {
        match time_left(unit, elapsed) {
            None => fails_with(s, r, AdapterError::Timeout(budget_ms(unit))),
            Some(t) => {
                let package = unit.packages@[p as int]@;
                let llbc = llbc_path(work, run, package);
                &&& r.0 == with_phase(s, TranslationPhase::Tool(run, p, 0))
                &&& runs(
                    r.1,
                    "charon"@,
                    charon_args(
                        string_views(unit.opaque@),
                        string_views(unit.included@),
                        symbols_for(string_views(unit.start_from@), package),
                        llbc,
                        s.manifests@[p as int]@,
                    ),
                    Place::Shadow,
                    t,
                    Some(llbc),
                )
            },
        }
    }
}

/// What the failure of a run is: the one `ensure_success` reports.
pub open spec fn run_error(spec: ProcessSpec, o: ProcessOutput, e: AdapterError) -> bool {
    call_ensures(ensure_success, (&spec, &o), Err::<(), AdapterError>(e))
}

/// The command that stage `stage` of a package runs.
pub open spec fn stage_spec(
    unit: TranslationUnit,
    work: Seq<char>,
    run: u64,
    p: usize,
    stage: u64,
    manifests: Seq<String>,
) -> (Seq<char>, Seq<Seq<char>>) {
    let package = unit.packages@[p as int]@;
    let llbc = llbc_path(work, run, package);
    if stage == 0 {
        (
            "charon"@,
            charon_args(
                string_views(unit.opaque@),
                string_views(unit.included@),
                symbols_for(string_views(unit.start_from@), package),
                llbc,
                manifests[p as int]@,
            ),
        )
    } else if stage == 1 {
        ("charon"@, seq!["pretty-print"@, llbc])
    } else {
        (
            "aeneas"@,
            aeneas_args(llbc, generated_destination(work, run, package, unit.packages@.len())),
        )
    }
}

/// Whether a state is one that `translation_step` reaches: every stage
/// names a configured package, manifests are known once packages are, and
/// a translation that reads or writes the committed tree has two runs that
/// agree.
pub open spec fn translation_wf(unit: TranslationUnit, s: TranslationState) -> bool {
    &&& s.phase matches TranslationPhase::Tool(run, p, stage) ==> p < unit.packages@.len() && stage <= 2 && (run
        == 1 || run == 2)
    &&& s.phase matches TranslationPhase::Collect(run) ==> run == 1 || run == 2
    &&& (s.phase matches TranslationPhase::Tool(_, _, _) || s.phase is Collect) ==> s.manifests@.len()
        == unit.packages@.len()
    &&& (s.phase matches TranslationPhase::Tool(run, _, _) && run == 2) || s.phase == TranslationPhase::Collect(2) ==> s.first_normalized is Some && s.first_generated is Some
    &&& (s.phase is ReadCommitted || s.phase is Write) ==> {
        &&& s.first_normalized is Some
        &&& s.second_normalized is Some
        &&& s.first_normalized->0@ == s.second_normalized->0@
    }
    &&& s.phase is ReadCommitted ==> s.first_generated is Some
    &&& s.phase is Start ==> s.versions@.len() == 0
    &&& s.phase matches TranslationPhase::Version(k) ==> k <= 1 && s.versions@.len() == k
    &&& (s.phase is Metadata || s.phase is Packages || s.phase is Tool || s.phase is Collect || s.phase is ReadCommitted
        || s.phase is Write) ==> s.versions@.len() == 2
}

/// Whether `s` waits for the event `e`.
pub open spec fn expects(s: TranslationState, e: ToolEvent) -> bool {
    match s.phase {
        TranslationPhase::Version(_) | TranslationPhase::Metadata | TranslationPhase::Tool(_, _, _) => e is Ran,
        TranslationPhase::Packages => e is Packages,
        TranslationPhase::Collect(_) => e is Collected,
        TranslationPhase::ReadCommitted => e is Committed,
        TranslationPhase::Write => e is Written,
        _ => false,
    }
}

/// The failure an event reports, where it reports one.
pub open spec fn event_error(e: ToolEvent) -> Option<AdapterError> {
    match e {
        ToolEvent::Ran(Err(x), _) => Some(x),
        ToolEvent::Packages(Err(x)) => Some(x),
        ToolEvent::Collected(Err(x)) => Some(x),
        ToolEvent::Committed(Err(x)) => Some(x),
        ToolEvent::Written(Err(x)) => Some(x),
        _ => None,
    }
}

/// The message of an event that the state does not wait for.
pub open spec fn unexpected_message() -> Seq<char> {
    "translation received an event it did not ask for"@
}

/// Why the start symbols are no inventory.
pub open spec fn inventory_message(v: Seq<Seq<char>>) -> Seq<char> {
    if v.len() > MAX_INVENTORY {
        "translation symbols"@ + " exceeds 100000 entries"@
    } else {
        "translation symbols"@ + " contains duplicates"@
    }
}

/// The answer once the generated tree is settled: the sorted start
/// symbols.
pub open spec fn answer_spec(unit: TranslationUnit, s: TranslationState, r: (TranslationState, TranslationAction)) -> bool {
    let v = string_views(unit.start_from@);
    if valid_inventory(v) {
        &&& r.0 == with_phase(s, TranslationPhase::Done)
        &&& r.1 matches TranslationAction::Respond(Ok(a))
        &&& string_views(a.inventory@) == sorted_set(v)
        &&& a.tool_version@ == tool_version(s)
    } else {
        fails(s, r) && inventory_error(r.1->Respond_0->Err_0, inventory_message(v))
    }
}


/// The failure `ensure_success` reports for a run of `program` with `args`
/// that was cut short or exited other than 0.
pub open spec fn success_error(program: Seq<char>, args: Seq<Seq<char>>, o: ProcessOutput, e: AdapterError) -> bool {
    if o.truncated {
        inventory_error(e, "`"@ + program + "` output exceeded 8 MiB"@)
    } else {
        e matches AdapterError::ToolFailed(m) && m@ == failed_run_message(
            program,
            args.map_values(|a: Seq<char>| logicalize_spec(a, temp_marker())),
            o.status,
            failure_detail(o.stdout@, o.stderr@),
        )
    }
}

/// The arguments of `cargo metadata`.
pub open spec fn metadata_args() -> Seq<Seq<char>> {
    seq!["metadata"@, "--format-version"@, "1"@, "--no-deps"@]
}

/// The manifest listed for `name`: that of its first entry.
pub open spec fn manifest_for(list: Seq<(String, String)>, name: Seq<char>, n: nat) -> Seq<char>
    decreases n,
{
    if n == 0 || n > list.len() {
        Seq::empty()
    } else if manifest_listed(list, name, (n - 1) as nat) {
        manifest_for(list, name, (n - 1) as nat)
    } else if list[n - 1].0@ == name {
        list[n - 1].1@
    } else {
        Seq::empty()
    }
}

/// Whether `list[..n]` lists `name`.
pub open spec fn manifest_listed(list: Seq<(String, String)>, name: Seq<char>, n: nat) -> bool {
    exists|i: int| 0 <= i < n && i < list.len() && #[trigger] list[i].0@ == name
}

/// The failure `exact_set` reports when two lists are not the same set.
pub open spec fn set_error(label: Seq<char>, expected: Seq<Seq<char>>, actual: Seq<Seq<char>>, e: AdapterError) -> bool {
    if !valid_inventory(expected) {
        inventory_error(
            e,
            label + if expected.len() > MAX_INVENTORY {
                " exceeds 100000 entries"@
            } else {
                " contains duplicates"@
            },
        )
    } else if !valid_inventory(actual) {
        inventory_error(
            e,
            label + if actual.len() > MAX_INVENTORY {
                " exceeds 100000 entries"@
            } else {
                " contains duplicates"@
            },
        )
    } else {
        inventory_error(
            e,
            mismatch_message(
                label,
                missing_from(sorted_set(expected), sorted_set(actual)),
                missing_from(sorted_set(actual), sorted_set(expected)),
            ),
        )
    }
}

/// Whether two lists are valid inventories of the same names.
pub open spec fn same_inventory(expected: Seq<Seq<char>>, actual: Seq<Seq<char>>) -> bool {
    valid_inventory(expected) && valid_inventory(actual) && same_values(expected, actual)
}

/// The step after a `--version` run of tool `k`.
pub open spec fn version_spec(
    op: Seq<char>,
    unit: TranslationUnit,
    lock: ToolchainLock,
    elapsed: u64,
    k: u64,
    s: TranslationState,
    o: ProcessOutput,
    r: (TranslationState, TranslationAction),
) -> bool {
    let program = version_tool(k);
    let bytes = version_bytes(o);
    let v = trim(decode_utf8(bytes));
    if run_failed(o) {
        fails(s, r) && success_error(program, seq!["--version"@], o, failure(r))
    } else if !valid_utf8(bytes) {
        fails(s, r) && toolchain_error(failure(r), utf8_error_text(bytes))
    } else if v.len() == 0 || !contains(v, version_pin(lock, k)) {
        fails(s, r) && toolchain_error(failure(r), version_message(program, v, version_pin(lock, k)))
    } else {
        let ps = TranslationState { versions: r.0.versions, ..s };
        &&& string_views(r.0.versions@) == string_views(s.versions@).push(v)
        &&& if k == 0 {
            r.0 == with_phase(ps, TranslationPhase::Version(1)) && runs(
                r.1,
                "aeneas"@,
                seq!["--version"@],
                Place::Project,
                20000,
                None,
            )
        } else if op == "doctor"@ {
            r.0 == with_phase(ps, TranslationPhase::Done) && (r.1 matches TranslationAction::Respond(Ok(a))
                && a.inventory@.len() == 0 && a.tool_version@ == tool_version(ps))
        } else {
            match time_left(unit, elapsed) {
                None => fails_with(ps, r, AdapterError::Timeout(budget_ms(unit))),
                Some(t) => r.0 == with_phase(ps, TranslationPhase::Metadata) && runs(
                    r.1,
                    "cargo"@,
                    metadata_args(),
                    Place::Shadow,
                    t,
                    None,
                ),
            }
        }
    }
}

/// The step after `cargo metadata`.
pub open spec fn metadata_spec(s: TranslationState, o: ProcessOutput, r: (TranslationState, TranslationAction)) -> bool {
    if run_failed(o) {
        fails(s, r) && success_error("cargo"@, metadata_args(), o, failure(r))
    } else {
        r.0 == with_phase(s, TranslationPhase::Packages) && (r.1 matches TranslationAction::ResolvePackages(b)
            && b@ == o.stdout@)
    }
}

/// The step once the packages are resolved: the listed packages must be
/// exactly the configured ones; then run 1 starts.
pub open spec fn packages_spec(
    unit: TranslationUnit,
    work: Seq<char>,
    elapsed: u64,
    s: TranslationState,
    list: Seq<(String, String)>,
    r: (TranslationState, TranslationAction),
) -> bool {
    let names = list.map_values(|x: (String, String)| x.0@);
    let packages = string_views(unit.packages@);
    if !same_inventory(packages, names) {
        fails(s, r) && set_error("translation packages"@, packages, names, failure(r))
    } else {
        let ps = TranslationState { manifests: r.0.manifests, ..s };
        &&& string_views(r.0.manifests@) == packages.map_values(
            |p: Seq<char>| manifest_for(list, p, list.len()),
        )
        &&& enter_package_spec(unit, work, elapsed, 1, 0, ps, r)
    }
}

/// The step after stage `stage` of package `p` in run `run`.
pub open spec fn tool_spec(
    unit: TranslationUnit,
    work: Seq<char>,
    elapsed: u64,
    run: u64,
    p: usize,
    stage: u64,
    s: TranslationState,
    o: ProcessOutput,
    produced: bool,
    r: (TranslationState, TranslationAction),
) -> bool {
    let (program, args) = stage_spec(unit, work, run, p, stage, s.manifests@);
    let package = unit.packages@[p as int]@;
    let llbc = llbc_path(work, run, package);
    if run_failed(o) {
        fails(s, r) && success_error(program, args, o, failure(r))
    } else if stage == 0 {
        if !produced {
            fails(s, r) && inventory_error(failure(r), "Charon did not produce "@ + llbc)
        } else {
            match time_left(unit, elapsed) {
                None => fails_with(s, r, AdapterError::Timeout(budget_ms(unit))),
                Some(t) => r.0 == with_phase(s, TranslationPhase::Tool(run, p, 1)) && runs(
                    r.1,
                    "charon"@,
                    seq!["pretty-print"@, llbc],
                    Place::Shadow,
                    t,
                    None,
                ),
            }
        }
    } else if stage == 1 {
        if o.stdout@.len() == 0 {
            fails(s, r) && determinism_error(
                failure(r),
                "Charon pretty-print for `"@ + package + "` was empty"@,
            )
        } else {
            let ps = TranslationState { pretty: r.0.pretty, ..s };
            &&& r.0.pretty@ == insert_entry(
                s.pretty@,
                pretty_path(package),
                encode_utf8(normalized_text_lines(o.stdout@)),
            )
            &&& match time_left(unit, elapsed) {
                None => fails_with(ps, r, AdapterError::Timeout(budget_ms(unit))),
                Some(t) => r.0 == with_phase(ps, TranslationPhase::Tool(run, p, 2)) && runs(
                    r.1,
                    "aeneas"@,
                    aeneas_args(llbc, generated_destination(work, run, package, unit.packages@.len())),
                    Place::Shadow,
                    t,
                    None,
                ),
            }
        }
    } else {
        enter_package_spec(unit, work, elapsed, run, (p + 1) as usize, s, r)
    }
}

/// The step once a run's artifacts are collected.
pub open spec fn collect_spec(
    op: Seq<char>,
    unit: TranslationUnit,
    lock: ToolchainLock,
    work: Seq<char>,
    elapsed: u64,
    run: u64,
    s: TranslationState,
    generated: FileMap,
    reports: Vec<ReportFile>,
    r: (TranslationState, TranslationAction),
) -> bool {
    let normalized = run_normalized(s.pretty@, generated@, generated@.len());
    if generated@.len() == 0 {
        fails(s, r) && generated_error(failure(r), "Aeneas produced no generated artifacts"@)
    } else if report_inventory_fault(reports@, unit, lock) is Some {
        fails(s, r) && call_ensures(
            translation_report_inventory,
            (&reports, &unit, &lock),
            Err::<Vec<String>, AdapterError>(failure(r)),
        )
    } else if run == 1 {
        let ps = TranslationState {
            pretty: r.0.pretty,
            first_normalized: r.0.first_normalized,
            first_generated: Some(generated),
            first_symbols: r.0.first_symbols,
            ..s
        };
        &&& r.0.pretty@.len() == 0
        &&& r.0.first_normalized matches Some(n) && n@ == normalized
        &&& string_views(r.0.first_symbols@) == string_views(unit.start_from@)
        &&& enter_package_spec(unit, work, elapsed, 2, 0, ps, r)
    } else {
        let first = s.first_normalized->0@;
        let ps = TranslationState { second_normalized: r.0.second_normalized, pretty: r.0.pretty, ..s };
        let start = string_views(unit.start_from@);
        let symbols = string_views(s.first_symbols@);
        &&& r.0.pretty@.len() == 0
        &&& r.0.second_normalized matches Some(n) && n@ == normalized
        &&& if first != normalized {
            fails(ps, r) && determinism_error(
                failure(r),
                "two normalized runs differ at "@ + difference_text(first, normalized),
            )
        } else if !same_inventory(start, symbols) {
            fails(ps, r) && call_ensures(
                exact_symbol_inventory,
                (&unit.start_from, &s.first_symbols),
                Err::<(), AdapterError>(failure(r)),
            )
        } else if generated_audit_fails(unit, s.first_generated->0@) {
            fails(ps, r) && call_ensures(
                audit_generated_inventory,
                (&s.first_generated->0, &unit),
                Err::<(), AdapterError>(failure(r)),
            )
        } else if op == "inventory"@ || op == "check"@ || op == "reproduce"@ {
            r.0 == with_phase(ps, TranslationPhase::ReadCommitted) && r.1 == TranslationAction::ReadCommitted
        } else if op == "update"@ {
            &&& r.0 == TranslationState { phase: TranslationPhase::Write, first_generated: None, ..ps }
            &&& r.1 == TranslationAction::WriteGenerated(s.first_generated->0)
        } else {
            fails(ps, r) && request_error(failure(r), "unexpected operation `"@ + op + "`"@)
        }
    }
}

/// Whether auditing the first run's generated artifacts fails.
pub open spec fn generated_audit_fails(unit: TranslationUnit, g: Seq<(Seq<char>, Seq<u8>)>) -> bool {
    inventory_fault(unit, g) is Some || !same_keys(
        expected_keys(unit.generated_dir@, unit.warning_inventory@),
        found_keys(g, g.len()),
    )
}

/// The step once the committed tree is read: it must be exactly the first
/// run's generated artifacts.
pub open spec fn committed_spec(
    unit: TranslationUnit,
    s: TranslationState,
    committed: FileMap,
    r: (TranslationState, TranslationAction),
) -> bool {
    let produced = s.first_generated->0@;
    if committed@ != produced {
        fails(s, r) && generated_error(failure(r), drift_message(committed@, produced))
    } else {
        answer_spec(unit, s, r)
    }
}

/// What a translation decides next, from where it stands and what came of
/// its last action (nothing, at the start): the next state and action.
pub open spec fn translation_step_spec(
    op: Seq<char>,
    unit: TranslationUnit,
    lock: ToolchainLock,
    work: Seq<char>,
    elapsed: u64,
    s: TranslationState,
    event: Option<ToolEvent>,
    r: (TranslationState, TranslationAction),
) -> bool {
    match event {
        None => if s.phase is Start {
            r.0 == with_phase(s, TranslationPhase::Version(0)) && runs(
                r.1,
                "charon"@,
                seq!["--version"@],
                Place::Project,
                20000,
                None,
            )
        } else {
            fails(s, r) && internal_error(failure(r), unexpected_message())
        },
        Some(e) => if !expects(s, e) {
            fails(s, r) && internal_error(failure(r), unexpected_message())
        } else if event_error(e) is Some {
            fails_with(s, r, event_error(e)->0)
        } else {
            match (s.phase, e) {
                (TranslationPhase::Version(k), ToolEvent::Ran(Ok(o), _)) => version_spec(op, unit, lock, elapsed, k, s, o, r),
                (TranslationPhase::Metadata, ToolEvent::Ran(Ok(o), _)) => metadata_spec(s, o, r),
                (TranslationPhase::Packages, ToolEvent::Packages(Ok(list))) => packages_spec(unit, work, elapsed, s, list@, r),
                (TranslationPhase::Tool(run, p, stage), ToolEvent::Ran(Ok(o), produced)) => tool_spec(
                    unit,
                    work,
                    elapsed,
                    run,
                    p,
                    stage,
                    s,
                    o,
                    produced,
                    r,
                ),
                (TranslationPhase::Collect(run), ToolEvent::Collected(Ok((g, reports)))) => collect_spec(
                    op,
                    unit,
                    lock,
                    work,
                    elapsed,
                    run,
                    s,
                    g,
                    reports,
                    r,
                ),
                (TranslationPhase::ReadCommitted, ToolEvent::Committed(Ok(c))) => committed_spec(unit, s, c, r),
                (TranslationPhase::Write, ToolEvent::Written(Ok(_))) => answer_spec(unit, s, r),
                _ => false,
            }
        }
    }
}


/// `ensure_success`, with its failure stated over the command's views.
fn check_run(spec: &ProcessSpec, o: &ProcessOutput) -> (r: Result<(), AdapterError>)
    ensures
        r is Ok <==> !run_failed(*o),
        r matches Err(e) ==> success_error(spec.program@, string_views(spec.args@), *o, e),
{
    let r = ensure_success(spec, o);
    proof {
        if r is Err && !o.truncated {
            let a = choose|args: Seq<Seq<char>>|
                #![trigger args.len()]
                args.len() == spec.args@.len() && (forall|k: int|
                    0 <= k < args.len() ==> #[trigger] args[k] == logicalize_spec(
                        spec.args@[k]@,
                        temp_marker(),
                    )) && (r->Err_0 matches AdapterError::ToolFailed(m) && m@ == failed_run_message(
                    spec.program@,
                    args,
                    o.status,
                    failure_detail(o.stdout@, o.stderr@),
                ));
            assert(a =~= string_views(spec.args@).map_values(
                |x: Seq<char>| logicalize_spec(x, temp_marker()),
            ));
        }
    }
    r
}

fn remaining(unit: &TranslationUnit, elapsed: u64) -> (r: Option<u64>)
    ensures
        r == time_left(*unit, elapsed),
{
    let budget = match unit.resource_budget.time_seconds.checked_mul(1000) {
        Some(b) => b,
        None => u64::MAX,
    };
    if elapsed >= budget {
        None
    } else {
        Some(budget - elapsed)
    }
}

fn run_dir_of(work: &str, run: u64) -> (d: String)
    ensures
        d@ == run_dir(work@, run),
{
    let mut d = prefixed(work, "/run-");
    push_decimal(&mut d, run);
    proof {
        assert(d@ =~= run_dir(work@, run));
    }
    d
}

fn segment_of(package: &str) -> (g: String)
    ensures
        g@ == crate_segment(package@),
{
    let c = chars_of(package);
    let seg = crate_segment_of(c.as_slice());
    string_of(seg.as_slice())
}

fn llbc_of(work: &str, run: u64, package: &str) -> (l: String)
    ensures
        l@ == llbc_path(work@, run, package@),
{
    let d = run_dir_of(work, run);
    let seg = segment_of(package);
    let l = framed(d.as_str(), "/llbc/", seg.as_str());
    let out = prefixed(l.as_str(), ".llbc");
    proof {
        assert(out@ =~= llbc_path(work@, run, package@));
    }
    out
}

fn destination_of(work: &str, run: u64, package: &str, count: usize) -> (g: String)
    ensures
        g@ == generated_destination(work@, run, package@, count as nat),
{
    let d = run_dir_of(work, run);
    if count == 1 {
        let g = prefixed(d.as_str(), "/generated");
        proof {
            assert(g@ =~= generated_destination(work@, run, package@, count as nat));
        }
        g
    } else {
        let seg = segment_of(package);
        let g = framed(d.as_str(), "/generated/", seg.as_str());
        proof {
            assert(g@ =~= generated_destination(work@, run, package@, count as nat));
        }
        g
    }
}

/// The start symbols that belong to `package`, in order.
fn symbols_of(starts: &Vec<String>, package: &str) -> (out: Vec<String>)
    ensures
        string_views(out@) == symbols_for(string_views(starts@), package@),
{
    let seg = crate_segment_of(chars_of(package).as_slice());
    let mut out: Vec<String> = Vec::new();
    let mut i: usize = 0;
    while i < starts.len()
        invariant
            i <= starts@.len(),
            seg@ == crate_segment(package@),
            string_views(out@) == symbols_for(string_views(starts@).take(i as int), package@),
        decreases starts@.len() - i,
    {
        let c = chars_of(starts[i].as_str());
        let crate_name = crate::aeneas::symbol_crate_of(c.as_slice());
        let ghost w = string_views(starts@).take(i + 1);
        proof {
            assert(w.drop_last() =~= string_views(starts@).take(i as int));
            assert(w.last() == starts@[i as int]@);
        }
        if crate::inventory::compare_chars(crate_name.as_slice(), seg.as_slice()) == 0 {
            let ghost before = string_views(out@);
            let x = string_of(c.as_slice());
            out.push(x);
            proof {
                assert(string_views(out@) =~= before.push(starts@[i as int]@));
            }
        }
        i = i + 1;
    }
    proof {
        assert(string_views(starts@).take(starts@.len() as int) =~= string_views(starts@));
    }
    out
}

fn finish(s: TranslationState, e: AdapterError) -> (r: (TranslationState, TranslationAction))
    ensures
        fails_with(s, r, e),
{
    let mut s = s;
    s.phase = TranslationPhase::Done;
    (s, TranslationAction::Respond(Err(e)))
}

fn run_of(program: &str, args: Vec<String>, place: Place, timeout_ms: u64, produces: Option<String>) -> (a: TranslationAction)
    ensures
        runs(
            a,
            program@,
            string_views(args@),
            place,
            timeout_ms,
            match produces {
                Some(x) => Some(x@),
                None => None,
            },
        ),
{
    let spec = ProcessSpec { program: program.to_owned(), args };
    TranslationAction::Run { spec, place, timeout_ms, produces }
}

fn version_call() -> (args: Vec<String>)
    ensures
        string_views(args@) == seq!["--version"@],
{
    let args = vec!["--version".to_owned()];
    proof {
        assert(string_views(args@) =~= seq!["--version"@]);
    }
    args
}

fn metadata_call() -> (args: Vec<String>)
    ensures
        string_views(args@) == metadata_args(),
{
    let args = vec!["metadata".to_owned(), "--format-version".to_owned(), "1".to_owned(), "--no-deps".to_owned()];
    proof {
        assert(string_views(args@) =~= metadata_args());
    }
    args
}

/// Starts package `p` of run `run`, or collects the run past the last.
fn enter_package(
    unit: &TranslationUnit,
    work: &str,
    elapsed: u64,
    run: u64,
    p: usize,
    s: TranslationState,
) -> (r: (TranslationState, TranslationAction))
    requires
        s.manifests@.len() == unit.packages@.len(),
    ensures
        enter_package_spec(*unit, work@, elapsed, run, p, s, r),
{
    if p >= unit.packages.len() {
        let mut s = s;
        s.phase = TranslationPhase::Collect(run);
        return (s, TranslationAction::Collect(run));
    }
    match group_start_symbols(&unit.packages, &unit.start_from) {
        Err(e) => {
            return finish(s, e);
        },
        Ok(_) => {},
    }
    match remaining(unit, elapsed) {
        None => {
            let budget = match unit.resource_budget.time_seconds.checked_mul(1000) {
                Some(b) => b,
                None => u64::MAX,
            };
            finish(s, AdapterError::Timeout(budget))
        },
        Some(t) => {
            let package = unit.packages[p].as_str();
            let llbc = llbc_of(work, run, package);
            let starts = symbols_of(&unit.start_from, package);
            let args = build_charon_args(unit, &starts, llbc.as_str(), s.manifests[p].as_str());
            let a = run_of("charon", args, Place::Shadow, t, Some(llbc));
            let mut s = s;
            s.phase = TranslationPhase::Tool(run, p, 0);
            (s, a)
        },
    }
}


fn budget_of(unit: &TranslationUnit) -> (b: u64)
    ensures
        b == budget_ms(*unit),
{
    match unit.resource_budget.time_seconds.checked_mul(1000) {
        Some(b) => b,
        None => u64::MAX,
    }
}

fn version_step(
    operation: &str,
    unit: &TranslationUnit,
    lock: &ToolchainLock,
    elapsed: u64,
    k: u64,
    s: TranslationState,
    o: &ProcessOutput,
) -> (r: (TranslationState, TranslationAction))
    ensures
        version_spec(operation@, *unit, *lock, elapsed, k, s, *o, r),
        r.0.phase is Done || r.0.versions@.len() == s.versions@.len() + 1,
{
    let program = if k == 0 {
        "charon"
    } else {
        "aeneas"
    };
    let spec = ProcessSpec { program: program.to_owned(), args: version_call() };
    if let Err(e) = check_run(&spec, o) {
        return finish(s, e);
    }
    let bytes = if o.stdout.len() == 0 {
        o.stderr.as_slice()
    } else {
        o.stdout.as_slice()
    };
    let text = match utf8_text(bytes) {
        Ok(t) => t,
        Err(m) => {
            return finish(s, AdapterError::Toolchain(m));
        },
    };
    let v = trim_chars(chars_of(text.as_str()).as_slice());
    let pin = if k == 0 {
        lock.charon_revision.as_str()
    } else {
        lock.aeneas_revision.as_str()
    };
    let pc = chars_of(pin);
    if v.len() == 0 || find_in(v.as_slice(), pc.as_slice(), 0).is_none() {
        let vs = string_of(v.as_slice());
        let mut m = framed(program, " version `", vs.as_str());
        m.append("` does not contain pinned revision `");
        m.append(pin);
        m.append("`");
        proof {
            assert(m@ =~= version_message(version_tool(k), v@, version_pin(*lock, k)));
        }
        return finish(s, AdapterError::Toolchain(m));
    }
    let mut s = s;
    let ghost before = string_views(s.versions@);
    s.versions.push(string_of(v.as_slice()));
    proof {
        assert(string_views(s.versions@) =~= before.push(v@));
        assert(string_views(s.versions@).len() == s.versions@.len());
    }
    if k == 0 {
        s.phase = TranslationPhase::Version(1);
        return (s, run_of("aeneas", version_call(), Place::Project, 20000, None));
    }
    if str_equal(operation, "doctor") {
        s.phase = TranslationPhase::Done;
        let tool_version = joined_versions(&s.versions);
        return (s, TranslationAction::Respond(Ok(TranslationAnswer { inventory: Vec::new(), tool_version })));
    }
    match remaining(unit, elapsed) {
        None => finish(s, AdapterError::Timeout(budget_of(unit))),
        Some(t) => {
            s.phase = TranslationPhase::Metadata;
            (s, run_of("cargo", metadata_call(), Place::Shadow, t, None))
        },
    }
}

fn metadata_step(s: TranslationState, o: ProcessOutput) -> (r: (TranslationState, TranslationAction))
    ensures
        metadata_spec(s, o, r),
{
    let spec = ProcessSpec { program: "cargo".to_owned(), args: metadata_call() };
    if let Err(e) = check_run(&spec, &o) {
        return finish(s, e);
    }
    let mut s = s;
    s.phase = TranslationPhase::Packages;
    (s, TranslationAction::ResolvePackages(o.stdout))
}

/// The first entry naming a package gives its manifest.
proof fn lemma_manifest_for(list: Seq<(String, String)>, name: Seq<char>, j: int, n: nat)
    requires
        0 <= j < n <= list.len(),
        list[j].0@ == name,
        forall|i: int| 0 <= i < j ==> #[trigger] list[i].0@ != name,
    ensures
        manifest_for(list, name, n) == list[j].1@,
    decreases n,
{
    if n == j + 1 {
        assert(!manifest_listed(list, name, (n - 1) as nat));
    } else {
        assert(manifest_listed(list, name, (n - 1) as nat)) by {
            assert(list[j].0@ == name);
        }
        lemma_manifest_for(list, name, j, (n - 1) as nat);
    }
}

fn manifest_of(list: &Vec<(String, String)>, name: &str) -> (m: String)
    requires
        exists|i: int| 0 <= i < list@.len() && #[trigger] list@[i].0@ == name@,
    ensures
        m@ == manifest_for(list@, name@, list@.len()),
{
    let mut j: usize = 0;
    while j < list.len()
        invariant
            j <= list@.len(),
            exists|i: int| 0 <= i < list@.len() && #[trigger] list@[i].0@ == name@,
            forall|i: int| 0 <= i < j ==> #[trigger] list@[i].0@ != name@,
        decreases list@.len() - j,
    {
        if str_equal(list[j].0.as_str(), name) {
            proof {
                lemma_manifest_for(list@, name@, j as int, list@.len());
            }
            return list[j].1.clone();
        }
        j = j + 1;
    }
    proof {
        let i = choose|i: int| 0 <= i < list@.len() && #[trigger] list@[i].0@ == name@;
        assert(list@[i].0@ != name@);
    }
    String::new()
}

fn packages_step(
    unit: &TranslationUnit,
    work: &str,
    elapsed: u64,
    s: TranslationState,
    list: &Vec<(String, String)>,
) -> (r: (TranslationState, TranslationAction))
    ensures
        packages_spec(*unit, work@, elapsed, s, list@, r),
        r.0.phase is Done || r.0.manifests@.len() == unit.packages@.len(),
{
    let ghost names_view = list@.map_values(|x: (String, String)| x.0@);
    let mut names: Vec<String> = Vec::new();
    let mut i: usize = 0;
    while i < list.len()
        invariant
            i <= list@.len(),
            names_view == list@.map_values(|x: (String, String)| x.0@),
            string_views(names@) == names_view.take(i as int),
        decreases list@.len() - i,
    {
        let ghost before = string_views(names@);
        names.push(list[i].0.clone());
        proof {
            assert(string_views(names@) =~= before.push(list@[i as int].0@));
            assert(names_view.take(i + 1) =~= names_view.take(i as int).push(list@[i as int].0@));
        }
        i = i + 1;
    }
    proof {
        assert(names_view.take(list@.len() as int) =~= names_view);
    }
    if let Err(e) = exact_set("translation packages", &unit.packages, &names) {
        return finish(s, e);
    }
    let ghost packages = string_views(unit.packages@);
    let mut manifests: Vec<String> = Vec::new();
    let mut p: usize = 0;
    while p < unit.packages.len()
        invariant
            p <= unit.packages@.len(),
            packages == string_views(unit.packages@),
            names_view == list@.map_values(|x: (String, String)| x.0@),
            same_values(packages, names_view),
            string_views(manifests@) == packages.take(p as int).map_values(
                |q: Seq<char>| manifest_for(list@, q, list@.len()),
            ),
        decreases unit.packages@.len() - p,
    {
        proof {
            assert(packages[p as int] == unit.packages@[p as int]@);
            assert(packages.contains(packages[p as int]));
            assert(names_view.contains(packages[p as int]));
            let i = choose|i: int| 0 <= i < names_view.len() && names_view[i] == packages[p as int];
            assert(list@[i].0@ == unit.packages@[p as int]@);
        }
        let m = manifest_of(list, unit.packages[p].as_str());
        let ghost before = string_views(manifests@);
        manifests.push(m);
        proof {
            assert(string_views(manifests@) =~= before.push(m@));
            assert(packages.take(p + 1).map_values(|q: Seq<char>| manifest_for(list@, q, list@.len()))
                =~= packages.take(p as int).map_values(|q: Seq<char>| manifest_for(list@, q, list@.len())).push(
                m@,
            ));
        }
        p = p + 1;
    }
    proof {
        assert(packages.take(packages.len() as int) =~= packages);
        assert(string_views(manifests@).len() == manifests@.len());
    }
    let mut s = s;
    s.manifests = manifests;
    enter_package(unit, work, elapsed, 1, 0, s)
}


/// The command stage `stage` of package `p` runs, rebuilt from the state.
fn stage_command(unit: &TranslationUnit, work: &str, run: u64, p: usize, stage: u64, manifests: &Vec<String>) -> (c:
    ProcessSpec)
    requires
        p < unit.packages@.len(),
        manifests@.len() == unit.packages@.len(),
    ensures
        (c.program@, string_views(c.args@)) == stage_spec(*unit, work@, run, p, stage, manifests@),
{
    let package = unit.packages[p].as_str();
    let llbc = llbc_of(work, run, package);
    if stage == 0 {
        let starts = symbols_of(&unit.start_from, package);
        ProcessSpec {
            program: "charon".to_owned(),
            args: build_charon_args(unit, &starts, llbc.as_str(), manifests[p].as_str()),
        }
    } else if stage == 1 {
        let args = vec!["pretty-print".to_owned(), llbc];
        proof {
            assert(string_views(args@) =~= seq!["pretty-print"@, llbc_path(work@, run, package@)]);
        }
        ProcessSpec { program: "charon".to_owned(), args }
    } else {
        let dest = destination_of(work, run, package, unit.packages.len());
        ProcessSpec { program: "aeneas".to_owned(), args: build_aeneas_args(llbc.as_str(), dest.as_str()) }
    }
}

fn tool_step(
    unit: &TranslationUnit,
    work: &str,
    elapsed: u64,
    run: u64,
    p: usize,
    stage: u64,
    s: TranslationState,
    o: &ProcessOutput,
    produced: bool,
) -> (r: (TranslationState, TranslationAction))
    requires
        p < unit.packages@.len(),
        s.manifests@.len() == unit.packages@.len(),
    ensures
        tool_spec(*unit, work@, elapsed, run, p, stage, s, *o, produced, r),
{
    let command = stage_command(unit, work, run, p, stage, &s.manifests);
    if let Err(e) = check_run(&command, o) {
        return finish(s, e);
    }
    let package = unit.packages[p].as_str();
    let llbc = llbc_of(work, run, package);
    let mut s = s;
    if stage == 0 {
        if !produced {
            return finish(s, AdapterError::Inventory(prefixed("Charon did not produce ", llbc.as_str())));
        }
        match remaining(unit, elapsed) {
            None => finish(s, AdapterError::Timeout(budget_of(unit))),
            Some(t) => {
                let args = vec!["pretty-print".to_owned(), llbc];
                proof {
                    assert(string_views(args@) =~= seq!["pretty-print"@, llbc_path(work@, run, package@)]);
                }
                s.phase = TranslationPhase::Tool(run, p, 1);
                (s, run_of("charon", args, Place::Shadow, t, None))
            },
        }
    } else if stage == 1 {
        if o.stdout.len() == 0 {
            return finish(
                s,
                AdapterError::Determinism(framed("Charon pretty-print for `", package, "` was empty")),
            );
        }
        let seg = segment_of(package);
        let path = framed("llbc/", seg.as_str(), ".llbc.pretty");
        s.pretty.insert(path.as_str(), normalize_text_bytes(o.stdout.as_slice()));
        match remaining(unit, elapsed) {
            None => finish(s, AdapterError::Timeout(budget_of(unit))),
            Some(t) => {
                let dest = destination_of(work, run, package, unit.packages.len());
                let args = build_aeneas_args(llbc.as_str(), dest.as_str());
                s.phase = TranslationPhase::Tool(run, p, 2);
                (s, run_of("aeneas", args, Place::Shadow, t, None))
            },
        }
    } else {
        let count = unit.packages.len();
        assert(p < count);
        enter_package(unit, work, elapsed, run, p + 1, s)
    }
}

/// The first run's normalized artifacts: the pretty-printed LLBC and each
/// generated file under `generated/`.
fn normalized_of(pretty: FileMap, generated: &FileMap) -> (n: FileMap)
    ensures
        n@ == run_normalized(pretty@, generated@, generated@.len()),
{
    let mut n = pretty;
    let mut i: usize = 0;
    let count = generated.len();
    while i < count
        invariant
            count == generated@.len(),
            i <= count,
            n@ == run_normalized(pretty@, generated@, i as nat),
        decreases count - i,
    {
        let path = string_of(generated.path_at(i));
        let full = prefixed("generated/", path.as_str());
        n.insert(full.as_str(), vstd::slice::slice_to_vec(generated.bytes_at(i)));
        i = i + 1;
    }
    n
}

/// Where two normalized runs first differ, in words.
fn difference_words(a: &FileMap, b: &FileMap) -> (m: String)
    ensures
        m@ == difference_text(a@, b@),
{
    let d = first_difference(a, b);
    match d {
        Difference::MissingFirst(k) => {
            let ks = string_of(k.as_slice());
            framed("missing first-run artifact `", ks.as_str(), "`")
        },
        Difference::MissingSecond(k) => {
            let ks = string_of(k.as_slice());
            framed("missing second-run artifact `", ks.as_str(), "`")
        },
        Difference::Byte(k, offset) => {
            let ks = string_of(k.as_slice());
            let mut m = framed("artifact `", ks.as_str(), "` byte ");
            push_decimal(&mut m, offset);
            m
        },
        Difference::Unknown => "unknown location".to_owned(),
    }
}


/// Where the unit places its template axioms and warning inventories:
/// below its generated directory, as validating the unit ensures.
pub open spec fn boundaries_below(unit: TranslationUnit) -> bool {
    &&& is_relative_path(unit.generated_dir@) ==> forall|i: int|
        0 <= i < unit.template_axioms@.len() ==> is_relative_path(#[trigger] unit.template_axioms@[i].file@)
            && components_prefix(unit.generated_dir@, unit.template_axioms@[i].file@)
    &&& is_relative_path(unit.generated_dir@) ==> forall|i: int|
        0 <= i < unit.warning_inventory@.len() ==> is_relative_path(
            #[trigger] unit.warning_inventory@[i].artifact@,
        ) && components_prefix(unit.generated_dir@, unit.warning_inventory@[i].artifact@)
}

/// Whether the unit's template axioms and warning inventories lie below
/// its generated directory: what `translation_step` asks of a unit.
pub fn boundaries_are_below(unit: &TranslationUnit) -> (b: bool)
    ensures
        b == boundaries_below(*unit),
{
    let generated = unit.generated_dir.as_str();
    if !crate::paths::relative_path_ok(generated) {
        return true;
    }
    let mut i: usize = 0;
    while i < unit.template_axioms.len()
        invariant
            i <= unit.template_axioms@.len(),
            is_relative_path(unit.generated_dir@),
            generated@ == unit.generated_dir@,
            forall|k: int|
                0 <= k < i ==> is_relative_path(#[trigger] unit.template_axioms@[k].file@) && components_prefix(
                    unit.generated_dir@,
                    unit.template_axioms@[k].file@,
                ),
        decreases unit.template_axioms@.len() - i,
    {
        if !crate::paths::path_contains(generated, unit.template_axioms[i].file.as_str()) {
            return false;
        }
        i = i + 1;
    }
    let mut j: usize = 0;
    while j < unit.warning_inventory.len()
        invariant
            j <= unit.warning_inventory@.len(),
            is_relative_path(unit.generated_dir@),
            generated@ == unit.generated_dir@,
            forall|k: int|
                0 <= k < unit.template_axioms@.len() ==> is_relative_path(#[trigger] unit.template_axioms@[k].file@)
                    && components_prefix(unit.generated_dir@, unit.template_axioms@[k].file@),
            forall|k: int|
                0 <= k < j ==> is_relative_path(#[trigger] unit.warning_inventory@[k].artifact@) && components_prefix(
                    unit.generated_dir@,
                    unit.warning_inventory@[k].artifact@,
                ),
        decreases unit.warning_inventory@.len() - j,
    {
        if !crate::paths::path_contains(generated, unit.warning_inventory[j].artifact.as_str()) {
            return false;
        }
        j = j + 1;
    }
    true
}

fn collect_step(
    operation: &str,
    unit: &TranslationUnit,
    lock: &ToolchainLock,
    work: &str,
    elapsed: u64,
    run: u64,
    s: TranslationState,
    generated: FileMap,
    reports: Vec<ReportFile>,
) -> (r: (TranslationState, TranslationAction))
    requires
        s.manifests@.len() == unit.packages@.len(),
        run != 1 ==> s.first_normalized is Some && s.first_generated is Some,
        boundaries_below(*unit),
    ensures
        collect_spec(operation@, *unit, *lock, work@, elapsed, run, s, generated, reports, r),
{
    if generated.len() == 0 {
        return finish(s, AdapterError::Generated("Aeneas produced no generated artifacts".to_owned()));
    }
    let symbols = match translation_report_inventory(&reports, unit, lock) {
        Err(e) => {
            return finish(s, e);
        },
        Ok(v) => v,
    };
    let ghost s0 = s;
    let mut s = s;
    let mut pretty = FileMap::new();
    std::mem::swap(&mut pretty, &mut s.pretty);
    let normalized = normalized_of(pretty, &generated);
    if run == 1 {
        s.first_normalized = Some(normalized);
        s.first_generated = Some(generated);
        s.first_symbols = symbols;
        return enter_package(unit, work, elapsed, 2, 0, s);
    }
    let first = match &s.first_normalized {
        Some(f) => f,
        None => {
            return finish(s, AdapterError::Internal("translation lost its first run".to_owned()));
        },
    };
    if !same_files(first, &normalized) {
        let words = difference_words(first, &normalized);
        let m = prefixed("two normalized runs differ at ", words.as_str());
        s.second_normalized = Some(normalized);
        return finish(s, AdapterError::Determinism(m));
    }
    s.second_normalized = Some(normalized);
    if let Err(e) = exact_symbol_inventory(&unit.start_from, &s.first_symbols) {
        return finish(s, e);
    }
    match &s.first_generated {
        Some(g) => {
            if let Err(e) = audit_generated_inventory(g, unit) {
                return finish(s, e);
            }
        },
        None => {},
    }
    if str_equal(operation, "inventory") || str_equal(operation, "check") || str_equal(operation, "reproduce") {
        s.phase = TranslationPhase::ReadCommitted;
        return (s, TranslationAction::ReadCommitted);
    }
    if str_equal(operation, "update") {
        let mut g: Option<FileMap> = None;
        std::mem::swap(&mut g, &mut s.first_generated);
        s.phase = TranslationPhase::Write;
        match g {
            Some(files) => {
                return (s, TranslationAction::WriteGenerated(files));
            },
            None => {
                return finish(s, AdapterError::Internal("translation lost its first run".to_owned()));
            },
        }
    }
    finish(s, AdapterError::Request(framed("unexpected operation `", operation, "`")))
}

pub(crate) fn copy_strings(v: &Vec<String>) -> (out: Vec<String>)
    ensures
        string_views(out@) == string_views(v@),
{
    let mut out: Vec<String> = Vec::new();
    let mut i: usize = 0;
    while i < v.len()
        invariant
            i <= v@.len(),
            string_views(out@) == string_views(v@).take(i as int),
        decreases v@.len() - i,
    {
        let ghost before = string_views(out@);
        out.push(v[i].clone());
        proof {
            assert(string_views(out@) =~= before.push(v@[i as int]@));
            assert(string_views(v@).take(i + 1) =~= string_views(v@).take(i as int).push(v@[i as int]@));
        }
        i = i + 1;
    }
    proof {
        assert(string_views(v@).take(v@.len() as int) =~= string_views(v@));
    }
    out
}

/// The version texts joined by `; `.
fn joined_versions(versions: &Vec<String>) -> (t: String)
    ensures
        t@ == join(string_views(versions@), "; "@),
{
    let lists = crate::text::char_lists(versions);
    let sep = chars_of("; ");
    let joined = crate::text::join_of(&lists, sep.as_slice());
    string_of(joined.as_slice())
}

fn answer(unit: &TranslationUnit, s: TranslationState) -> (r: (TranslationState, TranslationAction))
    ensures
        answer_spec(*unit, s, r),
{
    match sorted_unique(copy_strings(&unit.start_from), "translation symbols") {
        Ok(inventory) => {
            let mut s = s;
            s.phase = TranslationPhase::Done;
            let tool_version = joined_versions(&s.versions);
            (s, TranslationAction::Respond(Ok(TranslationAnswer { inventory, tool_version })))
        },
        Err(e) => finish(s, e),
    }
}

fn committed_step(unit: &TranslationUnit, s: TranslationState, committed: FileMap) -> (r: (
    TranslationState,
    TranslationAction,
))
    requires
        s.first_generated is Some,
    ensures
        committed_spec(*unit, s, committed, r),
{
    let checked = match &s.first_generated {
        Some(g) => compare_committed_generated(&committed, g),
        None => Ok(()),
    };
    match checked {
        Err(e) => finish(s, e),
        Ok(()) => answer(unit, s),
    }
}

/// Decides what a translation does next: from where it stands and what
/// came of its last action (nothing, at the start), the next state and the
/// action for the caller to take. `work` is the shadow workspace, outside
/// the reviewed tree; `elapsed_ms` the time spent so far.
pub fn translation_step(
    operation: &str,
    unit: &TranslationUnit,
    lock: &ToolchainLock,
    work: &str,
    elapsed_ms: u64,
    state: TranslationState,
    event: Option<ToolEvent>,
) -> (r: (TranslationState, TranslationAction))
    requires
        translation_wf(*unit, state),
        boundaries_below(*unit),
    ensures
        translation_step_spec(operation@, *unit, *lock, work@, elapsed_ms, state, event, r),
        translation_wf(*unit, r.0),
{
    match event {
        None => {
            if state.phase == TranslationPhase::Start {
                let mut s = state;
                s.phase = TranslationPhase::Version(0);
                (s, run_of("charon", version_call(), Place::Project, 20000, None))
            } else {
                finish(state, AdapterError::Internal(unexpected_event()))
            }
        },
        Some(e) => {
            let phase = state.phase;
            match (phase, e) {
                (TranslationPhase::Version(k), ToolEvent::Ran(Ok(o), _)) => version_step(
                    operation,
                    unit,
                    lock,
                    elapsed_ms,
                    k,
                    state,
                    &o,
                ),
                (TranslationPhase::Metadata, ToolEvent::Ran(Ok(o), _)) => metadata_step(state, o),
                (TranslationPhase::Packages, ToolEvent::Packages(Ok(list))) => packages_step(
                    unit,
                    work,
                    elapsed_ms,
                    state,
                    &list,
                ),
                (TranslationPhase::Tool(run, p, stage), ToolEvent::Ran(Ok(o), produced)) => tool_step(
                    unit,
                    work,
                    elapsed_ms,
                    run,
                    p,
                    stage,
                    state,
                    &o,
                    produced,
                ),
                (TranslationPhase::Collect(run), ToolEvent::Collected(Ok((g, reports)))) => collect_step(
                    operation,
                    unit,
                    lock,
                    work,
                    elapsed_ms,
                    run,
                    state,
                    g,
                    reports,
                ),
                (TranslationPhase::ReadCommitted, ToolEvent::Committed(Ok(c))) => committed_step(unit, state, c),
                (TranslationPhase::Write, ToolEvent::Written(Ok(()))) => answer(unit, state),
                (TranslationPhase::Version(_), ToolEvent::Ran(Err(x), _))
                | (TranslationPhase::Metadata, ToolEvent::Ran(Err(x), _))
                | (TranslationPhase::Tool(_, _, _), ToolEvent::Ran(Err(x), _))
                | (TranslationPhase::Packages, ToolEvent::Packages(Err(x)))
                | (TranslationPhase::Collect(_), ToolEvent::Collected(Err(x)))
                | (TranslationPhase::ReadCommitted, ToolEvent::Committed(Err(x)))
                | (TranslationPhase::Write, ToolEvent::Written(Err(x))) => finish(state, x),
                _ => finish(state, AdapterError::Internal(unexpected_event())),
            }
        },
    }
}

fn unexpected_event() -> (m: String)
    ensures
        m@ == unexpected_message(),
{
    "translation received an event it did not ask for".to_owned()
}


/// A translation answers with success only once its two runs have agreed
/// byte for byte on every normalized artifact; `doctor`, which translates
/// nothing, is the one operation that answers after the version probes.
pub proof fn lemma_success_needs_agreeing_runs(
    operation: Seq<char>,
    unit: TranslationUnit,
    lock: ToolchainLock,
    work: Seq<char>,
    elapsed: u64,
    s: TranslationState,
    event: Option<ToolEvent>,
    r: (TranslationState, TranslationAction),
)
    requires
        translation_wf(unit, s),
        translation_step_spec(operation, unit, lock, work, elapsed, s, event, r),
        r.1 matches TranslationAction::Respond(Ok(_)),
        operation != "doctor"@,
    ensures
        s.first_normalized is Some,
        s.second_normalized is Some,
        s.first_normalized->0@ == s.second_normalized->0@,
{
}

/// Only `update` ever writes the reviewed tree: every other operation
/// never asks for the committed generated tree to be replaced.
pub proof fn lemma_only_update_writes(
    operation: Seq<char>,
    unit: TranslationUnit,
    lock: ToolchainLock,
    work: Seq<char>,
    elapsed: u64,
    s: TranslationState,
    event: Option<ToolEvent>,
    r: (TranslationState, TranslationAction),
)
    requires
        translation_step_spec(operation, unit, lock, work, elapsed, s, event, r),
        operation != "update"@,
    ensures
        !(r.1 is WriteGenerated),
{
}

/// Translation tools run only in the shadow copy: the one command run in
/// the reviewed project is a `--version` probe.
pub proof fn lemma_tools_run_in_shadow(
    operation: Seq<char>,
    unit: TranslationUnit,
    lock: ToolchainLock,
    work: Seq<char>,
    elapsed: u64,
    s: TranslationState,
    event: Option<ToolEvent>,
    r: (TranslationState, TranslationAction),
)
    requires
        translation_step_spec(operation, unit, lock, work, elapsed, s, event, r),
        r.1 matches TranslationAction::Run { place, .. } && place == Place::Project,
    ensures
        r.0.phase is Version,
        r.1 matches TranslationAction::Run { spec, .. } && string_views(spec.args@) == seq!["--version"@],
{
}


/// A successful answer reports both tools: its tool version is the Charon
/// version text and then the Aeneas one, joined by `; `, each having named
/// its pinned revision.
pub proof fn lemma_answer_reports_both_versions(
    operation: Seq<char>,
    unit: TranslationUnit,
    lock: ToolchainLock,
    work: Seq<char>,
    elapsed: u64,
    s: TranslationState,
    event: Option<ToolEvent>,
    r: (TranslationState, TranslationAction),
)
    requires
        translation_wf(unit, s),
        translation_step_spec(operation, unit, lock, work, elapsed, s, event, r),
        r.1 matches TranslationAction::Respond(Ok(_)),
    ensures
        string_views(r.0.versions@).len() == 2,
        r.1 matches TranslationAction::Respond(Ok(a)) && a.tool_version@ == join(string_views(r.0.versions@), "; "@),
{
    assert(string_views(s.versions@).len() == s.versions@.len());
}

} // verus!
