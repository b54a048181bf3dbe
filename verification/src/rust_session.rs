//! A `cargo-test` evidence run as a sequence of decisions. The caller runs
//! each command in the baseline shadow copy and reports what came of it;
//! `rust_run_step` decides what follows: the unit's checks, the build,
//! listing each test binary, and, for `check` and `reproduce`, running each
//! configured test alone and requiring that exactly it ran and passed.
use vstd::prelude::*;
use crate::cargo::RustTestBinary;
use crate::inventory::{has_duplicates, sorted_set, MAX_INVENTORY};
use crate::names::is_safe_atom;
use crate::paths::components;
use crate::process::{failed_run_message, failure_detail, ProcessOutput, ProcessSpec};
use crate::test_unit::file_name;
use crate::testing::{
    ensure_one_rust_test_ran, ensure_success, parse_libtest_inventory, sorted_unique, AdapterError,
};
use crate::text::{lines, string_views, utf8_error_text};
use crate::testing::{libtest_names, one_rust_pass};
use vstd::utf8::{decode_utf8, valid_utf8};
use crate::translation::{any_bad, find_bad, rule_ok, NameRule};

verus! {

/// What a `cargo-test` run is configured with.
pub struct RustTestRun {
    /// The request's operation.
    pub operation: String,
    /// The unit's manifest, as its path in the baseline shadow copy.
    pub manifest: Option<String>,
    /// The unit's Cargo package.
    pub package: Option<String>,
    /// The unit's targets: Cargo selectors (starting with `-`) and named
    /// test targets.
    pub targets: Vec<String>,
    /// Extra arguments for `cargo test`.
    pub arguments: Vec<String>,
    /// The tests the unit registers, as `target::test` names.
    pub expected_inventory: Vec<String>,
    /// Whether the unit is a mutation witness.
    pub mutation_witness: bool,
    /// Whether an independent mutant shadow was prepared.
    pub mutant_shadow: bool,
    /// The unit's time budget, in milliseconds.
    pub budget_ms: u64,
    /// Whether the run only collects the tests, for a mutation replay.
    pub collect_only: bool,
}

/// Where a run stands.
#[derive(Clone, Copy, Debug, PartialEq, Eq, Structural)]
pub enum RustPhase {
    /// Nothing has run yet.
    Start,
    /// `cargo test --no-run` is building the tests.
    Build,
    /// The test binaries the build produced are resolved.
    Binaries,
    /// Binary `.0` is listing its tests.
    List(usize),
    /// Configured test `.0` is running alone.
    Exec(usize),
    /// The run is over.
    Done,
}

/// A collected test: its canonical `target::test` name, the executable
/// that holds it, and its libtest name.
pub type CollectedTest = (String, String, String);

/// What a run has gathered so far.
pub struct RustRunState {
    pub phase: RustPhase,
    pub binaries: Vec<RustTestBinary>,
    pub discovered: Vec<CollectedTest>,
    /// The configured tests to run: executable and libtest name.
    pub nodes: Vec<(String, String)>,
    /// The sorted configured inventory.
    pub inventory: Vec<String>,
}

/// What the caller is to do next.
pub enum RustAction {
    /// Run `spec` in the baseline shadow copy within `timeout_ms`.
    Run { spec: ProcessSpec, timeout_ms: u64 },
    /// Resolve the test binaries this `cargo test --no-run` output names.
    ResolveBinaries(Vec<u8>),
    /// Replay the unit's registered mutation with these selectors and
    /// named targets.
    ReplayMutation { selectors: Vec<String>, named: Vec<String> },
    /// Answer the request: the configured inventory, or the failure.
    Respond(Result<Vec<String>, AdapterError>),
    /// Hand back the collected tests, where the run only collects them.
    Discovered(Vec<CollectedTest>),
}

/// What came of an action.
pub enum RustEvent {
    Ran(Result<ProcessOutput, AdapterError>),
    Binaries(Result<Vec<RustTestBinary>, AdapterError>),
}

impl RustRunState {
    /// A run that has not started.
    pub fn start() -> (s: RustRunState)
        ensures
            s.phase == RustPhase::Start,
            s.binaries@.len() == 0,
            s.discovered@.len() == 0,
            s.nodes@.len() == 0,
            s.inventory@.len() == 0,
    {
        RustRunState {
            phase: RustPhase::Start,
            binaries: Vec::new(),
            discovered: Vec::new(),
            nodes: Vec::new(),
            inventory: Vec::new(),
        }
    }
}

/// A target that selects Cargo targets rather than naming a test.
pub open spec fn is_selector(t: Seq<char>) -> bool {
    t.len() > 0 && t[0] == '-'
}

/// The targets of `ts[..n]` that are selectors (`want`) or named targets.
pub open spec fn targets_where(ts: Seq<Seq<char>>, want: bool, n: nat) -> Seq<Seq<char>>
    decreases n,
{
    if n == 0 || n > ts.len() {
        Seq::empty()
    } else if is_selector(ts[n - 1]) == want {
        targets_where(ts, want, (n - 1) as nat).push(ts[n - 1])
    } else {
        targets_where(ts, want, (n - 1) as nat)
    }
}

/// The state with another phase.
pub open spec fn at(s: RustRunState, p: RustPhase) -> RustRunState {
    RustRunState { phase: p, ..s }
}

/// The run ends with a failure.
pub open spec fn stops(s: RustRunState, r: (RustRunState, RustAction)) -> bool {
    r.0 == at(s, RustPhase::Done) && r.1 is Respond && r.1->Respond_0 is Err
}

/// The failure the run ends with.
pub open spec fn failure_of(r: (RustRunState, RustAction)) -> AdapterError {
    r.1->Respond_0->Err_0
}

/// The failure is a unit failure with message `m`.
pub open spec fn unit_error(e: AdapterError, m: Seq<char>) -> bool {
    e matches AdapterError::Unit(x) && x@ == m
}

/// The failure is an inventory failure with message `m`.
pub open spec fn inventory_error(e: AdapterError, m: Seq<char>) -> bool {
    e matches AdapterError::Inventory(x) && x@ == m
}

/// The failure is an internal failure with message `m`.
pub open spec fn internal_error(e: AdapterError, m: Seq<char>) -> bool {
    e matches AdapterError::Internal(x) && x@ == m
}

/// The action runs `program` with `args` within `timeout`.
pub open spec fn runs_command(a: RustAction, program: Seq<char>, args: Seq<Seq<char>>, timeout: u64) -> bool {
    a matches RustAction::Run { spec, timeout_ms } && spec.program@ == program && string_views(spec.args@)
        == args && timeout_ms == timeout
}

/// The failure `ensure_success` reports for a failed run.
pub open spec fn run_failure(program: Seq<char>, args: Seq<Seq<char>>, o: ProcessOutput, e: AdapterError) -> bool {
    if o.truncated {
        inventory_error(e, "`"@ + program + "` output exceeded 8 MiB"@)
    } else {
        e matches AdapterError::ToolFailed(m) && m@ == failed_run_message(
            program,
            args,
            o.status,
            failure_detail(o.stdout@, o.stderr@),
        )
    }
}

/// A run that was cut short or exited other than 0.
pub open spec fn failed(o: ProcessOutput) -> bool {
    o.truncated || o.status != Some(0i32)
}

/// The time left before the budget runs out, if any.
pub open spec fn left(c: RustTestRun, elapsed: u64) -> Option<u64> {
    if elapsed >= c.budget_ms {
        None
    } else {
        Some((c.budget_ms - elapsed) as u64)
    }
}

/// The arguments of the build: `cargo test --no-run` in JSON, for the
/// package, with the selectors and the extra arguments.
pub open spec fn build_args(c: RustTestRun) -> Seq<Seq<char>> {
    seq![
        "test"@,
        "--no-run"@,
        "--message-format=json"@,
        "--manifest-path"@,
        c.manifest->0@,
        "--package"@,
        c.package->0@,
    ] + targets_where(string_views(c.targets@), true, c.targets@.len()) + string_views(c.arguments@)
}

/// The arguments that list a binary's tests.
pub open spec fn list_args() -> Seq<Seq<char>> {
    seq!["--list"@, "--format"@, "terse"@]
}

/// What starting a run decides.
pub open spec fn start_spec(c: RustTestRun, elapsed: u64, s: RustRunState, r: (RustRunState, RustAction)) -> bool {
    let ts = string_views(c.targets@);
    let selectors = targets_where(ts, true, ts.len());
    let named = targets_where(ts, false, ts.len());
    if c.manifest is None {
        stops(s, r) && unit_error(failure_of(r), "cargo-test requires operation.manifest"@)
    } else if components(c.manifest->0@).len() == 0 || file_name(c.manifest->0@) != "Cargo.toml"@ {
        stops(s, r) && unit_error(failure_of(r), "cargo-test manifest must be named Cargo.toml"@)
    } else if c.package is None {
        stops(s, r) && unit_error(failure_of(r), "cargo-test requires operation.package"@)
    } else if !is_safe_atom(c.package->0@) {
        stops(s, r) && unit_error(failure_of(r), "invalid Cargo package `"@ + c.package->0@ + "`"@)
    } else if any_bad(selectors, rule_ok(NameRule::CargoSelector)) is Some {
        stops(s, r) && unit_error(
            failure_of(r),
            "unsupported Cargo target selector `"@ + any_bad(selectors, rule_ok(NameRule::CargoSelector))->0
                + "`"@,
        )
    } else if any_bad(named, rule_ok(NameRule::TestTail)) is Some {
        stops(s, r) && unit_error(
            failure_of(r),
            "invalid Rust test target `"@ + any_bad(named, rule_ok(NameRule::TestTail))->0 + "`"@,
        )
    } else if c.mutation_witness && !c.mutant_shadow {
        stops(s, r) && internal_error(failure_of(r), "mutation replay has no independent mutant shadow"@)
    } else if c.mutation_witness {
        &&& r.0 == at(s, RustPhase::Done)
        &&& r.1 matches RustAction::ReplayMutation { selectors: sv, named: nv }
        &&& string_views(sv@) == selectors
        &&& string_views(nv@) == named
    } else if c.mutant_shadow {
        stops(s, r) && internal_error(failure_of(r), "non-mutation test unexpectedly received a mutant shadow"@)
    } else if named.len() > 0 {
        stops(s, r) && unit_error(
            failure_of(r),
            "named cargo targets are reserved for mutation-witness units; use expected_inventory for exact tests"@,
        )
    } else {
        match left(c, elapsed) {
            None => stops(s, r) && failure_of(r) == AdapterError::Timeout(c.budget_ms),
            Some(t) => r.0 == at(s, RustPhase::Build) && runs_command(r.1, "cargo"@, build_args(c), t),
        }
    }
}

/// The collected tests as plain values.
pub open spec fn collected_views(d: Seq<CollectedTest>) -> Seq<(Seq<char>, Seq<char>, Seq<char>)> {
    d.map_values(|t: CollectedTest| (t.0@, t.1@, t.2@))
}

/// The tests binary `b` adds to `found`, named `target::test` in the
/// order listed, or the first that is already there.
pub open spec fn add_tests(
    found: Seq<(Seq<char>, Seq<char>, Seq<char>)>,
    target: Seq<char>,
    executable: Seq<char>,
    names: Seq<Seq<char>>,
    n: nat,
) -> Result<Seq<(Seq<char>, Seq<char>, Seq<char>)>, Seq<char>>
    decreases n,
{
    if n == 0 || n > names.len() {
        Ok(found)
    } else {
        match add_tests(found, target, executable, names, (n - 1) as nat) {
            Err(c) => Err(c),
            Ok(f) => {
                let canonical = target + "::"@ + names[n - 1];
                if exists|i: int| 0 <= i < f.len() && #[trigger] f[i].0 == canonical {
                    Err(canonical)
                } else {
                    Ok(f.push((canonical, executable, names[n - 1])))
                }
            },
        }
    }
}

/// The index of the first collected test at or after `from` named `name`,
/// or the number collected.
pub open spec fn test_index(found: Seq<(Seq<char>, Seq<char>, Seq<char>)>, name: Seq<char>, from: int) -> int
    decreases found.len() - from,
{
    if from < 0 || from >= found.len() {
        found.len() as int
    } else if found[from].0 == name {
        from
    } else {
        test_index(found, name, from + 1)
    }
}

/// The executable and libtest name of the collected test `name`, if any.
pub open spec fn lookup(found: Seq<(Seq<char>, Seq<char>, Seq<char>)>, name: Seq<char>) -> Option<(Seq<char>, Seq<char>)> {
    let i = test_index(found, name, 0);
    if i < found.len() {
        Some((found[i].1, found[i].2))
    } else {
        None
    }
}

/// The first configured test of `expected[..n]` that was not collected.
pub open spec fn first_missing(
    found: Seq<(Seq<char>, Seq<char>, Seq<char>)>,
    expected: Seq<Seq<char>>,
    n: nat,
) -> Option<Seq<char>>
    decreases n,
{
    if n == 0 || n > expected.len() {
        None
    } else {
        match first_missing(found, expected, (n - 1) as nat) {
            Some(m) => Some(m),
            None => if lookup(found, expected[n - 1]) is None {
                Some(expected[n - 1])
            } else {
                None
            },
        }
    }
}

/// What the collection decides once every binary listed its tests: each
/// configured test must be collected, the inventory must be valid and
/// nonempty; `check` and `reproduce` then run the first test alone.
pub open spec fn collected_spec(
    c: RustTestRun,
    elapsed: u64,
    s: RustRunState,
    found: Seq<(Seq<char>, Seq<char>, Seq<char>)>,
    r: (RustRunState, RustAction),
) -> bool {
    let expected = string_views(c.expected_inventory@);
    let ps = RustRunState { discovered: r.0.discovered, nodes: r.0.nodes, inventory: r.0.inventory, ..s };
    &&& collected_views(r.0.discovered@) == found
    &&& if c.collect_only {
        r.0 == at(ps, RustPhase::Done) && (r.1 matches RustAction::Discovered(d) && collected_views(d@) == found)
    } else {
        match first_missing(found, expected, expected.len()) {
        Some(m) => stops(ps, r) && inventory_error(failure_of(r), "configured Rust test `"@ + m + "` was not collected"@),
        None => if expected.len() > MAX_INVENTORY || has_duplicates(expected) {
            stops(ps, r) && inventory_error(
                failure_of(r),
                "expected inventory"@ + if expected.len() > MAX_INVENTORY {
                    " exceeds 100000 items"@
                } else {
                    " contains duplicates"@
                },
            )
        } else if expected.len() == 0 {
            stops(ps, r) && inventory_error(failure_of(r), "configured test inventory is empty"@)
        } else {
            &&& r.0.nodes@.map_values(|n: (String, String)| (n.0@, n.1@)) == expected.map_values(
                |e: Seq<char>| lookup(found, e)->0,
            )
            &&& string_views(r.0.inventory@) == sorted_set(expected)
            &&& if c.operation@ == "check"@ || c.operation@ == "reproduce"@ {
                match left(c, elapsed) {
                    None => stops(ps, r) && failure_of(r) == AdapterError::Timeout(c.budget_ms),
                    Some(t) => r.0 == at(ps, RustPhase::Exec(0)) && runs_command(
                        r.1,
                        found[test_index(found, expected[0], 0)].1,
                        seq![found[test_index(found, expected[0], 0)].2, "--exact"@],
                        t,
                    ),
                }
            } else {
                r.0 == at(ps, RustPhase::Done) && (r.1 matches RustAction::Respond(Ok(inv)) && string_views(inv@)
                    == sorted_set(expected))
            }
        },
    }
    }
}


/// What reading a binary's `--list` output gives: its sorted test names,
/// or why it cannot be read.
pub open spec fn libtest_outcome(bytes: Seq<u8>) -> Result<Seq<Seq<char>>, Seq<char>> {
    if !valid_utf8(bytes) {
        Err(utf8_error_text(bytes))
    } else {
        match libtest_names(lines(decode_utf8(bytes))) {
            Err(m) => Err(m),
            Ok(names) => if names.len() > MAX_INVENTORY {
                Err("libtest inventory"@ + " exceeds 100000 items"@)
            } else if has_duplicates(names) {
                Err("libtest inventory"@ + " contains duplicates"@)
            } else {
                Ok(sorted_set(names))
            },
        }
    }
}

/// Why a test run does not show exactly the test `name` passing, if it
/// does not.
pub open spec fn pass_fault(o: ProcessOutput, name: Seq<char>) -> Option<Seq<char>> {
    if !valid_utf8(o.stdout@) {
        Some("non-UTF-8 "@ + "libtest"@ + " output: "@ + utf8_error_text(o.stdout@))
    } else if !valid_utf8(o.stderr@) {
        Some("non-UTF-8 "@ + "libtest"@ + " output: "@ + utf8_error_text(o.stderr@))
    } else if one_rust_pass(decode_utf8(o.stdout@), decode_utf8(o.stderr@), name) {
        None
    } else {
        Some("Rust test `"@ + name + "` did not report exactly one passing test"@)
    }
}

/// The step after the build.
pub open spec fn build_spec(c: RustTestRun, s: RustRunState, o: ProcessOutput, r: (RustRunState, RustAction)) -> bool {
    if failed(o) {
        stops(s, r) && run_failure("cargo"@, build_args(c), o, failure_of(r))
    } else {
        r.0 == at(s, RustPhase::Binaries) && (r.1 matches RustAction::ResolveBinaries(b) && b@ == o.stdout@)
    }
}

/// The step once the test binaries are resolved: list the first.
pub open spec fn binaries_spec(
    c: RustTestRun,
    elapsed: u64,
    s: RustRunState,
    bins: Vec<RustTestBinary>,
    r: (RustRunState, RustAction),
) -> bool {
    let ps = RustRunState { binaries: bins, ..s };
    if bins@.len() == 0 {
        stops(s, r) && inventory_error(failure_of(r), "Cargo produced no test executables"@)
    } else {
        match left(c, elapsed) {
            None => stops(ps, r) && failure_of(r) == AdapterError::Timeout(c.budget_ms),
            Some(t) => r.0 == at(ps, RustPhase::List(0)) && runs_command(r.1, bins@[0].executable@, list_args(), t),
        }
    }
}

/// The step after binary `i` listed its tests.
pub open spec fn list_spec(
    c: RustTestRun,
    elapsed: u64,
    i: usize,
    s: RustRunState,
    o: ProcessOutput,
    r: (RustRunState, RustAction),
) -> bool {
    let b = s.binaries@[i as int];
    let ps = RustRunState { discovered: r.0.discovered, ..s };
    if failed(o) {
        stops(s, r) && run_failure(b.executable@, list_args(), o, failure_of(r))
    } else {
        match libtest_outcome(o.stdout@) {
            Err(m) => stops(s, r) && inventory_error(failure_of(r), m),
            Ok(names) => match add_tests(collected_views(s.discovered@), b.target@, b.executable@, names, names.len()) {
                Err(canonical) => r.0.phase == RustPhase::Done && r.1 is Respond && r.1->Respond_0 is Err
                    && inventory_error(failure_of(r), "duplicate collected Rust test `"@ + canonical + "`"@),
                Ok(found) => if i + 1 < s.binaries@.len() {
                    &&& collected_views(r.0.discovered@) == found
                    &&& match left(c, elapsed) {
                        None => stops(ps, r) && failure_of(r) == AdapterError::Timeout(c.budget_ms),
                        Some(t) => r.0 == at(ps, RustPhase::List((i + 1) as usize)) && runs_command(
                            r.1,
                            s.binaries@[i + 1].executable@,
                            list_args(),
                            t,
                        ),
                    }
                } else {
                    collected_spec(c, elapsed, s, found, r)
                },
            },
        }
    }
}

/// The step after configured test `k` ran alone.
pub open spec fn exec_spec(
    c: RustTestRun,
    elapsed: u64,
    k: usize,
    s: RustRunState,
    o: ProcessOutput,
    r: (RustRunState, RustAction),
) -> bool {
    let node = s.nodes@[k as int];
    if failed(o) {
        stops(s, r) && run_failure(node.0@, seq![node.1@, "--exact"@], o, failure_of(r))
    } else if pass_fault(o, node.1@) is Some {
        stops(s, r) && inventory_error(failure_of(r), pass_fault(o, node.1@)->0)
    } else if k + 1 < s.nodes@.len() {
        match left(c, elapsed) {
            None => stops(s, r) && failure_of(r) == AdapterError::Timeout(c.budget_ms),
            Some(t) => r.0 == at(s, RustPhase::Exec((k + 1) as usize)) && runs_command(
                r.1,
                s.nodes@[k + 1].0@,
                seq![s.nodes@[k + 1].1@, "--exact"@],
                t,
            ),
        }
    } else {
        r.0 == at(s, RustPhase::Done) && (r.1 matches RustAction::Respond(Ok(inv)) && string_views(inv@)
            == string_views(s.inventory@))
    }
}

/// The message of an event that the run did not ask for.
pub open spec fn unasked_message() -> Seq<char> {
    "test run received an event it did not ask for"@
}

/// Whether a run state is one `rust_run_step` reaches.
pub open spec fn rust_run_wf(c: RustTestRun, s: RustRunState) -> bool {
    &&& s.phase == RustPhase::Build ==> c.manifest is Some && c.package is Some
    &&& s.phase matches RustPhase::List(i) ==> i < s.binaries@.len()
    &&& s.phase matches RustPhase::Exec(k) ==> k < s.nodes@.len()
}

/// What a `cargo-test` run decides next, from where it stands and what came
/// of its last action (nothing, at the start).
pub open spec fn rust_run_step_spec(
    c: RustTestRun,
    elapsed: u64,
    s: RustRunState,
    event: Option<RustEvent>,
    r: (RustRunState, RustAction),
) -> bool {
    match event {
        None => if s.phase == RustPhase::Start {
            start_spec(c, elapsed, s, r)
        } else {
            stops(s, r) && internal_error(failure_of(r), unasked_message())
        },
        Some(e) => match (s.phase, e) {
            (RustPhase::Build, RustEvent::Ran(Ok(o))) => build_spec(c, s, o, r),
            (RustPhase::Binaries, RustEvent::Binaries(Ok(bins))) => binaries_spec(c, elapsed, s, bins, r),
            (RustPhase::List(i), RustEvent::Ran(Ok(o))) => list_spec(c, elapsed, i, s, o, r),
            (RustPhase::Exec(k), RustEvent::Ran(Ok(o))) => exec_spec(c, elapsed, k, s, o, r),
            (RustPhase::Build, RustEvent::Ran(Err(x))) | (RustPhase::List(_), RustEvent::Ran(Err(x))) | (
                RustPhase::Exec(_),
                RustEvent::Ran(Err(x)),
            ) | (RustPhase::Binaries, RustEvent::Binaries(Err(x))) => stops(s, r) && failure_of(r) == x,
            _ => stops(s, r) && internal_error(failure_of(r), unasked_message()),
        },
    }
}


fn stop(s: RustRunState, e: AdapterError) -> (r: (RustRunState, RustAction))
    ensures
        stops(s, r),
        failure_of(r) == e,
{
    let mut s = s;
    s.phase = RustPhase::Done;
    (s, RustAction::Respond(Err(e)))
}

fn time_left_of(c: &RustTestRun, elapsed: u64) -> (t: Option<u64>)
    ensures
        t == left(*c, elapsed),
{
    if elapsed >= c.budget_ms {
        None
    } else {
        Some(c.budget_ms - elapsed)
    }
}

fn command(program: &str, args: Vec<String>, timeout_ms: u64) -> (a: RustAction)
    ensures
        runs_command(a, program@, string_views(args@), timeout_ms),
{
    RustAction::Run { spec: ProcessSpec { program: program.to_owned(), args }, timeout_ms }
}

/// The targets that are selectors (`want`) or named targets, in order.
fn targets_split(targets: &Vec<String>, want: bool) -> (out: Vec<String>)
    ensures
        string_views(out@) == targets_where(string_views(targets@), want, targets@.len()),
{
    let ghost ts = string_views(targets@);
    let mut out: Vec<String> = Vec::new();
    let mut i: usize = 0;
    while i < targets.len()
        invariant
            i <= targets@.len(),
            ts == string_views(targets@),
            string_views(out@) == targets_where(ts, want, i as nat),
        decreases targets@.len() - i,
    {
        let t = targets[i].as_str();
        let c = crate::text::chars_of(t);
        let selector = c.len() > 0 && c[0] == '-';
        proof {
            assert(ts[i as int] == t@);
        }
        if selector == want {
            let ghost before = string_views(out@);
            out.push(t.to_owned());
            proof {
                assert(string_views(out@) =~= before.push(t@));
            }
        }
        i = i + 1;
    }
    out
}

/// Whether a manifest path's file name is `Cargo.toml`.
fn cargo_manifest_named(path: &str) -> (b: bool)
    ensures
        b == (components(path@).len() > 0 && file_name(path@) == "Cargo.toml"@),
{
    let c = crate::text::chars_of(path);
    let parts = crate::paths::components_of(c.as_slice());
    if parts.len() == 0 {
        return false;
    }
    let last = parts[parts.len() - 1].as_slice();
    proof {
        assert(crate::text::views(parts@).last() == last@);
    }
    crate::testing::equals_lit(last, "Cargo.toml")
}

fn start_step(c: &RustTestRun, elapsed: u64, s: RustRunState) -> (r: (RustRunState, RustAction))
    ensures
        start_spec(*c, elapsed, s, r),
{
    let manifest = match &c.manifest {
        None => {
            return stop(s, AdapterError::Unit("cargo-test requires operation.manifest".to_owned()));
        },
        Some(m) => m.as_str(),
    };
    if !cargo_manifest_named(manifest) {
        return stop(s, AdapterError::Unit("cargo-test manifest must be named Cargo.toml".to_owned()));
    }
    let package = match &c.package {
        None => {
            return stop(s, AdapterError::Unit("cargo-test requires operation.package".to_owned()));
        },
        Some(p) => p.as_str(),
    };
    if !crate::names::safe_atom(package) {
        return stop(s, AdapterError::Unit(crate::aeneas::framed("invalid Cargo package `", package, "`")));
    }
    let selectors = targets_split(&c.targets, true);
    let named = targets_split(&c.targets, false);
    match find_bad(&selectors, NameRule::CargoSelector) {
        Some(i) => {
            return stop(
                s,
                AdapterError::Unit(
                    crate::aeneas::framed("unsupported Cargo target selector `", selectors[i].as_str(), "`"),
                ),
            );
        },
        None => {},
    }
    match find_bad(&named, NameRule::TestTail) {
        Some(i) => {
            return stop(
                s,
                AdapterError::Unit(crate::aeneas::framed("invalid Rust test target `", named[i].as_str(), "`")),
            );
        },
        None => {},
    }
    if c.mutation_witness {
        if !c.mutant_shadow {
            return stop(s, AdapterError::Internal("mutation replay has no independent mutant shadow".to_owned()));
        }
        let mut s = s;
        s.phase = RustPhase::Done;
        return (s, RustAction::ReplayMutation { selectors, named });
    }
    if c.mutant_shadow {
        return stop(
            s,
            AdapterError::Internal("non-mutation test unexpectedly received a mutant shadow".to_owned()),
        );
    }
    if named.len() > 0 {
        return stop(
            s,
            AdapterError::Unit(
                "named cargo targets are reserved for mutation-witness units; use expected_inventory for exact tests".to_owned(),
            ),
        );
    }
    match time_left_of(c, elapsed) {
        None => stop(s, AdapterError::Timeout(c.budget_ms)),
        Some(t) => {
            let mut args = vec![
                "test".to_owned(),
                "--no-run".to_owned(),
                "--message-format=json".to_owned(),
                "--manifest-path".to_owned(),
                manifest.to_owned(),
                "--package".to_owned(),
                package.to_owned(),
            ];
            let ghost head = string_views(args@);
            let mut sel = selectors;
            args.append(&mut sel);
            let mut extra = crate::session::copy_strings(&c.arguments);
            let ghost mid = string_views(args@);
            args.append(&mut extra);
            proof {
                assert(head =~= seq![
                    "test"@,
                    "--no-run"@,
                    "--message-format=json"@,
                    "--manifest-path"@,
                    c.manifest->0@,
                    "--package"@,
                    c.package->0@,
                ]);
                assert(string_views(args@) =~= build_args(*c));
            }
            let mut s = s;
            s.phase = RustPhase::Build;
            (s, command("cargo", args, t))
        },
    }
}


fn list_call() -> (args: Vec<String>)
    ensures
        string_views(args@) == list_args(),
{
    let args = vec!["--list".to_owned(), "--format".to_owned(), "terse".to_owned()];
    proof {
        assert(string_views(args@) =~= list_args());
    }
    args
}

pub(crate) fn exact_call(name: &str) -> (args: Vec<String>)
    ensures
        string_views(args@) == seq![name@, "--exact"@],
{
    let args = vec![name.to_owned(), "--exact".to_owned()];
    proof {
        assert(string_views(args@) =~= seq![name@, "--exact"@]);
    }
    args
}

fn build_step(c: &RustTestRun, s: RustRunState, o: ProcessOutput) -> (r: (RustRunState, RustAction))
    requires
        c.manifest is Some,
        c.package is Some,
    ensures
        build_spec(*c, s, o, r),
{
    let mut args = vec![
        "test".to_owned(),
        "--no-run".to_owned(),
        "--message-format=json".to_owned(),
        "--manifest-path".to_owned(),
        match &c.manifest {
            Some(m) => m.clone(),
            None => String::new(),
        },
        "--package".to_owned(),
        match &c.package {
            Some(p) => p.clone(),
            None => String::new(),
        },
    ];
    let ghost head = string_views(args@);
    let mut sel = targets_split(&c.targets, true);
    args.append(&mut sel);
    let mut extra = crate::session::copy_strings(&c.arguments);
    args.append(&mut extra);
    proof {
        assert(head =~= seq![
            "test"@,
            "--no-run"@,
            "--message-format=json"@,
            "--manifest-path"@,
            c.manifest->0@,
            "--package"@,
            c.package->0@,
        ]);
        assert(string_views(args@) =~= build_args(*c));
    }
    let spec = ProcessSpec { program: "cargo".to_owned(), args };
    if let Err(e) = ensure_success(&spec, &o) {
        return stop(s, e);
    }
    let mut s = s;
    s.phase = RustPhase::Binaries;
    (s, RustAction::ResolveBinaries(o.stdout))
}

fn binaries_step(c: &RustTestRun, elapsed: u64, s: RustRunState, bins: Vec<RustTestBinary>) -> (r: (
    RustRunState,
    RustAction,
))
    ensures
        binaries_spec(*c, elapsed, s, bins, r),
        r.0.phase matches RustPhase::List(i) ==> i < r.0.binaries@.len(),
{
    if bins.len() == 0 {
        return stop(s, AdapterError::Inventory("Cargo produced no test executables".to_owned()));
    }
    let mut s = s;
    s.binaries = bins;
    match time_left_of(c, elapsed) {
        None => stop(s, AdapterError::Timeout(c.budget_ms)),
        Some(t) => {
            let a = command(s.binaries[0].executable.as_str(), list_call(), t);
            s.phase = RustPhase::List(0);
            (s, a)
        },
    }
}

/// Adds the tests a binary listed to the collected ones.
fn add_listed(found: &mut Vec<CollectedTest>, target: &str, executable: &str, names: &Vec<String>) -> (r: Result<
    (),
    String,
>)
    ensures
        match add_tests(collected_views(old(found)@), target@, executable@, string_views(names@), names@.len()) {
            Err(canonical) => r matches Err(m) && m@ == canonical,
            Ok(f) => r is Ok && collected_views(final(found)@) == f,
        },
{
    let ghost start = collected_views(found@);
    let ghost ns = string_views(names@);
    let mut i: usize = 0;
    while i < names.len()
        invariant
            i <= names@.len(),
            ns == string_views(names@),
            start == collected_views(old(found)@),
            add_tests(start, target@, executable@, ns, i as nat) == Ok::<Seq<(Seq<char>, Seq<char>, Seq<char>)>, Seq<char>>(
                collected_views(found@),
            ),
        decreases names@.len() - i,
    {
        let canonical = crate::aeneas::framed(target, "::", names[i].as_str());
        let ghost f = collected_views(found@);
        proof {
            assert(ns[i as int] == names@[i as int]@);
        }
        let mut j: usize = 0;
        while j < found.len()
            invariant
                j <= found@.len(),
                i < names@.len(),
                start == collected_views(old(found)@),
                ns == string_views(names@),
                ns[i as int] == names@[i as int]@,
                canonical@ == target@ + "::"@ + ns[i as int],
                add_tests(start, target@, executable@, ns, i as nat) == Ok::<Seq<(Seq<char>, Seq<char>, Seq<char>)>, Seq<char>>(f),
                f == collected_views(found@),
                forall|m: int| 0 <= m < j ==> #[trigger] f[m].0 != canonical@,
            decreases found@.len() - j,
        {
            proof {
                assert(f[j as int].0 == found@[j as int].0@);
            }
            if crate::text::str_equal(found[j].0.as_str(), canonical.as_str()) {
                proof {
                    assert(f[j as int].0 == canonical@);
                    assert(add_tests(start, target@, executable@, ns, (i + 1) as nat) == Err::<
                        Seq<(Seq<char>, Seq<char>, Seq<char>)>,
                        Seq<char>,
                    >(canonical@));
                    lemma_add_tests_stop(start, target@, executable@, ns, (i + 1) as nat, names@.len() as nat);
                }
                return Err(canonical);
            }
            j = j + 1;
        }
        let entry = (canonical, executable.to_owned(), names[i].clone());
        found.push(entry);
        proof {
            assert(collected_views(found@) =~= f.push((entry.0@, entry.1@, entry.2@)));
        }
        i = i + 1;
    }
    Ok(())
}

proof fn lemma_add_tests_stop(
    found: Seq<(Seq<char>, Seq<char>, Seq<char>)>,
    target: Seq<char>,
    executable: Seq<char>,
    names: Seq<Seq<char>>,
    m: nat,
    n: nat,
)
    requires
        m <= n <= names.len(),
        add_tests(found, target, executable, names, m) is Err,
    ensures
        add_tests(found, target, executable, names, n) == add_tests(found, target, executable, names, m),
    decreases n - m,
{
    if m < n {
        lemma_add_tests_stop(found, target, executable, names, m, (n - 1) as nat);
    }
}

/// The index of the first collected test named `name`.
pub(crate) fn find_test(found: &Vec<CollectedTest>, name: &str) -> (i: usize)
    ensures
        i as int == test_index(collected_views(found@), name@, 0),
{
    let ghost f = collected_views(found@);
    let mut i: usize = 0;
    while i < found.len()
        invariant
            i <= f.len(),
            f == collected_views(found@),
            test_index(f, name@, 0) == test_index(f, name@, i as int),
        decreases f.len() - i,
    {
        proof {
            assert(f[i as int].0 == found@[i as int].0@);
        }
        if crate::text::str_equal(found[i].0.as_str(), name) {
            return i;
        }
        i = i + 1;
    }
    i
}

proof fn lemma_missing_stop(
    found: Seq<(Seq<char>, Seq<char>, Seq<char>)>,
    expected: Seq<Seq<char>>,
    m: nat,
    n: nat,
)
    requires
        m <= n <= expected.len(),
        first_missing(found, expected, m) is Some,
    ensures
        first_missing(found, expected, n) == first_missing(found, expected, m),
    decreases n - m,
{
    if m < n {
        lemma_missing_stop(found, expected, m, (n - 1) as nat);
    }
}

pub(crate) proof fn lemma_test_index_bounds(found: Seq<(Seq<char>, Seq<char>, Seq<char>)>, name: Seq<char>, from: int)
    requires
        0 <= from <= found.len(),
    ensures
        from <= test_index(found, name, from) <= found.len(),
        test_index(found, name, from) < found.len() ==> found[test_index(found, name, from)].0 == name,
    decreases found.len() - from,
{
    if from < found.len() && found[from].0 != name {
        lemma_test_index_bounds(found, name, from + 1);
    }
}

fn copy_collected(d: &Vec<CollectedTest>) -> (out: Vec<CollectedTest>)
    ensures
        collected_views(out@) == collected_views(d@),
{
    let mut out: Vec<CollectedTest> = Vec::new();
    let mut i: usize = 0;
    while i < d.len()
        invariant
            i <= d@.len(),
            collected_views(out@) == collected_views(d@).take(i as int),
        decreases d@.len() - i,
    {
        let ghost before = collected_views(out@);
        let e = (d[i].0.clone(), d[i].1.clone(), d[i].2.clone());
        out.push(e);
        proof {
            assert(collected_views(out@) =~= before.push((e.0@, e.1@, e.2@)));
            assert(collected_views(d@).take(i + 1) =~= collected_views(d@).take(i as int).push(
                (d@[i as int].0@, d@[i as int].1@, d@[i as int].2@),
            ));
        }
        i = i + 1;
    }
    proof {
        assert(collected_views(d@).take(d@.len() as int) =~= collected_views(d@));
    }
    out
}

/// Resolves the configured tests once every binary listed its tests.
fn collected_step(c: &RustTestRun, elapsed: u64, s: RustRunState) -> (r: (RustRunState, RustAction))
    ensures
        collected_spec(*c, elapsed, s, collected_views(s.discovered@), r),
        r.0.phase matches RustPhase::Exec(k) ==> k < r.0.nodes@.len(),
{
    let ghost found = collected_views(s.discovered@);
    let ghost expected = string_views(c.expected_inventory@);
    if c.collect_only {
        let d = copy_collected(&s.discovered);
        let mut s = s;
        s.phase = RustPhase::Done;
        return (s, RustAction::Discovered(d));
    }
    let mut nodes: Vec<(String, String)> = Vec::new();
    let mut i: usize = 0;
    while i < c.expected_inventory.len()
        invariant
            i <= expected.len(),
            !c.collect_only,
            expected == string_views(c.expected_inventory@),
            found == collected_views(s.discovered@),
            first_missing(found, expected, i as nat) is None,
            nodes@.map_values(|n: (String, String)| (n.0@, n.1@)) == expected.take(i as int).map_values(
                |e: Seq<char>| lookup(found, e)->0,
            ),
        decreases expected.len() - i,
    {
        let name = c.expected_inventory[i].as_str();
        proof {
            assert(expected[i as int] == name@);
            lemma_test_index_bounds(found, name@, 0);
        }
        let j = find_test(&s.discovered, name);
        if j >= s.discovered.len() {
            proof {
                lemma_missing_stop(found, expected, (i + 1) as nat, expected.len());
            }
            let m = crate::aeneas::framed("configured Rust test `", name, "` was not collected");
            let mut s = s;
            s.phase = RustPhase::Done;
            return (s, RustAction::Respond(Err(AdapterError::Inventory(m))));
        }
        let ghost before = nodes@.map_values(|n: (String, String)| (n.0@, n.1@));
        let node = (s.discovered[j].1.clone(), s.discovered[j].2.clone());
        nodes.push(node);
        proof {
            assert(found[j as int] == (s.discovered@[j as int].0@, s.discovered@[j as int].1@, s.discovered@[j as int].2@));
            assert(nodes@.map_values(|n: (String, String)| (n.0@, n.1@)) =~= before.push((node.0@, node.1@)));
            assert(expected.take(i + 1).map_values(|e: Seq<char>| lookup(found, e)->0) =~= expected.take(
                i as int,
            ).map_values(|e: Seq<char>| lookup(found, e)->0).push(lookup(found, name@)->0));
        }
        i = i + 1;
    }
    proof {
        assert(expected.take(expected.len() as int) =~= expected);
        assert(nodes@.len() == expected.len()) by {
            assert(nodes@.map_values(|n: (String, String)| (n.0@, n.1@)).len() == nodes@.len());
        }
        assert(string_views(c.expected_inventory@).len() == c.expected_inventory@.len());
        if expected.len() > 0 {
            if first_missing(found, expected, 1) is Some {
                lemma_missing_stop(found, expected, 1, expected.len());
            }
            assert(nodes@.map_values(|n: (String, String)| (n.0@, n.1@))[0] == (nodes@[0].0@, nodes@[0].1@));
            lemma_test_index_bounds(found, expected[0], 0);
        }
    }
    let inventory = match sorted_unique(crate::session::copy_strings(&c.expected_inventory), "expected inventory") {
        Ok(v) => v,
        Err(e) => {
            let mut s = s;
            s.phase = RustPhase::Done;
            return (s, RustAction::Respond(Err(e)));
        },
    };
    if nodes.len() == 0 {
        let mut s = s;
        s.phase = RustPhase::Done;
        return (s, RustAction::Respond(Err(AdapterError::Inventory("configured test inventory is empty".to_owned()))));
    }
    let mut s = s;
    s.nodes = nodes;
    s.inventory = inventory;
    if crate::text::str_equal(c.operation.as_str(), "check") || crate::text::str_equal(c.operation.as_str(), "reproduce") {
        match time_left_of(c, elapsed) {
            None => stop(s, AdapterError::Timeout(c.budget_ms)),
            Some(t) => {
                let a = command(s.nodes[0].0.as_str(), exact_call(s.nodes[0].1.as_str()), t);
                s.phase = RustPhase::Exec(0);
                (s, a)
            },
        }
    } else {
        let mut out = crate::session::copy_strings(&s.inventory);
        s.phase = RustPhase::Done;
        (s, RustAction::Respond(Ok(out)))
    }
}


fn list_step(c: &RustTestRun, elapsed: u64, i: usize, s: RustRunState, o: ProcessOutput) -> (r: (
    RustRunState,
    RustAction,
))
    requires
        i < s.binaries@.len(),
    ensures
        list_spec(*c, elapsed, i, s, o, r),
        rust_run_wf(*c, r.0),
{
    let target = s.binaries[i].target.clone();
    let executable = s.binaries[i].executable.clone();
    let spec = ProcessSpec { program: executable.clone(), args: list_call() };
    if let Err(e) = ensure_success(&spec, &o) {
        return stop(s, e);
    }
    let names = match parse_libtest_inventory(o.stdout.as_slice()) {
        Ok(n) => n,
        Err(e) => {
            return stop(s, e);
        },
    };
    let mut s = s;
    match add_listed(&mut s.discovered, target.as_str(), executable.as_str(), &names) {
        Err(canonical) => {
            s.phase = RustPhase::Done;
            return (
                s,
                RustAction::Respond(
                    Err(AdapterError::Inventory(crate::aeneas::framed("duplicate collected Rust test `", canonical.as_str(), "`"))),
                ),
            );
        },
        Ok(()) => {},
    }
    let count = s.binaries.len();
    if i + 1 < count {
        match time_left_of(c, elapsed) {
            None => stop(s, AdapterError::Timeout(c.budget_ms)),
            Some(t) => {
                let a = command(s.binaries[i + 1].executable.as_str(), list_call(), t);
                s.phase = RustPhase::List(i + 1);
                (s, a)
            },
        }
    } else {
        collected_step(c, elapsed, s)
    }
}

fn exec_step(c: &RustTestRun, elapsed: u64, k: usize, s: RustRunState, o: ProcessOutput) -> (r: (
    RustRunState,
    RustAction,
))
    requires
        k < s.nodes@.len(),
    ensures
        exec_spec(*c, elapsed, k, s, o, r),
        rust_run_wf(*c, r.0),
{
    let executable = s.nodes[k].0.clone();
    let name = s.nodes[k].1.clone();
    let spec = ProcessSpec { program: executable, args: exact_call(name.as_str()) };
    if let Err(e) = ensure_success(&spec, &o) {
        return stop(s, e);
    }
    if let Err(e) = ensure_one_rust_test_ran(name.as_str(), &o) {
        return stop(s, e);
    }
    let count = s.nodes.len();
    let mut s = s;
    if k + 1 < count {
        match time_left_of(c, elapsed) {
            None => stop(s, AdapterError::Timeout(c.budget_ms)),
            Some(t) => {
                let a = command(s.nodes[k + 1].0.as_str(), exact_call(s.nodes[k + 1].1.as_str()), t);
                s.phase = RustPhase::Exec(k + 1);
                (s, a)
            },
        }
    } else {
        let out = crate::session::copy_strings(&s.inventory);
        s.phase = RustPhase::Done;
        (s, RustAction::Respond(Ok(out)))
    }
}

fn unasked() -> (m: String)
    ensures
        m@ == unasked_message(),
{
    "test run received an event it did not ask for".to_owned()
}

/// Decides what a `cargo-test` run does next: from where it stands and
/// what came of its last action (nothing, at the start), the next state and
/// the action for the caller to take in the baseline shadow copy.
pub fn rust_run_step(c: &RustTestRun, elapsed_ms: u64, state: RustRunState, event: Option<RustEvent>) -> (r: (
    RustRunState,
    RustAction,
))
    requires
        rust_run_wf(*c, state),
    ensures
        rust_run_step_spec(*c, elapsed_ms, state, event, r),
        rust_run_wf(*c, r.0),
{
    match event {
        None => {
            if state.phase == RustPhase::Start {
                start_step(c, elapsed_ms, state)
            } else {
                stop(state, AdapterError::Internal(unasked()))
            }
        },
        Some(e) => {
            let phase = state.phase;
            match (phase, e) {
                (RustPhase::Build, RustEvent::Ran(Ok(o))) => build_step(c, state, o),
                (RustPhase::Binaries, RustEvent::Binaries(Ok(bins))) => binaries_step(c, elapsed_ms, state, bins),
                (RustPhase::List(i), RustEvent::Ran(Ok(o))) => list_step(c, elapsed_ms, i, state, o),
                (RustPhase::Exec(k), RustEvent::Ran(Ok(o))) => exec_step(c, elapsed_ms, k, state, o),
                (RustPhase::Build, RustEvent::Ran(Err(x)))
                | (RustPhase::List(_), RustEvent::Ran(Err(x)))
                | (RustPhase::Exec(_), RustEvent::Ran(Err(x)))
                | (RustPhase::Binaries, RustEvent::Binaries(Err(x))) => stop(state, x),
                _ => stop(state, AdapterError::Internal(unasked())),
            }
        },
    }
}

/// A `check` or `reproduce` run answers with success only after its last
/// configured test ran alone and libtest reported exactly that test
/// passing; the configured tests run one by one, in the unit's order.
pub proof fn lemma_success_runs_every_configured_test(
    c: RustTestRun,
    elapsed: u64,
    s: RustRunState,
    event: Option<RustEvent>,
    r: (RustRunState, RustAction),
)
    requires
        rust_run_wf(c, s),
        rust_run_step_spec(c, elapsed, s, event, r),
        r.1 matches RustAction::Respond(Ok(_)),
        c.operation@ == "check"@ || c.operation@ == "reproduce"@,
    ensures
        s.phase matches RustPhase::Exec(k) && k + 1 == s.nodes@.len(),
        event matches Some(RustEvent::Ran(Ok(o))) && !failed(o) && pass_fault(o, s.nodes@[s.nodes@.len() - 1].1@) is None,
{
}

} // verus!
