//! A `pytest` evidence run as a sequence of decisions. The caller runs
//! each command in the shadow copy and resolves the files pytest collected
//! from; `pytest_run_step` decides what follows: the collection, reading
//! it into nodes, selecting the unit's tests, and, for `check` and
//! `reproduce`, running each selected node alone and requiring that
//! exactly one test passed.
use vstd::prelude::*;
use vstd::utf8::{decode_utf8, valid_utf8};
use crate::inventory::{has_duplicates, sorted_set, MAX_INVENTORY};
use crate::process::{ProcessOutput, ProcessSpec};
use crate::pytest::{
    canonicals, collection_lines, collection_outcome, is_collection_fault, is_target_fault, node_files,
    node_view, node_views, parse_pytest_inventory, pytest_node_files, resolution_fault, resolve_python_targets,
    selected_nodes, PythonTestNode,
};
use crate::runner::{one_python_pass, output_lines, passed_summaries};
use crate::rust_session::{failed, internal_error, inventory_error, run_failure, unit_error};
use crate::testing::{ensure_one_python_test_ran, ensure_success, sorted_unique, AdapterError};
use crate::text::{str_equal, string_views, utf8_error_text};

verus! {

/// What a `pytest` run is configured with, as the caller resolved it in
/// the shadow copy.
pub struct PytestRun {
    /// The request's operation.
    pub operation: String,
    /// The unit's manifest.
    pub manifest: Option<String>,
    /// The manifest resolved in the shadow copy: its directory and its file
    /// name; or why it did not resolve.
    pub shadow_manifest: Result<(String, String), AdapterError>,
    /// The unit's collection paths resolved in the shadow copy, each or why
    /// it did not resolve.
    pub paths: Vec<Result<String, AdapterError>>,
    /// Extra arguments for the collection.
    pub arguments: Vec<String>,
    /// The unit's targets and its expected inventory.
    pub targets: Vec<String>,
    pub expected_inventory: Vec<String>,
    /// The shadow copy's root, resolved.
    pub shadow_root: String,
    /// The unit's time budget, in milliseconds.
    pub budget_ms: u64,
}

/// Where a run stands.
#[derive(Clone, Copy, Debug, PartialEq, Eq, Structural)]
pub enum PytestPhase {
    Start,
    /// pytest is collecting the tests.
    Collect,
    /// The files of the collected nodes are being resolved.
    Resolve,
    /// Selected node `.0` is running alone.
    Exec(usize),
    Done,
}

/// What a run has gathered so far.
pub struct PytestState {
    pub phase: PytestPhase,
    /// The collection's standard output.
    pub collection: Vec<u8>,
    /// The collected nodes, ordered by canonical name.
    pub discovered: Vec<PythonTestNode>,
    /// The selected nodes, ordered by canonical name.
    pub nodes: Vec<PythonTestNode>,
    /// The sorted selected inventory.
    pub inventory: Vec<String>,
}

/// What the caller is to do next.
pub enum PytestAction {
    /// Run `spec` in the shadow copy within `timeout_ms`.
    Run { spec: ProcessSpec, timeout_ms: u64 },
    /// Resolve each of these collected files in the shadow copy.
    ResolveFiles(Vec<String>),
    /// Answer the request: the selected inventory, or the failure.
    Respond(Result<Vec<String>, AdapterError>),
}

/// What came of an action.
pub enum PytestEvent {
    Ran(Result<ProcessOutput, AdapterError>),
    Resolved(Vec<Result<String, AdapterError>>),
}

impl PytestState {
    /// A run that has not started.
    pub fn start() -> (s: PytestState)
        ensures
            s.phase == PytestPhase::Start,
            s.nodes@.len() == 0,
    {
        PytestState {
            phase: PytestPhase::Start,
            collection: Vec::new(),
            discovered: Vec::new(),
            nodes: Vec::new(),
            inventory: Vec::new(),
        }
    }
}

pub open spec fn moved(s: PytestState, p: PytestPhase) -> PytestState {
    PytestState { phase: p, ..s }
}

/// The run ends with a failure.
pub open spec fn ends(s: PytestState, r: (PytestState, PytestAction)) -> bool {
    r.0 == moved(s, PytestPhase::Done) && r.1 is Respond && r.1->Respond_0 is Err
}

/// The failure the run ends with.
pub open spec fn ended_with(r: (PytestState, PytestAction)) -> AdapterError {
    r.1->Respond_0->Err_0
}

/// The action runs `python3` with `args` within `timeout`.
pub open spec fn runs_python(a: PytestAction, args: Seq<Seq<char>>, timeout: u64) -> bool {
    a matches PytestAction::Run { spec, timeout_ms } && spec.program@ == "python3"@ && string_views(spec.args@)
        == args && timeout_ms == timeout
}

/// The time left before the budget runs out, if any.
pub open spec fn time_left(c: PytestRun, elapsed: u64) -> Option<u64> {
    if elapsed >= c.budget_ms {
        None
    } else {
        Some((c.budget_ms - elapsed) as u64)
    }
}

/// The first collection path that did not resolve, with its failure.
pub open spec fn path_failure(paths: Seq<Result<String, AdapterError>>, n: nat) -> Option<AdapterError>
    decreases n,
{
    if n == 0 {
        None
    } else {
        match path_failure(paths, (n - 1) as nat) {
            Some(e) => Some(e),
            None => match paths[n - 1] {
                Err(e) => Some(e),
                Ok(_) => None,
            },
        }
    }
}

/// The resolved collection paths.
pub open spec fn resolved_paths(paths: Seq<Result<String, AdapterError>>) -> Seq<Seq<char>> {
    paths.map_values(|p: Result<String, AdapterError>| p->Ok_0@)
}

/// The pytest options every run shares, rooted at `dir`.
pub open spec fn pytest_options(dir: Seq<char>) -> Seq<Seq<char>> {
    seq!["-p"@, "no:cacheprovider"@, "--rootdir"@, dir]
}

/// The collection's arguments.
pub open spec fn collection_args(c: PytestRun) -> Seq<Seq<char>> {
    seq!["-m"@, "pytest"@, "--collect-only"@, "-q"@] + pytest_options(c.shadow_manifest->Ok_0.0@)
        + resolved_paths(c.paths@) + string_views(c.arguments@)
}

/// The arguments that run one node.
pub open spec fn node_args(c: PytestRun, node_id: Seq<char>) -> Seq<Seq<char>> {
    seq!["-m"@, "pytest"@, "-q"@] + pytest_options(c.shadow_manifest->Ok_0.0@) + seq![node_id]
}

/// Whether the run executes its nodes.
pub open spec fn executes(c: PytestRun) -> bool {
    c.operation@ == "check"@ || c.operation@ == "reproduce"@
}

/// What starting a run decides.
pub open spec fn pytest_start_spec(c: PytestRun, elapsed: u64, s: PytestState, r: (PytestState, PytestAction)) -> bool {
    if c.manifest is None {
        ends(s, r) && unit_error(ended_with(r), "pytest operation requires a manifest"@)
    } else if c.shadow_manifest is Err {
        ends(s, r) && ended_with(r) == c.shadow_manifest->Err_0
    } else if c.shadow_manifest->Ok_0.1@ != "pyproject.toml"@ {
        ends(s, r) && unit_error(ended_with(r), "pytest manifest must be pyproject.toml"@)
    } else if c.paths@.len() == 0 {
        ends(s, r) && unit_error(ended_with(r), "pytest operation requires at least one collection path"@)
    } else if path_failure(c.paths@, c.paths@.len()) is Some {
        ends(s, r) && ended_with(r) == path_failure(c.paths@, c.paths@.len())->0
    } else {
        match time_left(c, elapsed) {
            None => ends(s, r) && ended_with(r) == AdapterError::Timeout(c.budget_ms),
            Some(t) => r.0 == moved(s, PytestPhase::Collect) && runs_python(r.1, collection_args(c), t),
        }
    }
}

/// What the collection decides: it must succeed; its files are resolved.
pub open spec fn pytest_collect_spec(c: PytestRun, s: PytestState, o: ProcessOutput, r: (PytestState, PytestAction)) -> bool {
    if failed(o) {
        ends(s, r) && run_failure("python3"@, collection_args(c), o, ended_with(r))
    } else {
        &&& r.0 == PytestState { phase: PytestPhase::Resolve, collection: o.stdout, ..s }
        &&& r.1 matches PytestAction::ResolveFiles(f) && (valid_utf8(o.stdout@) ==> string_views(f@) == node_files(
            collection_lines(decode_utf8(o.stdout@)),
            collection_lines(decode_utf8(o.stdout@)).len(),
        ))
    }
}

/// The message of a resolution that does not answer the files asked.
pub open spec fn mismatch_message() -> Seq<char> {
    "pytest file resolution does not match the collected nodes"@
}

/// What the resolved files decide: the collection read into nodes, the
/// unit's targets selected among them, the sorted selected inventory; then
/// `check` and `reproduce` run the first selected node alone.
pub open spec fn pytest_resolve_spec(
    c: PytestRun,
    elapsed: u64,
    s: PytestState,
    rs: Vec<Result<String, AdapterError>>,
    r: (PytestState, PytestAction),
) -> bool {
    let bytes = s.collection@;
    let ps = PytestState { discovered: r.0.discovered, nodes: r.0.nodes, inventory: r.0.inventory, ..s };
    if valid_utf8(bytes) && rs@.len() != node_files(
        collection_lines(decode_utf8(bytes)),
        collection_lines(decode_utf8(bytes)).len(),
    ).len() {
        ends(s, r) && internal_error(ended_with(r), mismatch_message())
    } else {
        match collection_outcome(bytes, rs@, c.shadow_root@) {
            Err(f) => ends(s, r) && is_collection_fault(ended_with(r), f),
            Ok(collected) => {
                &&& canonicals(r.0.discovered@) == sorted_set(collected.map_values(|n: (Seq<char>, Seq<char>)| n.0))
                &&& forall|k: int| 0 <= k < r.0.discovered@.len() ==> collected.contains(#[trigger] node_view(r.0.discovered@[k]))
                &&& match resolution_fault(string_views(c.targets@), string_views(c.expected_inventory@), r.0.discovered@) {
                    Some(f) => ends(ps, r) && is_target_fault(ended_with(r), f),
                    None => {
                        let sel = selected_nodes(string_views(c.targets@), r.0.discovered@, c.targets@.len())->Ok_0;
                        let names = canonicals(r.0.nodes@);
                        &&& names == sorted_set(canonicals(sel))
                        &&& forall|k: int| 0 <= k < r.0.nodes@.len() ==> node_views(sel).contains(#[trigger] node_view(r.0.nodes@[k]))
                        &&& if names.len() > MAX_INVENTORY {
                            ends(ps, r) && inventory_error(
                                ended_with(r),
                                "pytest selected inventory"@ + " exceeds 100000 items"@,
                            )
                        } else if has_duplicates(names) {
                            ends(ps, r) && inventory_error(
                                ended_with(r),
                                "pytest selected inventory"@ + " contains duplicates"@,
                            )
                        } else {
                            &&& string_views(r.0.inventory@) == sorted_set(names)
                            &&& if executes(c) && r.0.nodes@.len() > 0 {
                                match time_left(c, elapsed) {
                                    None => ends(ps, r) && ended_with(r) == AdapterError::Timeout(c.budget_ms),
                                    Some(t) => r.0 == moved(ps, PytestPhase::Exec(0)) && runs_python(
                                        r.1,
                                        node_args(c, r.0.nodes@[0].node_id@),
                                        t,
                                    ),
                                }
                            } else {
                                r.0 == moved(ps, PytestPhase::Done) && (r.1 matches PytestAction::Respond(Ok(inv))
                                    && string_views(inv@) == sorted_set(names))
                            }
                        }
                    },
                }
            },
        }
    }
}

/// Why a node run does not show exactly one passing test, if it does not.
pub open spec fn node_fault(o: ProcessOutput, name: Seq<char>) -> Option<Seq<char>> {
    if !valid_utf8(o.stdout@) {
        Some("non-UTF-8 "@ + "pytest"@ + " output: "@ + utf8_error_text(o.stdout@))
    } else if !valid_utf8(o.stderr@) {
        Some("non-UTF-8 "@ + "pytest"@ + " output: "@ + utf8_error_text(o.stderr@))
    } else if one_python_pass(passed_summaries(output_lines(decode_utf8(o.stdout@), decode_utf8(o.stderr@)))) {
        None
    } else {
        Some("pytest node `"@ + name + "` did not report exactly one passing test"@)
    }
}

/// What selected node `k`'s run decides.
pub open spec fn pytest_exec_spec(
    c: PytestRun,
    elapsed: u64,
    k: usize,
    s: PytestState,
    o: ProcessOutput,
    r: (PytestState, PytestAction),
) -> bool {
    let node = s.nodes@[k as int];
    if failed(o) {
        ends(s, r) && run_failure("python3"@, node_args(c, node.node_id@), o, ended_with(r))
    } else if node_fault(o, node.canonical@) is Some {
        ends(s, r) && inventory_error(ended_with(r), node_fault(o, node.canonical@)->0)
    } else if k + 1 < s.nodes@.len() {
        match time_left(c, elapsed) {
            None => ends(s, r) && ended_with(r) == AdapterError::Timeout(c.budget_ms),
            Some(t) => r.0 == moved(s, PytestPhase::Exec((k + 1) as usize)) && runs_python(
                r.1,
                node_args(c, s.nodes@[k + 1].node_id@),
                t,
            ),
        }
    } else {
        r.0 == moved(s, PytestPhase::Done) && (r.1 matches PytestAction::Respond(Ok(inv)) && string_views(inv@)
            == string_views(s.inventory@))
    }
}

/// The message of an event that the run did not ask for.
pub open spec fn pytest_unasked() -> Seq<char> {
    "pytest run received an event it did not ask for"@
}

/// Whether a run state is one `pytest_run_step` reaches.
pub open spec fn pytest_wf(c: PytestRun, s: PytestState) -> bool {
    &&& (s.phase == PytestPhase::Collect || s.phase == PytestPhase::Resolve || s.phase is Exec)
        ==> c.shadow_manifest is Ok
    &&& (s.phase == PytestPhase::Collect || s.phase == PytestPhase::Resolve || s.phase is Exec) ==> forall|k: int|
        0 <= k < c.paths@.len() ==> c.paths@[k] is Ok
    &&& s.phase matches PytestPhase::Exec(k) ==> k < s.nodes@.len()
}

/// What a `pytest` run decides next.
pub open spec fn pytest_step_spec(
    c: PytestRun,
    elapsed: u64,
    s: PytestState,
    event: Option<PytestEvent>,
    r: (PytestState, PytestAction),
) -> bool {
    match event {
        None => if s.phase == PytestPhase::Start {
            pytest_start_spec(c, elapsed, s, r)
        } else {
            ends(s, r) && internal_error(ended_with(r), pytest_unasked())
        },
        Some(e) => match (s.phase, e) {
            (PytestPhase::Collect, PytestEvent::Ran(Ok(o))) => pytest_collect_spec(c, s, o, r),
            (PytestPhase::Resolve, PytestEvent::Resolved(rs)) => pytest_resolve_spec(c, elapsed, s, rs, r),
            (PytestPhase::Exec(k), PytestEvent::Ran(Ok(o))) => pytest_exec_spec(c, elapsed, k, s, o, r),
            (PytestPhase::Collect, PytestEvent::Ran(Err(x))) | (PytestPhase::Exec(_), PytestEvent::Ran(Err(x))) =>
                ends(s, r) && ended_with(r) == x,
            _ => ends(s, r) && internal_error(ended_with(r), pytest_unasked()),
        },
    }
}


fn copy_error(e: &AdapterError) -> (out: AdapterError)
    ensures
        out == *e,
{
    match e {
        AdapterError::Io(m) => AdapterError::Io(m.clone()),
        AdapterError::ToolUnavailable { program, source } => AdapterError::ToolUnavailable {
            program: program.clone(),
            source: source.clone(),
        },
        AdapterError::Timeout(t) => AdapterError::Timeout(*t),
        AdapterError::Request(m) => AdapterError::Request(m.clone()),
        AdapterError::Unit(m) => AdapterError::Unit(m.clone()),
        AdapterError::UnsafePath(m) => AdapterError::UnsafePath(m.clone()),
        AdapterError::Inventory(m) => AdapterError::Inventory(m.clone()),
        AdapterError::ToolFailed(m) => AdapterError::ToolFailed(m.clone()),
        AdapterError::Budget(m) => AdapterError::Budget(m.clone()),
        AdapterError::Internal(m) => AdapterError::Internal(m.clone()),
    }
}

fn end(s: PytestState, e: AdapterError) -> (r: (PytestState, PytestAction))
    ensures
        ends(s, r),
        ended_with(r) == e,
{
    let mut s = s;
    s.phase = PytestPhase::Done;
    (s, PytestAction::Respond(Err(e)))
}

fn left_of(c: &PytestRun, elapsed: u64) -> (t: Option<u64>)
    ensures
        t == time_left(*c, elapsed),
{
    if elapsed >= c.budget_ms {
        None
    } else {
        Some(c.budget_ms - elapsed)
    }
}

fn python(args: Vec<String>, timeout_ms: u64) -> (a: PytestAction)
    ensures
        runs_python(a, string_views(args@), timeout_ms),
{
    PytestAction::Run { spec: ProcessSpec { program: "python3".to_owned(), args }, timeout_ms }
}

fn push_all(out: &mut Vec<String>, items: &Vec<String>)
    ensures
        string_views(final(out)@) == string_views(old(out)@) + string_views(items@),
{
    let ghost start = string_views(out@);
    let mut i: usize = 0;
    while i < items.len()
        invariant
            i <= items@.len(),
            string_views(out@) == start + string_views(items@).take(i as int),
        decreases items@.len() - i,
    {
        let ghost before = string_views(out@);
        let x = items[i].clone();
        out.push(x);
        proof {
            assert(string_views(out@) =~= before.push(x@));
            assert(string_views(items@).take(i + 1) =~= string_views(items@).take(i as int).push(x@));
            assert(start + string_views(items@).take(i + 1) =~= (start + string_views(items@).take(i as int)).push(x@));
        }
        i = i + 1;
    }
    proof {
        assert(string_views(items@).take(items@.len() as int) =~= string_views(items@));
    }
}

fn options_call(dir: &str) -> (v: Vec<String>)
    ensures
        string_views(v@) == pytest_options(dir@),
{
    let v = vec!["-p".to_owned(), "no:cacheprovider".to_owned(), "--rootdir".to_owned(), dir.to_owned()];
    proof {
        assert(string_views(v@) =~= pytest_options(dir@));
    }
    v
}

fn node_call(c: &PytestRun, node_id: &str) -> (v: Vec<String>)
    requires
        c.shadow_manifest is Ok,
    ensures
        string_views(v@) == node_args(*c, node_id@),
{
    let dir = match &c.shadow_manifest {
        Ok(m) => m.0.as_str(),
        Err(_) => "",
    };
    let mut v = vec!["-m".to_owned(), "pytest".to_owned(), "-q".to_owned()];
    proof {
        assert(string_views(v@) =~= seq!["-m"@, "pytest"@, "-q"@]);
    }
    let options = options_call(dir);
    push_all(&mut v, &options);
    let last = vec![node_id.to_owned()];
    proof {
        assert(string_views(last@) =~= seq![node_id@]);
    }
    push_all(&mut v, &last);
    v
}

proof fn lemma_path_failure_stays(paths: Seq<Result<String, AdapterError>>, m: nat, n: nat)
    requires
        m <= n <= paths.len(),
        path_failure(paths, m) is Some,
    ensures
        path_failure(paths, n) == path_failure(paths, m),
    decreases n - m,
{
    if m < n {
        lemma_path_failure_stays(paths, m, (n - 1) as nat);
    }
}

fn collection_call(c: &PytestRun) -> (v: Vec<String>)
    requires
        c.shadow_manifest is Ok,
        forall|k: int| 0 <= k < c.paths@.len() ==> c.paths@[k] is Ok,
    ensures
        string_views(v@) == collection_args(*c),
{
    let dir = match &c.shadow_manifest {
        Ok(m) => m.0.as_str(),
        Err(_) => "",
    };
    let mut v = vec!["-m".to_owned(), "pytest".to_owned(), "--collect-only".to_owned(), "-q".to_owned()];
    proof {
        assert(string_views(v@) =~= seq!["-m"@, "pytest"@, "--collect-only"@, "-q"@]);
    }
    let options = options_call(dir);
    push_all(&mut v, &options);
    let mut resolved: Vec<String> = Vec::new();
    let mut i: usize = 0;
    while i < c.paths.len()
        invariant
            i <= c.paths@.len(),
            forall|k: int| 0 <= k < c.paths@.len() ==> c.paths@[k] is Ok,
            string_views(resolved@) == resolved_paths(c.paths@).take(i as int),
        decreases c.paths@.len() - i,
    {
        let ghost before = string_views(resolved@);
        let p = match &c.paths[i] {
            Ok(p) => p.clone(),
            Err(_) => String::new(),
        };
        resolved.push(p);
        proof {
            assert(string_views(resolved@) =~= before.push(p@));
            assert(resolved_paths(c.paths@).take(i + 1) =~= resolved_paths(c.paths@).take(i as int).push(p@));
        }
        i = i + 1;
    }
    proof {
        assert(resolved_paths(c.paths@).take(c.paths@.len() as int) =~= resolved_paths(c.paths@));
    }
    push_all(&mut v, &resolved);
    push_all(&mut v, &c.arguments);
    v
}

fn start_step(c: &PytestRun, elapsed: u64, s: PytestState) -> (r: (PytestState, PytestAction))
    ensures
        pytest_start_spec(*c, elapsed, s, r),
        pytest_wf(*c, r.0),
{
    if c.manifest.is_none() {
        return end(s, AdapterError::Unit("pytest operation requires a manifest".to_owned()));
    }
    match &c.shadow_manifest {
        Err(e) => {
            return end(s, copy_error(e));
        },
        Ok(m) => {
            if !str_equal(m.1.as_str(), "pyproject.toml") {
                return end(s, AdapterError::Unit("pytest manifest must be pyproject.toml".to_owned()));
            }
        },
    }
    if c.paths.len() == 0 {
        return end(s, AdapterError::Unit("pytest operation requires at least one collection path".to_owned()));
    }
    let mut i: usize = 0;
    while i < c.paths.len()
        invariant
            i <= c.paths@.len(),
            c.manifest is Some,
            c.shadow_manifest is Ok,
            c.shadow_manifest->Ok_0.1@ == "pyproject.toml"@,
            c.paths@.len() > 0,
            path_failure(c.paths@, i as nat) is None,
            forall|k: int| 0 <= k < i ==> c.paths@[k] is Ok,
        decreases c.paths@.len() - i,
    {
        if let Err(e) = &c.paths[i] {
            proof {
                assert(path_failure(c.paths@, (i + 1) as nat) == Some(c.paths@[i as int]->Err_0));
                lemma_path_failure_stays(c.paths@, (i + 1) as nat, c.paths@.len());
            }
            return end(s, copy_error(e));
        }
        i = i + 1;
    }
    match left_of(c, elapsed) {
        None => end(s, AdapterError::Timeout(c.budget_ms)),
        Some(t) => {
            let a = python(collection_call(c), t);
            let mut s = s;
            s.phase = PytestPhase::Collect;
            (s, a)
        },
    }
}

fn collect_step(c: &PytestRun, s: PytestState, o: ProcessOutput) -> (r: (PytestState, PytestAction))
    requires
        c.shadow_manifest is Ok,
        forall|k: int| 0 <= k < c.paths@.len() ==> c.paths@[k] is Ok,
    ensures
        pytest_collect_spec(*c, s, o, r),
{
    let spec = ProcessSpec { program: "python3".to_owned(), args: collection_call(c) };
    if let Err(e) = ensure_success(&spec, &o) {
        return end(s, e);
    }
    let files = pytest_node_files(o.stdout.as_slice());
    let mut s = s;
    s.phase = PytestPhase::Resolve;
    s.collection = o.stdout;
    (s, PytestAction::ResolveFiles(files))
}


fn canonical_names(nodes: &Vec<PythonTestNode>) -> (out: Vec<String>)
    ensures
        string_views(out@) == canonicals(nodes@),
{
    let mut out: Vec<String> = Vec::new();
    let mut i: usize = 0;
    while i < nodes.len()
        invariant
            i <= nodes@.len(),
            string_views(out@) == canonicals(nodes@).take(i as int),
        decreases nodes@.len() - i,
    {
        let ghost before = string_views(out@);
        let n = nodes[i].canonical.clone();
        out.push(n);
        proof {
            assert(string_views(out@) =~= before.push(n@));
            assert(canonicals(nodes@).take(i + 1) =~= canonicals(nodes@).take(i as int).push(n@));
        }
        i = i + 1;
    }
    proof {
        assert(canonicals(nodes@).take(nodes@.len() as int) =~= canonicals(nodes@));
    }
    out
}

fn resolve_step(c: &PytestRun, elapsed: u64, s: PytestState, rs: Vec<Result<String, AdapterError>>) -> (r: (
    PytestState,
    PytestAction,
))
    requires
        c.shadow_manifest is Ok,
        forall|k: int| 0 <= k < c.paths@.len() ==> c.paths@[k] is Ok,
    ensures
        pytest_resolve_spec(*c, elapsed, s, rs, r),
        pytest_wf(*c, r.0),
{
    let files = pytest_node_files(s.collection.as_slice());
    let valid = crate::text::utf8_text(s.collection.as_slice()).is_ok();
    proof {
        assert(string_views(files@).len() == files@.len());
    }
    if valid && rs.len() != files.len() {
        return end(s, AdapterError::Internal("pytest file resolution does not match the collected nodes".to_owned()));
    }
    let discovered = match parse_pytest_inventory(s.collection.as_slice(), rs, c.shadow_root.as_str()) {
        Err(e) => {
            return end(s, e);
        },
        Ok(d) => d,
    };
    let mut s = s;
    s.discovered = discovered;
    let selected = match resolve_python_targets(&c.targets, &c.expected_inventory, &s.discovered) {
        Err(e) => {
            return end(s, e);
        },
        Ok(n) => n,
    };
    s.nodes = selected;
    let names = canonical_names(&s.nodes);
    let inventory = match sorted_unique(names, "pytest selected inventory") {
        Err(e) => {
            return end(s, e);
        },
        Ok(v) => v,
    };
    s.inventory = inventory;
    if (str_equal(c.operation.as_str(), "check") || str_equal(c.operation.as_str(), "reproduce")) && s.nodes.len() > 0 {
        match left_of(c, elapsed) {
            None => end(s, AdapterError::Timeout(c.budget_ms)),
            Some(t) => {
                let a = python(node_call(c, s.nodes[0].node_id.as_str()), t);
                s.phase = PytestPhase::Exec(0);
                (s, a)
            },
        }
    } else {
        let out = crate::session::copy_strings(&s.inventory);
        s.phase = PytestPhase::Done;
        (s, PytestAction::Respond(Ok(out)))
    }
}

fn exec_step(c: &PytestRun, elapsed: u64, k: usize, s: PytestState, o: ProcessOutput) -> (r: (PytestState, PytestAction))
    requires
        c.shadow_manifest is Ok,
        forall|j: int| 0 <= j < c.paths@.len() ==> c.paths@[j] is Ok,
        k < s.nodes@.len(),
    ensures
        pytest_exec_spec(*c, elapsed, k, s, o, r),
        pytest_wf(*c, r.0),
{
    let spec = ProcessSpec { program: "python3".to_owned(), args: node_call(c, s.nodes[k].node_id.as_str()) };
    if let Err(e) = ensure_success(&spec, &o) {
        return end(s, e);
    }
    if let Err(e) = ensure_one_python_test_ran(s.nodes[k].canonical.as_str(), &o) {
        return end(s, e);
    }
    let count = s.nodes.len();
    let mut s = s;
    if k + 1 < count {
        match left_of(c, elapsed) {
            None => end(s, AdapterError::Timeout(c.budget_ms)),
            Some(t) => {
                let a = python(node_call(c, s.nodes[k + 1].node_id.as_str()), t);
                s.phase = PytestPhase::Exec(k + 1);
                (s, a)
            },
        }
    } else {
        let out = crate::session::copy_strings(&s.inventory);
        s.phase = PytestPhase::Done;
        (s, PytestAction::Respond(Ok(out)))
    }
}

fn pytest_unasked_text() -> (m: String)
    ensures
        m@ == pytest_unasked(),
{
    "pytest run received an event it did not ask for".to_owned()
}

/// Decides what a `pytest` run does next: from where it stands and what
/// came of its last action (nothing, at the start), the next state and the
/// action for the caller to take in the shadow copy.
pub fn pytest_run_step(c: &PytestRun, elapsed_ms: u64, state: PytestState, event: Option<PytestEvent>) -> (r: (
    PytestState,
    PytestAction,
))
    requires
        pytest_wf(*c, state),
    ensures
        pytest_step_spec(*c, elapsed_ms, state, event, r),
        pytest_wf(*c, r.0),
{
    match event {
        None => {
            if state.phase == PytestPhase::Start {
                start_step(c, elapsed_ms, state)
            } else {
                end(state, AdapterError::Internal(pytest_unasked_text()))
            }
        },
        Some(e) => {
            let phase = state.phase;
            match (phase, e) {
                (PytestPhase::Collect, PytestEvent::Ran(Ok(o))) => collect_step(c, state, o),
                (PytestPhase::Resolve, PytestEvent::Resolved(rs)) => resolve_step(c, elapsed_ms, state, rs),
                (PytestPhase::Exec(k), PytestEvent::Ran(Ok(o))) => exec_step(c, elapsed_ms, k, state, o),
                (PytestPhase::Collect, PytestEvent::Ran(Err(x))) | (PytestPhase::Exec(_), PytestEvent::Ran(Err(x))) =>
                    end(state, x),
                _ => end(state, AdapterError::Internal(pytest_unasked_text())),
            }
        },
    }
}

/// A `check` or `reproduce` run answers with success only after its last
/// selected node ran alone and pytest reported exactly one passing test,
/// or at the selection where no node was selected.
pub proof fn lemma_pytest_success_runs_every_selected_node(
    c: PytestRun,
    elapsed: u64,
    s: PytestState,
    event: Option<PytestEvent>,
    r: (PytestState, PytestAction),
)
    requires
        pytest_wf(c, s),
        pytest_step_spec(c, elapsed, s, event, r),
        r.1 matches PytestAction::Respond(Ok(_)),
        executes(c),
    ensures
        s.phase == PytestPhase::Resolve ==> r.0.nodes@.len() == 0,
        s.phase != PytestPhase::Resolve ==> (s.phase matches PytestPhase::Exec(k) && k + 1 == s.nodes@.len()),
        s.phase != PytestPhase::Resolve ==> (event matches Some(PytestEvent::Ran(Ok(o))) && !failed(o) && node_fault(
            o,
            s.nodes@[s.nodes@.len() - 1].canonical@,
        ) is None),
{
}

} // verus!
