//! A trusted-transcription run as a sequence of decisions. The caller reads
//! the unit's inputs, runs the driver's `transcribe` and `reencode` stages
//! in the sealed project, and lists what each stage left behind;
//! `transcription_step` decides what follows. The run succeeds only if the
//! transcription is exactly the committed one, re-encoding it gives back
//! exactly the source, and neither stage changed the sealed project.
use vstd::prelude::*;
use crate::inventory::{has_duplicates, sorted_set, MAX_INVENTORY};
use crate::process::{ProcessOutput, ProcessSpec};
use crate::rust_session::run_failure;
use crate::testing::{ensure_silent_success, sorted_unique, AdapterError};
use crate::text::{str_equal, string_views};

verus! {

/// An entry of a directory listing: its relative path and, for a regular
/// file, its bytes (nothing for a directory).
pub type ListingEntry = (String, Option<Vec<u8>>);

/// A listing as plain values.
pub open spec fn listing_view(l: Seq<ListingEntry>) -> Seq<(Seq<char>, Option<Seq<u8>>)> {
    l.map_values(
        |e: ListingEntry|
            (
                e.0@,
                match e.1 {
                    Some(b) => Some(b@),
                    None => None,
                },
            ),
    )
}

/// What a transcription run is configured with.
pub struct TranscriptionRun {
    pub operation: String,
    /// Whether the unit has its typed transcription configuration.
    pub configured: bool,
    /// The driver, source and committed transcription, as paths in the
    /// sealed project.
    pub driver: String,
    pub source: String,
    /// The logical names of the source and the committed transcription.
    pub source_name: String,
    pub committed_name: String,
    /// The adapter-owned work directory of the unit.
    pub work_root: String,
    pub budget_ms: u64,
}

/// Where a run stands.
#[derive(Clone, Copy, Debug, PartialEq, Eq, Structural)]
pub enum TranscriptionPhase {
    Start,
    Inputs,
    Transcribe,
    TranscribeStage,
    Reencode,
    ReencodeStage,
    Done,
}

/// What a run has gathered so far.
pub struct TranscriptionState {
    pub phase: TranscriptionPhase,
    pub source_bytes: Vec<u8>,
    pub committed_bytes: Vec<u8>,
    /// The sealed project's tree before any stage ran.
    pub before: Vec<ListingEntry>,
    pub candidate: Vec<u8>,
}

/// What the caller is to do next.
pub enum TranscriptionAction {
    /// Read the source and the committed transcription, and list the
    /// sealed project.
    ReadInputs,
    /// Run `spec` in the sealed project within `timeout_ms`.
    Run { spec: ProcessSpec, timeout_ms: u64 },
    /// List the sealed project and the stage directories.
    ReadStage,
    /// Answer: the observed inventory, or the failure.
    Respond(Result<Vec<String>, AdapterError>),
}

/// What came of an action.
pub enum TranscriptionEvent {
    /// The source bytes, the committed transcription bytes and the sealed
    /// project's tree.
    Inputs(Result<(Vec<u8>, Vec<u8>, Vec<ListingEntry>), AdapterError>),
    Ran(Result<ProcessOutput, AdapterError>),
    /// The sealed project's tree, the `transcribe` directory and the
    /// `reencode` directory.
    Stage(Result<(Vec<ListingEntry>, Vec<ListingEntry>, Vec<ListingEntry>), AdapterError>),
}

impl TranscriptionState {
    /// A run that has not started.
    pub fn start() -> (s: TranscriptionState)
        ensures
            s.phase == TranscriptionPhase::Start,
            s.source_bytes@.len() == 0,
            s.committed_bytes@.len() == 0,
            s.before@.len() == 0,
            s.candidate@.len() == 0,
    {
        TranscriptionState {
            phase: TranscriptionPhase::Start,
            source_bytes: Vec::new(),
            committed_bytes: Vec::new(),
            before: Vec::new(),
            candidate: Vec::new(),
        }
    }
}

/// The state with another phase.
pub open spec fn moved(s: TranscriptionState, p: TranscriptionPhase) -> TranscriptionState {
    TranscriptionState { phase: p, ..s }
}

/// The run ends with the failure the action answers.
pub open spec fn ends(s: TranscriptionState, r: (TranscriptionState, TranscriptionAction)) -> bool {
    r.0 == moved(s, TranscriptionPhase::Done) && r.1 is Respond && r.1->Respond_0 is Err
}

pub open spec fn failure(r: (TranscriptionState, TranscriptionAction)) -> AdapterError {
    r.1->Respond_0->Err_0
}

/// The failure is a tool failure with message `m`.
pub open spec fn tool_error(e: AdapterError, m: Seq<char>) -> bool {
    e matches AdapterError::ToolFailed(x) && x@ == m
}

/// The failure is an inventory failure with message `m`.
pub open spec fn listing_error(e: AdapterError, m: Seq<char>) -> bool {
    e matches AdapterError::Inventory(x) && x@ == m
}

/// What a stage's directory yields: its one output file `expected`, or why
/// it does not.
pub open spec fn stage_output(l: Seq<(Seq<char>, Option<Seq<u8>>)>, expected: Seq<char>, n: nat) -> Result<
    Option<Seq<u8>>,
    Seq<char>,
>
    decreases n,
{
    if n == 0 || n > l.len() {
        Ok(None)
    } else {
        match stage_output(l, expected, (n - 1) as nat) {
            Err(m) => Err(m),
            Ok(found) => if l[n - 1].0 != expected || l[n - 1].1 is None {
                Err("transcription driver emitted unexpected path `"@ + l[n - 1].0 + "`"@)
            } else if found is Some {
                Err("transcription driver emitted duplicate output"@)
            } else {
                Ok(l[n - 1].1)
            },
        }
    }
}

/// The bytes of a stage's output, or the message of why there are none.
pub open spec fn stage_bytes(l: Seq<(Seq<char>, Option<Seq<u8>>)>, expected: Seq<char>) -> Result<Seq<u8>, Seq<char>> {
    match stage_output(l, expected, l.len()) {
        Err(m) => Err(m),
        Ok(None) => Err("transcription driver did not emit required output `"@ + expected + "`"@),
        Ok(Some(b)) => Ok(b),
    }
}

/// The candidate the `transcribe` stage writes.
pub open spec fn candidate_path(c: TranscriptionRun) -> Seq<char> {
    c.work_root@ + "/transcribe/candidate.out"@
}

/// The arguments of the `transcribe` stage.
pub open spec fn transcribe_args(c: TranscriptionRun) -> Seq<Seq<char>> {
    seq![c.driver@, "transcribe"@, "--source"@, c.source@, "--output"@, candidate_path(c)]
}

/// The arguments of the `reencode` stage.
pub open spec fn reencode_args(c: TranscriptionRun) -> Seq<Seq<char>> {
    seq![
        c.driver@,
        "reencode"@,
        "--transcription"@,
        candidate_path(c),
        "--output"@,
        c.work_root@ + "/reencode/source.out"@,
    ]
}

/// The action runs `python3` with `args` within `timeout`.
pub open spec fn runs_driver(a: TranscriptionAction, args: Seq<Seq<char>>, timeout: u64) -> bool {
    a matches TranscriptionAction::Run { spec, timeout_ms } && spec.program@ == "python3"@ && string_views(
        spec.args@,
    ) == args && timeout_ms == timeout
}

/// The failure of a driver stage that did not end silently and well.
pub open spec fn stage_run_error(args: Seq<Seq<char>>, o: ProcessOutput, e: AdapterError) -> bool {
    if o.truncated || o.status != Some(0i32) {
        run_failure("python3"@, args, o, e)
    } else {
        listing_error(
            e,
            "transcription driver must emit only its exact output file; stdout and stderr must be empty"@,
        )
    }
}

/// A driver stage that ended silently and well.
pub open spec fn silent(o: ProcessOutput) -> bool {
    !o.truncated && o.status == Some(0i32) && o.stdout@.len() == 0 && o.stderr@.len() == 0
}

/// The time left before the budget runs out, if any.
pub open spec fn remaining_ms(c: TranscriptionRun, elapsed: u64) -> Option<u64> {
    if elapsed >= c.budget_ms {
        None
    } else {
        Some((c.budget_ms - elapsed) as u64)
    }
}

/// The observed inventory: the logical names of the source and the
/// committed transcription.
pub open spec fn observed_names(c: TranscriptionRun) -> Seq<Seq<char>> {
    seq![c.source_name@, c.committed_name@]
}

/// What answering decides: the sorted observed inventory.
pub open spec fn answer_spec(c: TranscriptionRun, s: TranscriptionState, r: (TranscriptionState, TranscriptionAction)) -> bool {
    let names = observed_names(c);
    if has_duplicates(names) {
        ends(s, r) && listing_error(failure(r), "trusted-transcription observed inventory"@ + " contains duplicates"@)
    } else {
        r.0 == moved(s, TranscriptionPhase::Done) && (r.1 matches TranscriptionAction::Respond(Ok(inv))
            && string_views(inv@) == sorted_set(names))
    }
}

/// What a trusted-transcription run decides next.
pub open spec fn transcription_step_spec(
    c: TranscriptionRun,
    elapsed: u64,
    s: TranscriptionState,
    event: Option<TranscriptionEvent>,
    r: (TranscriptionState, TranscriptionAction),
) -> bool {
    let op = c.operation@;
    match (s.phase, event) {
        (TranscriptionPhase::Start, None) => if !(op == "inventory"@ || op == "check"@ || op == "reproduce"@) {
            ends(s, r) && (failure(r) matches AdapterError::Request(m)
                && m@ == "trusted transcription executes only for inventory, check, or reproduce"@)
        } else if !c.configured {
            ends(s, r) && (failure(r) matches AdapterError::Unit(m)
                && m@ == "trusted-transcription requires its typed configuration"@)
        } else {
            r.0 == moved(s, TranscriptionPhase::Inputs) && r.1 is ReadInputs
        },
        (TranscriptionPhase::Inputs, Some(TranscriptionEvent::Inputs(Ok((source, committed, tree))))) => {
            let ps = TranscriptionState {
                source_bytes: source,
                committed_bytes: committed,
                before: tree,
                ..s
            };
            match remaining_ms(c, elapsed) {
                None => ends(ps, r) && failure(r) == AdapterError::Timeout(c.budget_ms),
                Some(t) => r.0 == moved(ps, TranscriptionPhase::Transcribe) && runs_driver(r.1, transcribe_args(c), t),
            }
        },
        (TranscriptionPhase::Transcribe, Some(TranscriptionEvent::Ran(Ok(o)))) => if !silent(o) {
            ends(s, r) && stage_run_error(transcribe_args(c), o, failure(r))
        } else {
            r.0 == moved(s, TranscriptionPhase::TranscribeStage) && r.1 is ReadStage
        },
        (TranscriptionPhase::TranscribeStage, Some(TranscriptionEvent::Stage(Ok((tree, t, _))))) => {
            if listing_view(tree@) != listing_view(s.before@) {
                ends(s, r) && tool_error(
                    failure(r),
                    "transcriber changed files outside its adapter-owned output directory"@,
                )
            } else {
                match stage_bytes(listing_view(t@), "candidate.out"@) {
                    Err(m) => ends(s, r) && listing_error(failure(r), m),
                    Ok(candidate) => if candidate != s.committed_bytes@ {
                        ends(s, r) && tool_error(
                            failure(r),
                            "transcribed candidate does not byte-match the exact committed transcription"@,
                        )
                    } else {
                        let ps = TranscriptionState { candidate: r.0.candidate, ..s };
                        &&& r.0.candidate@ == candidate
                        &&& match remaining_ms(c, elapsed) {
                            None => ends(ps, r) && failure(r) == AdapterError::Timeout(c.budget_ms),
                            Some(t) => r.0 == moved(ps, TranscriptionPhase::Reencode) && runs_driver(
                                r.1,
                                reencode_args(c),
                                t,
                            ),
                        }
                    },
                }
            }
        },
        (TranscriptionPhase::Reencode, Some(TranscriptionEvent::Ran(Ok(o)))) => if !silent(o) {
            ends(s, r) && stage_run_error(reencode_args(c), o, failure(r))
        } else {
            r.0 == moved(s, TranscriptionPhase::ReencodeStage) && r.1 is ReadStage
        },
        (TranscriptionPhase::ReencodeStage, Some(TranscriptionEvent::Stage(Ok((tree, t, back))))) => {
            if listing_view(tree@) != listing_view(s.before@) {
                ends(s, r) && tool_error(
                    failure(r),
                    "re-encoder changed files outside its adapter-owned output directory"@,
                )
            } else {
                match stage_bytes(listing_view(t@), "candidate.out"@) {
                    Err(m) => ends(s, r) && listing_error(failure(r), m),
                    Ok(again) => if again != s.candidate@ {
                        ends(s, r) && tool_error(failure(r), "re-encoder changed the transcribed candidate"@)
                    } else {
                        match stage_bytes(listing_view(back@), "source.out"@) {
                            Err(m) => ends(s, r) && listing_error(failure(r), m),
                            Ok(reencoded) => if reencoded != s.source_bytes@ {
                                ends(s, r) && tool_error(
                                    failure(r),
                                    "re-encoded bytes do not byte-match the exact source"@,
                                )
                            } else {
                                answer_spec(c, s, r)
                            },
                        }
                    },
                }
            }
        },
        (
            TranscriptionPhase::Inputs,
            Some(TranscriptionEvent::Inputs(Err(x))),
        ) | (TranscriptionPhase::Transcribe, Some(TranscriptionEvent::Ran(Err(x)))) | (
            TranscriptionPhase::Reencode,
            Some(TranscriptionEvent::Ran(Err(x))),
        ) | (TranscriptionPhase::TranscribeStage, Some(TranscriptionEvent::Stage(Err(x)))) | (
            TranscriptionPhase::ReencodeStage,
            Some(TranscriptionEvent::Stage(Err(x))),
        ) => ends(s, r) && failure(r) == x,
        _ => ends(s, r) && (failure(r) matches AdapterError::Internal(m)
            && m@ == "transcription received an event it did not ask for"@),
    }
}


fn end(s: TranscriptionState, e: AdapterError) -> (r: (TranscriptionState, TranscriptionAction))
    ensures
        ends(s, r),
        failure(r) == e,
{
    let mut s = s;
    s.phase = TranscriptionPhase::Done;
    (s, TranscriptionAction::Respond(Err(e)))
}

fn left_of(c: &TranscriptionRun, elapsed: u64) -> (t: Option<u64>)
    ensures
        t == remaining_ms(*c, elapsed),
{
    if elapsed >= c.budget_ms {
        None
    } else {
        Some(c.budget_ms - elapsed)
    }
}

pub(crate) fn bytes_equal(a: &[u8], b: &[u8]) -> (r: bool)
    ensures
        r == (a@ == b@),
{
    if a.len() != b.len() {
        return false;
    }
    let mut i: usize = 0;
    while i < a.len()
        invariant
            i <= a@.len(),
            a@.len() == b@.len(),
            forall|k: int| 0 <= k < i ==> a@[k] == b@[k],
        decreases a@.len() - i,
    {
        if a[i] != b[i] {
            return false;
        }
        i = i + 1;
    }
    proof {
        assert(a@ =~= b@);
    }
    true
}

pub(crate) fn entry_equal(a: &ListingEntry, b: &ListingEntry) -> (r: bool)
    ensures
        r == ((a.0@, match a.1 {
            Some(x) => Some(x@),
            None => None,
        }) == (b.0@, match b.1 {
            Some(x) => Some(x@),
            None => None,
        })),
{
    if !str_equal(a.0.as_str(), b.0.as_str()) {
        return false;
    }
    match (&a.1, &b.1) {
        (Some(x), Some(y)) => bytes_equal(x.as_slice(), y.as_slice()),
        (None, None) => true,
        _ => false,
    }
}

pub(crate) fn same_listing(a: &Vec<ListingEntry>, b: &Vec<ListingEntry>) -> (r: bool)
    ensures
        r == (listing_view(a@) == listing_view(b@)),
{
    if a.len() != b.len() {
        proof {
            assert(listing_view(a@).len() != listing_view(b@).len());
        }
        return false;
    }
    let mut i: usize = 0;
    while i < a.len()
        invariant
            i <= a@.len(),
            a@.len() == b@.len(),
            forall|k: int| 0 <= k < i ==> listing_view(a@)[k] == listing_view(b@)[k],
        decreases a@.len() - i,
    {
        if !entry_equal(&a[i], &b[i]) {
            proof {
                assert(listing_view(a@)[i as int] != listing_view(b@)[i as int]);
            }
            return false;
        }
        i = i + 1;
    }
    proof {
        assert(listing_view(a@) =~= listing_view(b@));
    }
    true
}

proof fn lemma_stage_stop(l: Seq<(Seq<char>, Option<Seq<u8>>)>, expected: Seq<char>, m: nat, n: nat)
    requires
        m <= n <= l.len(),
        stage_output(l, expected, m) is Err,
    ensures
        stage_output(l, expected, n) == stage_output(l, expected, m),
    decreases n - m,
{
    if m < n {
        lemma_stage_stop(l, expected, m, (n - 1) as nat);
    }
}

/// The one output file a stage left in its directory.
fn stage_read(l: &Vec<ListingEntry>, expected: &str) -> (r: Result<Vec<u8>, AdapterError>)
    ensures
        match stage_bytes(listing_view(l@), expected@) {
            Err(m) => listing_error(r->Err_0, m) && r is Err,
            Ok(b) => r matches Ok(x) && x@ == b,
        },
{
    let ghost v = listing_view(l@);
    let mut found: Option<usize> = None;
    let mut i: usize = 0;
    while i < l.len()
        invariant
            i <= l@.len(),
            v == listing_view(l@),
            stage_output(v, expected@, i as nat) == match found {
                Some(j) => Ok::<Option<Seq<u8>>, Seq<char>>(v[j as int].1),
                None => Ok::<Option<Seq<u8>>, Seq<char>>(None),
            },
            found matches Some(j) ==> j < i && v[j as int].1 is Some,
        decreases l@.len() - i,
    {
        proof {
            assert(v[i as int] == (l@[i as int].0@, match l@[i as int].1 {
                Some(x) => Some(x@),
                None => None,
            }));
        }
        let named = str_equal(l[i].0.as_str(), expected);
        if !named || l[i].1.is_none() {
            proof {
                lemma_stage_stop(v, expected@, (i + 1) as nat, v.len());
            }
            return Err(
                AdapterError::Inventory(
                    crate::aeneas::framed("transcription driver emitted unexpected path `", l[i].0.as_str(), "`"),
                ),
            );
        }
        if found.is_some() {
            proof {
                lemma_stage_stop(v, expected@, (i + 1) as nat, v.len());
            }
            return Err(AdapterError::Inventory("transcription driver emitted duplicate output".to_owned()));
        }
        found = Some(i);
        i = i + 1;
    }
    match found {
        None => Err(
            AdapterError::Inventory(
                crate::aeneas::framed("transcription driver did not emit required output `", expected, "`"),
            ),
        ),
        Some(j) => match &l[j].1 {
            Some(b) => Ok(vstd::slice::slice_to_vec(b.as_slice())),
            None => Ok(Vec::new()),
        },
    }
}

fn driver_args(c: &TranscriptionRun, reencode: bool) -> (args: Vec<String>)
    ensures
        string_views(args@) == if reencode {
            reencode_args(*c)
        } else {
            transcribe_args(*c)
        },
{
    let candidate = crate::aeneas::prefixed(c.work_root.as_str(), "/transcribe/candidate.out");
    let args = if reencode {
        vec![
            c.driver.clone(),
            "reencode".to_owned(),
            "--transcription".to_owned(),
            candidate,
            "--output".to_owned(),
            crate::aeneas::prefixed(c.work_root.as_str(), "/reencode/source.out"),
        ]
    } else {
        vec![
            c.driver.clone(),
            "transcribe".to_owned(),
            "--source".to_owned(),
            c.source.clone(),
            "--output".to_owned(),
            candidate,
        ]
    };
    proof {
        if reencode {
            assert(string_views(args@) =~= reencode_args(*c));
        } else {
            assert(string_views(args@) =~= transcribe_args(*c));
        }
    }
    args
}

fn answer(c: &TranscriptionRun, s: TranscriptionState) -> (r: (TranscriptionState, TranscriptionAction))
    ensures
        answer_spec(*c, s, r),
{
    let names = vec![c.source_name.clone(), c.committed_name.clone()];
    proof {
        assert(string_views(names@) =~= observed_names(*c));
    }
    match sorted_unique(names, "trusted-transcription observed inventory") {
        Ok(inventory) => {
            let mut s = s;
            s.phase = TranscriptionPhase::Done;
            (s, TranscriptionAction::Respond(Ok(inventory)))
        },
        Err(e) => end(s, e),
    }
}

/// Decides what a trusted-transcription run does next: from where it
/// stands and what came of its last action (nothing, at the start), the
/// next state and the action for the caller to take.
pub fn transcription_step(
    c: &TranscriptionRun,
    elapsed_ms: u64,
    s: TranscriptionState,
    event: Option<TranscriptionEvent>,
) -> (r: (TranscriptionState, TranscriptionAction))
    ensures
        transcription_step_spec(*c, elapsed_ms, s, event, r),
{
    let phase = s.phase;
    match (phase, event) {
        (TranscriptionPhase::Start, None) => {
            let op = c.operation.as_str();
            if !(str_equal(op, "inventory") || str_equal(op, "check") || str_equal(op, "reproduce")) {
                return end(
                    s,
                    AdapterError::Request(
                        "trusted transcription executes only for inventory, check, or reproduce".to_owned(),
                    ),
                );
            }
            if !c.configured {
                return end(s, AdapterError::Unit("trusted-transcription requires its typed configuration".to_owned()));
            }
            let mut s = s;
            s.phase = TranscriptionPhase::Inputs;
            (s, TranscriptionAction::ReadInputs)
        },
        (TranscriptionPhase::Inputs, Some(TranscriptionEvent::Inputs(Ok((source, committed, tree))))) => {
            let mut s = s;
            s.source_bytes = source;
            s.committed_bytes = committed;
            s.before = tree;
            match left_of(c, elapsed_ms) {
                None => end(s, AdapterError::Timeout(c.budget_ms)),
                Some(t) => {
                    s.phase = TranscriptionPhase::Transcribe;
                    let spec = ProcessSpec { program: "python3".to_owned(), args: driver_args(c, false) };
                    (s, TranscriptionAction::Run { spec, timeout_ms: t })
                },
            }
        },
        (TranscriptionPhase::Transcribe, Some(TranscriptionEvent::Ran(Ok(o))))
        | (TranscriptionPhase::Reencode, Some(TranscriptionEvent::Ran(Ok(o)))) => {
            let reencode = phase == TranscriptionPhase::Reencode;
            let spec = ProcessSpec { program: "python3".to_owned(), args: driver_args(c, reencode) };
            if let Err(e) = ensure_silent_success(&spec, &o) {
                return end(s, e);
            }
            let mut s = s;
            s.phase = if reencode {
                TranscriptionPhase::ReencodeStage
            } else {
                TranscriptionPhase::TranscribeStage
            };
            (s, TranscriptionAction::ReadStage)
        },
        (TranscriptionPhase::TranscribeStage, Some(TranscriptionEvent::Stage(Ok((tree, t, _))))) => {
            if !same_listing(&tree, &s.before) {
                return end(
                    s,
                    AdapterError::ToolFailed(
                        "transcriber changed files outside its adapter-owned output directory".to_owned(),
                    ),
                );
            }
            let candidate = match stage_read(&t, "candidate.out") {
                Ok(b) => b,
                Err(e) => {
                    return end(s, e);
                },
            };
            if !bytes_equal(candidate.as_slice(), s.committed_bytes.as_slice()) {
                return end(
                    s,
                    AdapterError::ToolFailed(
                        "transcribed candidate does not byte-match the exact committed transcription".to_owned(),
                    ),
                );
            }
            let mut s = s;
            s.candidate = candidate;
            match left_of(c, elapsed_ms) {
                None => end(s, AdapterError::Timeout(c.budget_ms)),
                Some(t) => {
                    s.phase = TranscriptionPhase::Reencode;
                    let spec = ProcessSpec { program: "python3".to_owned(), args: driver_args(c, true) };
                    (s, TranscriptionAction::Run { spec, timeout_ms: t })
                },
            }
        },
        (TranscriptionPhase::ReencodeStage, Some(TranscriptionEvent::Stage(Ok((tree, t, back))))) => {
            if !same_listing(&tree, &s.before) {
                return end(
                    s,
                    AdapterError::ToolFailed(
                        "re-encoder changed files outside its adapter-owned output directory".to_owned(),
                    ),
                );
            }
            let again = match stage_read(&t, "candidate.out") {
                Ok(b) => b,
                Err(e) => {
                    return end(s, e);
                },
            };
            if !bytes_equal(again.as_slice(), s.candidate.as_slice()) {
                return end(s, AdapterError::ToolFailed("re-encoder changed the transcribed candidate".to_owned()));
            }
            let reencoded = match stage_read(&back, "source.out") {
                Ok(b) => b,
                Err(e) => {
                    return end(s, e);
                },
            };
            if !bytes_equal(reencoded.as_slice(), s.source_bytes.as_slice()) {
                return end(s, AdapterError::ToolFailed("re-encoded bytes do not byte-match the exact source".to_owned()));
            }
            answer(c, s)
        },
        (TranscriptionPhase::Inputs, Some(TranscriptionEvent::Inputs(Err(x))))
        | (TranscriptionPhase::Transcribe, Some(TranscriptionEvent::Ran(Err(x))))
        | (TranscriptionPhase::Reencode, Some(TranscriptionEvent::Ran(Err(x))))
        | (TranscriptionPhase::TranscribeStage, Some(TranscriptionEvent::Stage(Err(x))))
        | (TranscriptionPhase::ReencodeStage, Some(TranscriptionEvent::Stage(Err(x)))) => end(s, x),
        _ => end(s, AdapterError::Internal("transcription received an event it did not ask for".to_owned())),
    }
}

/// A transcription run succeeds only on an exact round trip: when it
/// answers with success, the candidate the transcriber wrote is exactly the
/// committed transcription, and the re-encoder gave back exactly the
/// source while leaving the candidate and the sealed project as they were.
pub proof fn lemma_success_is_an_exact_round_trip(
    c: TranscriptionRun,
    elapsed: u64,
    s: TranscriptionState,
    event: Option<TranscriptionEvent>,
    r: (TranscriptionState, TranscriptionAction),
)
    requires
        transcription_step_spec(c, elapsed, s, event, r),
        r.1 matches TranscriptionAction::Respond(Ok(_)),
    ensures
        s.phase == TranscriptionPhase::ReencodeStage,
        event matches Some(TranscriptionEvent::Stage(Ok((tree, t, back)))) && {
            &&& listing_view(tree@) == listing_view(s.before@)
            &&& stage_bytes(listing_view(t@), "candidate.out"@) == Ok::<Seq<u8>, Seq<char>>(s.candidate@)
            &&& stage_bytes(listing_view(back@), "source.out"@) == Ok::<Seq<u8>, Seq<char>>(s.source_bytes@)
        },
{
}

/// The candidate a run carries past the `transcribe` stage is exactly the
/// committed transcription.
pub proof fn lemma_candidate_is_the_committed_transcription(
    c: TranscriptionRun,
    elapsed: u64,
    s: TranscriptionState,
    event: Option<TranscriptionEvent>,
    r: (TranscriptionState, TranscriptionAction),
)
    requires
        transcription_step_spec(c, elapsed, s, event, r),
        s.phase == TranscriptionPhase::TranscribeStage,
        r.0.phase == TranscriptionPhase::Reencode,
    ensures
        r.0.candidate@ == s.committed_bytes@,
{
}

} // verus!
