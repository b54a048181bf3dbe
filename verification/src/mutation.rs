//! Mutation replay of the test adapter: the registry of a replayed mutant,
//! checked against its unit, and the replay itself as a sequence of
//! decisions. The replay runs the registered witness in a baseline shadow,
//! where it must pass, and in a mutant shadow that differs from the
//! baseline only in the registered target, where it must fail.
use vstd::prelude::*;
use vstd::utf8::{decode_utf8, valid_utf8};
use crate::inventory::has_duplicates;
use crate::names::{is_safe_id, is_safe_symbol, is_sha256_text};
use crate::paths::components;
use crate::test_unit::{
    file_name, has_extension, is_transcription_path, registration_fault_of, validate_mutation_path,
    validate_mutation_unit, is_unit_fault, MutationRegistration, TestUnit, UnitFault,
};
use crate::testing::AdapterError;
use crate::text::{debug_status, ends_with, str_equal, string_views, trim, utf8_error_text, utf8_text};
use crate::digest::{sha256_bytes, sha256_text};
use crate::process::{ProcessOutput, ProcessSpec};
use crate::rust_session::{
    collected_views, exact_call, failed, find_test, inventory_error, internal_error, lemma_test_index_bounds,
    lookup, pass_fault, run_failure, unit_error, CollectedTest,
};
use crate::testing::{ensure_one_rust_test_failed, ensure_one_rust_test_ran, ensure_success, one_rust_failure};
use crate::transcription_session::{bytes_equal, listing_view, same_listing, ListingEntry};

verus! {

/// The one mutation a registry replays.
pub struct MutationEntry {
    pub id: String,
    pub guard: String,
    pub target_path: String,
    pub target_preimage_sha256: String,
    pub mutant_path: String,
    pub mutant_sha256: String,
    pub witness: String,
    pub witness_path: String,
    pub witness_sha256: String,
    pub affected_claims: Vec<String>,
}

/// A typed mutation registry: its schema, subject and mutation.
pub struct MutationRegistry {
    pub schema: String,
    pub subject: String,
    pub mutation: MutationEntry,
}

/// What `toml::from_str` into a `toml::Value` makes of a document's
/// top-level `schema` string: the string (nothing where the document has
/// no such string), or the parser's error text.
pub uninterp spec fn toml_registry_schema(text: Seq<char>) -> Result<Option<Seq<char>>, Seq<char>>;

/// Parses `text` with `toml::from_str` into a `toml::Value` and reads its
/// top-level `schema` string; on a parse error, the error's `Display` text.
#[verifier::external_body]
fn toml_schema(text: &str) -> (r: Result<Option<String>, String>)
    ensures
        match r {
            Ok(Some(s)) => toml_registry_schema(text@) == Ok::<Option<Seq<char>>, Seq<char>>(Some(s@)),
            Ok(None) => toml_registry_schema(text@) == Ok::<Option<Seq<char>>, Seq<char>>(None),
            Err(m) => toml_registry_schema(text@) == Err::<Option<Seq<char>>, Seq<char>>(m@),
        },
{
    match toml::from_str::<toml::Value>(text) {
        Ok(value) => Ok(value.get("schema").and_then(toml::Value::as_str).map(str::to_owned)),
        Err(error) => Err(error.to_string()),
    }
}

/// The only registry schema a replay accepts.
pub open spec fn registry_schema() -> Seq<char> {
    "proofbound-mutation-registry/2"@
}

/// A path that names a `.toml` file.
pub open spec fn is_toml_path(path: Seq<char>) -> bool {
    components(path).len() > 0 && file_name(path).len() > 5 && ends_with(file_name(path), ".toml"@)
}

/// A path a replay may name: a transcription path with an extension.
pub open spec fn is_mutation_path(path: Seq<char>, reserved: Seq<Seq<char>>) -> bool {
    is_transcription_path(path, reserved) && has_extension(path)
}

/// Whether the fields of the replayed mutation are well formed.
pub open spec fn entry_ok(e: MutationEntry) -> bool {
    let claims = string_views(e.affected_claims@);
    &&& is_safe_id(e.id@)
    &&& trim(e.guard@).len() > 0
    &&& e.guard@.len() <= 8192
    &&& is_safe_symbol(e.witness@)
    &&& 0 < claims.len() <= 4096
    &&& !has_duplicates(claims)
    &&& is_sha256_text(e.target_preimage_sha256@)
    &&& is_sha256_text(e.mutant_sha256@)
    &&& is_sha256_text(e.witness_sha256@)
}

/// The registry, target, mutant and witness paths, in that order.
pub open spec fn replay_paths(path: Seq<char>, e: MutationEntry) -> Seq<Seq<char>> {
    seq![path, e.target_path@, e.mutant_path@, e.witness_path@]
}

/// The first of the replay paths that is no mutation path.
pub open spec fn bad_replay_path(paths: Seq<Seq<char>>, reserved: Seq<Seq<char>>) -> Option<Seq<char>> {
    if !is_mutation_path(paths[0], reserved) {
        Some(paths[0])
    } else if !is_mutation_path(paths[1], reserved) {
        Some(paths[1])
    } else if !is_mutation_path(paths[2], reserved) {
        Some(paths[2])
    } else if !is_mutation_path(paths[3], reserved) {
        Some(paths[3])
    } else {
        None
    }
}

/// Whether the four replay paths are pairwise distinct.
pub open spec fn distinct_paths(p: Seq<Seq<char>>) -> bool {
    p[0] != p[1] && p[0] != p[2] && p[0] != p[3] && p[1] != p[2] && p[1] != p[3] && p[2] != p[3]
}

/// Why a mutation registry at `path` with bytes `bytes`, typed as
/// `registry` (or the typed parser's error text), cannot drive the replay
/// of `unit`.
pub open spec fn registry_fault(
    path: Seq<char>,
    bytes: Seq<u8>,
    registry: Result<MutationRegistry, String>,
    unit: TestUnit,
    named_targets: Seq<Seq<char>>,
    reserved: Seq<Seq<char>>,
) -> Option<UnitFault> {
    if !is_mutation_path(path, reserved) {
        Some(UnitFault::UnsafePath(path))
    } else if !is_toml_path(path) {
        Some(UnitFault::Unit("mutation registry must be a .toml file"@))
    } else if !valid_utf8(bytes) {
        Some(UnitFault::Unit("mutation registry is not UTF-8: "@ + utf8_error_text(bytes)))
    } else {
        match toml_registry_schema(decode_utf8(bytes)) {
            Err(m) => Some(UnitFault::Unit("invalid mutation registry: "@ + m)),
            Ok(schema) => if schema != Some(registry_schema()) {
                Some(
                    UnitFault::Unit(
                        "direct/manual mutation evidence is unsupported; use proofbound-mutation-registry/2 replay"@,
                    ),
                )
            } else {
                match registry {
                    Err(m) => Some(UnitFault::Unit(m@)),
                    Ok(reg) => {
                        let e = reg.mutation;
                        let paths = replay_paths(path, e);
                        if reg.schema@ != registry_schema() || trim(reg.subject@).len() == 0
                            || reg.subject@.len() > 4096 {
                            Some(UnitFault::Unit("mutation registry must contain exactly one typed replay"@))
                        } else if !entry_ok(e) {
                            Some(UnitFault::Unit("invalid mutation replay entry `"@ + e.id@ + "`"@))
                        } else if bad_replay_path(paths, reserved) is Some {
                            Some(UnitFault::UnsafePath(bad_replay_path(paths, reserved)->0))
                        } else if !distinct_paths(paths) {
                            Some(
                                UnitFault::Unit(
                                    "mutation registry, target, mutant, and witness paths must be distinct"@,
                                ),
                            )
                        } else {
                            registration_fault_of(
                                unit,
                                (
                                    path,
                                    e.id@,
                                    string_views(e.affected_claims@),
                                    e.target_path@,
                                    e.mutant_path@,
                                    e.witness_path@,
                                ),
                                named_targets,
                            )
                        }
                    },
                }
            },
        }
    }
}

fn blank(s: &str) -> (b: bool)
    ensures
        b == (trim(s@).len() == 0),
{
    crate::text::trim_chars(crate::text::chars_of(s).as_slice()).len() == 0
}

fn toml_path(path: &str) -> (b: bool)
    ensures
        b == is_toml_path(path@),
{
    let c = crate::text::chars_of(path);
    let parts = crate::paths::components_of(c.as_slice());
    if parts.len() == 0 {
        return false;
    }
    let last = parts[parts.len() - 1].as_slice();
    proof {
        assert(crate::text::views(parts@).last() == last@);
    }
    if last.len() <= 5 {
        return false;
    }
    let suffix = crate::text::chars_of(".toml");
    proof {
        reveal_strlit(".toml");
    }
    crate::text::matches_at(last, suffix.as_slice(), last.len() - 5)
}

fn copy_string(s: &String) -> (out: String)
    ensures
        out@ == s@,
{
    s.clone()
}

fn entry_valid(e: &MutationEntry) -> (b: bool)
    ensures
        b == entry_ok(*e),
{
    let claims = crate::text::char_lists(&e.affected_claims);
    crate::names::safe_id(e.id.as_str()) && !blank(e.guard.as_str()) && crate::text::chars_of(
        e.guard.as_str(),
    ).len() <= 8192 && crate::names::safe_symbol(e.witness.as_str()) && e.affected_claims.len() > 0
        && e.affected_claims.len() <= 4096 && !crate::inventory::repeats_a_name(&claims)
        && crate::names::valid_digest(e.target_preimage_sha256.as_str()) && crate::names::valid_digest(
        e.mutant_sha256.as_str(),
    ) && crate::names::valid_digest(e.witness_sha256.as_str())
}

/// Checks a mutation registry and its agreement with the unit it replays:
/// the registry's path, its TOML schema, the typed registry's fields, its
/// four distinct replay paths, and the unit's exact match with the
/// registration.
pub fn check_mutation_registry(
    path: &str,
    bytes: &[u8],
    registry: &Result<MutationRegistry, String>,
    unit: &TestUnit,
    named_targets: &Vec<String>,
    reserved: &Vec<String>,
) -> (r: Result<(), AdapterError>)
    ensures
        match registry_fault(path@, bytes@, *registry, *unit, string_views(named_targets@), string_views(reserved@)) {
            None => r is Ok,
            Some(f) => r matches Err(e) && is_unit_fault(e, f),
        },
{
    validate_mutation_path(path, reserved)?;
    if !toml_path(path) {
        return Err(AdapterError::Unit("mutation registry must be a .toml file".to_owned()));
    }
    let text = match utf8_text(bytes) {
        Ok(t) => t,
        Err(m) => {
            return Err(AdapterError::Unit(crate::aeneas::prefixed("mutation registry is not UTF-8: ", m.as_str())));
        },
    };
    match toml_schema(text.as_str()) {
        Err(m) => {
            return Err(AdapterError::Unit(crate::aeneas::prefixed("invalid mutation registry: ", m.as_str())));
        },
        Ok(schema) => {
            let accepted = match &schema {
                Some(s) => str_equal(s.as_str(), "proofbound-mutation-registry/2"),
                None => false,
            };
            if !accepted {
                return Err(
                    AdapterError::Unit(
                        "direct/manual mutation evidence is unsupported; use proofbound-mutation-registry/2 replay".to_owned(),
                    ),
                );
            }
        },
    }
    let reg = match registry {
        Err(m) => {
            return Err(AdapterError::Unit(copy_string(m)));
        },
        Ok(reg) => reg,
    };
    if !str_equal(reg.schema.as_str(), "proofbound-mutation-registry/2") || blank(reg.subject.as_str())
        || crate::text::chars_of(reg.subject.as_str()).len() > 4096 {
        return Err(AdapterError::Unit("mutation registry must contain exactly one typed replay".to_owned()));
    }
    let e = &reg.mutation;
    if !entry_valid(e) {
        return Err(AdapterError::Unit(crate::aeneas::framed("invalid mutation replay entry `", e.id.as_str(), "`")));
    }
    validate_mutation_path(path, reserved)?;
    validate_mutation_path(e.target_path.as_str(), reserved)?;
    validate_mutation_path(e.mutant_path.as_str(), reserved)?;
    validate_mutation_path(e.witness_path.as_str(), reserved)?;
    let p = path;
    let t = e.target_path.as_str();
    let m = e.mutant_path.as_str();
    let w = e.witness_path.as_str();
    if str_equal(p, t) || str_equal(p, m) || str_equal(p, w) || str_equal(t, m) || str_equal(t, w) || str_equal(m, w) {
        return Err(AdapterError::Unit("mutation registry, target, mutant, and witness paths must be distinct".to_owned()));
    }
    let registration = MutationRegistration {
        path: path.to_owned(),
        id: copy_string(&e.id),
        affected_claims: crate::session::copy_strings(&e.affected_claims),
        target_path: copy_string(&e.target_path),
        mutant_path: copy_string(&e.mutant_path),
        witness_path: copy_string(&e.witness_path),
    };
    validate_mutation_unit(unit, &registration, named_targets)
}


/// The bytes of the four files a replay names, as read in one root.
pub struct ReplayFiles {
    pub registry: Vec<u8>,
    pub target: Vec<u8>,
    pub mutant: Vec<u8>,
    pub witness: Vec<u8>,
}

/// The four files as plain values.
pub open spec fn files_view(f: ReplayFiles) -> (Seq<u8>, Seq<u8>, Seq<u8>, Seq<u8>) {
    (f.registry@, f.target@, f.mutant@, f.witness@)
}

/// Why the files read in a root do not match the registration: a digest
/// that differs from the registered one, or a mutant that is the target.
pub open spec fn file_fault(f: ReplayFiles, e: MutationEntry) -> Option<Seq<char>> {
    if sha256_text(f.target@) != e.target_preimage_sha256@ {
        Some("mutation target preimage digest does not match its registration"@)
    } else if sha256_text(f.mutant@) != e.mutant_sha256@ {
        Some("mutant artifact digest does not match its registration"@)
    } else if sha256_text(f.witness@) != e.witness_sha256@ {
        Some("mutation witness source digest does not match its registration"@)
    } else if sha256_text(f.target@) == sha256_text(f.mutant@) {
        Some("registered mutant is byte-identical to its target preimage"@)
    } else {
        None
    }
}

/// The index of the first entry of a listing at `path`, or its length.
pub open spec fn listing_index(l: Seq<(Seq<char>, Option<Seq<u8>>)>, path: Seq<char>, from: int) -> int
    decreases l.len() - from,
{
    if from < 0 || from >= l.len() {
        l.len() as int
    } else if l[from].0 == path {
        from
    } else {
        listing_index(l, path, from + 1)
    }
}

/// The listing holds `path` as a regular file.
pub open spec fn holds_file(l: Seq<(Seq<char>, Option<Seq<u8>>)>, path: Seq<char>) -> bool {
    let i = listing_index(l, path, 0);
    0 <= i < l.len() && l[i].1 is Some
}

/// `after` is `before` with exactly the target's bytes replaced by `post`.
pub open spec fn only_target_changed(
    before: Seq<(Seq<char>, Option<Seq<u8>>)>,
    after: Seq<(Seq<char>, Option<Seq<u8>>)>,
    path: Seq<char>,
    post: Seq<u8>,
) -> bool {
    after == before.update(listing_index(before, path, 0), (path, Some(post)))
}

/// The canonical names of collected tests.
pub open spec fn test_names(found: Seq<(Seq<char>, Seq<char>, Seq<char>)>) -> Seq<Seq<char>> {
    found.map_values(|t: (Seq<char>, Seq<char>, Seq<char>)| t.0)
}

/// Two name lists hold the same names.
pub open spec fn same_names(a: Seq<Seq<char>>, b: Seq<Seq<char>>) -> bool {
    forall|x: Seq<char>| a.contains(x) <==> b.contains(x)
}

/// What a mutation replay is configured with.
pub struct MutationRun {
    /// The request's operation.
    pub operation: String,
    /// The registered mutation, from a registry `check_mutation_registry`
    /// accepted.
    pub mutation: MutationEntry,
    /// The unit's time budget, in milliseconds.
    pub budget_ms: u64,
}

/// Where a replay stands.
#[derive(Clone, Copy, Debug, PartialEq, Eq, Structural)]
pub enum ReplayPhase {
    Start,
    /// The replay files and the two shadow trees are being read.
    Inputs,
    /// The tests of the baseline shadow are being collected.
    CollectBaseline,
    /// The witness runs alone in the baseline shadow.
    BaselineRun,
    /// The baseline shadow's tree is listed again.
    BaselineTree,
    /// The mutant artifact is written over the target in the mutant shadow.
    Applied,
    /// The tests of the mutant shadow are being collected.
    CollectMutant,
    /// The witness runs alone in the mutant shadow.
    MutantRun,
    /// The mutant shadow and the reviewed root are read once more.
    Final,
    Done,
}

/// What a replay has gathered so far.
pub struct ReplayState {
    pub phase: ReplayPhase,
    /// The replay files as read in the reviewed root.
    pub original: ReplayFiles,
    /// The reviewed tree of the fresh baseline shadow.
    pub tree: Vec<ListingEntry>,
    /// The canonical names of the tests collected in the baseline shadow.
    pub inventory: Vec<String>,
    /// The witness's executable and libtest name, in the shadow at hand.
    pub witness: (String, String),
    /// The target's bytes once the mutant was written over it.
    pub postimage: Vec<u8>,
    /// The witness passed alone in the baseline shadow.
    pub baseline_passed: bool,
    /// The witness failed alone in the mutant shadow.
    pub mutant_failed: bool,
}

/// What the caller reads before the replay starts.
pub struct ReplayInputs {
    pub original: ReplayFiles,
    pub baseline: ReplayFiles,
    pub mutant: ReplayFiles,
    /// The reviewed trees of the two shadows.
    pub baseline_tree: Vec<ListingEntry>,
    pub mutant_tree: Vec<ListingEntry>,
}

/// What the caller reads once the mutant witness ran.
pub struct ReplayFinal {
    /// The replay files as read in the mutant shadow.
    pub mutant: ReplayFiles,
    /// The reviewed tree of the mutant shadow.
    pub tree: Vec<ListingEntry>,
    /// The replay files as read in the reviewed root.
    pub original: ReplayFiles,
}

/// A successful replay's answer.
pub struct ReplayAnswer {
    /// The replayed mutation's id, alone.
    pub inventory: Vec<String>,
    /// Whether the witness ran in both shadows.
    pub witness_replayed: bool,
    /// The digest of the target once mutated.
    pub postimage_sha256: String,
}

/// What the caller is to do next.
pub enum ReplayAction {
    /// Read the replay files in the reviewed root and in both shadows, and
    /// list both shadows' reviewed trees.
    ReadInputs,
    /// Collect the tests of the mutant shadow (`mutant`) or the baseline.
    Collect { mutant: bool },
    /// Run `spec` in the mutant shadow (`mutant`) or the baseline.
    Run { spec: ProcessSpec, timeout_ms: u64, mutant: bool },
    /// List the baseline shadow's reviewed tree.
    ListBaseline,
    /// Write the mutant artifact over the target in the mutant shadow, then
    /// read the target and list the mutant shadow's reviewed tree.
    ApplyMutant,
    /// Read the replay files in the mutant shadow and the reviewed root,
    /// and list the mutant shadow's reviewed tree.
    ReadFinal,
    /// Answer the request.
    Respond(Result<ReplayAnswer, AdapterError>),
}

/// What came of an action.
pub enum ReplayEvent {
    Inputs(Result<ReplayInputs, AdapterError>),
    Collected(Result<Vec<CollectedTest>, AdapterError>),
    Ran(Result<ProcessOutput, AdapterError>),
    Tree(Result<Vec<ListingEntry>, AdapterError>),
    /// The target's bytes and the mutant shadow's reviewed tree.
    Applied(Result<(Vec<u8>, Vec<ListingEntry>), AdapterError>),
    Final(Result<ReplayFinal, AdapterError>),
}

impl ReplayState {
    /// A replay that has not started.
    pub fn start() -> (s: ReplayState)
        ensures
            s.phase == ReplayPhase::Start,
            !s.baseline_passed,
            !s.mutant_failed,
    {
        ReplayState {
            phase: ReplayPhase::Start,
            original: ReplayFiles { registry: Vec::new(), target: Vec::new(), mutant: Vec::new(), witness: Vec::new() },
            tree: Vec::new(),
            inventory: Vec::new(),
            witness: (String::new(), String::new()),
            postimage: Vec::new(),
            baseline_passed: false,
            mutant_failed: false,
        }
    }
}

/// The state moved to phase `p`.
pub open spec fn moved_to(s: ReplayState, p: ReplayPhase) -> ReplayState {
    ReplayState { phase: p, ..s }
}

/// The replay ends with a failure.
pub open spec fn halts(s: ReplayState, r: (ReplayState, ReplayAction)) -> bool {
    r.0 == moved_to(s, ReplayPhase::Done) && r.1 is Respond && r.1->Respond_0 is Err
}

/// The failure the replay ends with.
pub open spec fn halt_error(r: (ReplayState, ReplayAction)) -> AdapterError {
    r.1->Respond_0->Err_0
}

/// The failure is a tool failure with message `m`.
pub open spec fn tool_error(e: AdapterError, m: Seq<char>) -> bool {
    e matches AdapterError::ToolFailed(x) && x@ == m
}

/// The operations that run the witness in both shadows.
pub open spec fn runs_witness(c: MutationRun) -> bool {
    c.operation@ == "check"@ || c.operation@ == "reproduce"@
}

/// The time left before the budget runs out, if any.
pub open spec fn replay_left(c: MutationRun, elapsed: u64) -> Option<u64> {
    if elapsed >= c.budget_ms {
        None
    } else {
        Some((c.budget_ms - elapsed) as u64)
    }
}

/// The action runs the witness `node` alone, in the mutant shadow or not.
pub open spec fn runs_witness_node(a: ReplayAction, node: (Seq<char>, Seq<char>), t: u64, mutant: bool) -> bool {
    a matches ReplayAction::Run { spec, timeout_ms, mutant: m } && spec.program@ == node.0 && string_views(
        spec.args@,
    ) == seq![node.1, "--exact"@] && timeout_ms == t && m == mutant
}

/// The failure that a mutant witness run reports, when it does not show
/// exactly the witness failing with libtest's exit status 101.
pub open spec fn witness_failure(o: ProcessOutput, name: Seq<char>, e: AdapterError) -> bool {
    if o.truncated {
        inventory_error(e, "mutant witness output was truncated"@)
    } else if o.status != Some(101i32) {
        tool_error(e, "mutant witness exited "@ + debug_status(o.status) + "; exact Rust libtest exit 101 is required"@)
    } else if !valid_utf8(o.stdout@) {
        inventory_error(e, "non-UTF-8 "@ + "libtest"@ + " output: "@ + utf8_error_text(o.stdout@))
    } else if !valid_utf8(o.stderr@) {
        inventory_error(e, "non-UTF-8 "@ + "libtest"@ + " output: "@ + utf8_error_text(o.stderr@))
    } else {
        inventory_error(e, "Rust mutant witness `"@ + name + "` did not report exactly one failing test"@)
    }
}

/// The mutant witness run shows exactly the witness failing, with exit 101.
pub open spec fn witness_failed(o: ProcessOutput, name: Seq<char>) -> bool {
    &&& !o.truncated
    &&& o.status == Some(101i32)
    &&& valid_utf8(o.stdout@)
    &&& valid_utf8(o.stderr@)
    &&& one_rust_failure(decode_utf8(o.stdout@), decode_utf8(o.stderr@), name)
}

/// What starting a replay decides: only `inventory`, `check` and
/// `reproduce` replay.
pub open spec fn replay_start_spec(c: MutationRun, s: ReplayState, r: (ReplayState, ReplayAction)) -> bool {
    if c.operation@ == "inventory"@ || runs_witness(c) {
        r.0 == moved_to(s, ReplayPhase::Inputs) && r.1 is ReadInputs
    } else {
        halts(s, r) && (halt_error(r) matches AdapterError::Request(m)
            && m@ == "mutation replay executes only for inventory, check, or reproduce"@)
    }
}

/// What the files and trees read at the start decide: each root's files
/// match the registration, the three roots hold the same files, and the
/// two shadows the same reviewed tree.
pub open spec fn inputs_spec(c: MutationRun, s: ReplayState, i: ReplayInputs, r: (ReplayState, ReplayAction)) -> bool {
    let e = c.mutation;
    if file_fault(i.original, e) is Some {
        halts(s, r) && unit_error(halt_error(r), file_fault(i.original, e)->0)
    } else if file_fault(i.baseline, e) is Some {
        halts(s, r) && unit_error(halt_error(r), file_fault(i.baseline, e)->0)
    } else if file_fault(i.mutant, e) is Some {
        halts(s, r) && unit_error(halt_error(r), file_fault(i.mutant, e)->0)
    } else if files_view(i.original) != files_view(i.baseline) || files_view(i.original) != files_view(i.mutant) {
        halts(s, r) && tool_error(halt_error(r), "fresh mutation shadows do not byte-match the registered root inputs"@)
    } else if listing_view(i.baseline_tree@) != listing_view(i.mutant_tree@) {
        halts(s, r) && tool_error(halt_error(r), "fresh baseline and mutant shadows have different reviewed trees"@)
    } else {
        &&& r.0 == ReplayState {
            phase: ReplayPhase::CollectBaseline,
            original: i.original,
            tree: i.baseline_tree,
            ..s
        }
        &&& r.1 matches ReplayAction::Collect { mutant } && !mutant
    }
}

/// What the baseline collection decides: the witness must be collected;
/// `check` and `reproduce` then run it alone.
pub open spec fn baseline_collected_spec(
    c: MutationRun,
    elapsed: u64,
    s: ReplayState,
    d: Vec<CollectedTest>,
    r: (ReplayState, ReplayAction),
) -> bool {
    let e = c.mutation;
    let found = collected_views(d@);
    match lookup(found, e.witness@) {
        None => halts(s, r) && inventory_error(
            halt_error(r),
            "mutation `"@ + e.id@ + "` witness `"@ + e.witness@ + "` was not collected"@,
        ),
        Some(node) => {
            let ps = ReplayState { inventory: r.0.inventory, witness: r.0.witness, ..s };
            &&& string_views(r.0.inventory@) == test_names(found)
            &&& (r.0.witness.0@, r.0.witness.1@) == node
            &&& if runs_witness(c) {
                match replay_left(c, elapsed) {
                    None => halts(ps, r) && halt_error(r) == AdapterError::Timeout(c.budget_ms),
                    Some(t) => r.0 == moved_to(ps, ReplayPhase::BaselineRun) && runs_witness_node(r.1, node, t, false),
                }
            } else {
                r.0 == moved_to(ps, ReplayPhase::BaselineTree) && r.1 is ListBaseline
            }
        },
    }
}

/// What the baseline witness run decides: it must exit 0 with libtest
/// reporting exactly the witness passing.
pub open spec fn baseline_run_spec(s: ReplayState, o: ProcessOutput, r: (ReplayState, ReplayAction)) -> bool {
    let node = (s.witness.0@, s.witness.1@);
    if failed(o) {
        halts(s, r) && run_failure(node.0, seq![node.1, "--exact"@], o, halt_error(r))
    } else if pass_fault(o, node.1) is Some {
        halts(s, r) && inventory_error(halt_error(r), pass_fault(o, node.1)->0)
    } else {
        r.0 == ReplayState { phase: ReplayPhase::BaselineTree, baseline_passed: true, ..s } && r.1 is ListBaseline
    }
}

/// What listing the baseline again decides: nothing reviewed changed.
pub open spec fn baseline_tree_spec(
    s: ReplayState,
    after: Vec<ListingEntry>,
    r: (ReplayState, ReplayAction),
) -> bool {
    if listing_view(after@) != listing_view(s.tree@) {
        halts(s, r) && tool_error(
            halt_error(r),
            "baseline mutation witness changed files outside its adapter-owned output directory"@,
        )
    } else {
        r.0 == moved_to(s, ReplayPhase::Applied) && r.1 is ApplyMutant
    }
}

/// The failure that a mutant shadow's tree reports, if it is not the
/// reviewed tree with exactly the target replaced by `post`.
pub open spec fn mutant_tree_outcome(
    before: Seq<(Seq<char>, Option<Seq<u8>>)>,
    after: Seq<(Seq<char>, Option<Seq<u8>>)>,
    path: Seq<char>,
    post: Seq<u8>,
    r: Result<(), AdapterError>,
) -> bool {
    if !holds_file(before, path) {
        r matches Err(AdapterError::UnsafePath(p)) && p@ == path
    } else if !only_target_changed(before, after, path, post) {
        r matches Err(x) && tool_error(x, "mutant replay changed a reviewed path other than its registered target"@)
    } else {
        r is Ok
    }
}

/// What writing the mutant over the target decides: the target must now
/// hold the registered mutant, and nothing else reviewed may differ.
pub open spec fn applied_spec(
    c: MutationRun,
    s: ReplayState,
    post: Vec<u8>,
    tree: Vec<ListingEntry>,
    r: (ReplayState, ReplayAction),
) -> bool {
    let e = c.mutation;
    if sha256_text(post@) != e.mutant_sha256@ || post@.len() != s.original.mutant@.len() {
        halts(s, r) && internal_error(halt_error(r), "mutated target postimage does not byte-match the registered mutant"@)
    } else if !holds_file(listing_view(s.tree@), e.target_path@) || !only_target_changed(
        listing_view(s.tree@),
        listing_view(tree@),
        e.target_path@,
        post@,
    ) {
        halts(s, r) && mutant_tree_outcome(
            listing_view(s.tree@),
            listing_view(tree@),
            e.target_path@,
            post@,
            Err(halt_error(r)),
        )
    } else {
        &&& r.0 == ReplayState { phase: ReplayPhase::CollectMutant, postimage: post, ..s }
        &&& r.1 matches ReplayAction::Collect { mutant } && mutant
    }
}

/// What the mutant collection decides: the same tests as the baseline,
/// the witness among them; `check` and `reproduce` then run it alone.
pub open spec fn mutant_collected_spec(
    c: MutationRun,
    elapsed: u64,
    s: ReplayState,
    d: Vec<CollectedTest>,
    r: (ReplayState, ReplayAction),
) -> bool {
    let e = c.mutation;
    let found = collected_views(d@);
    if !same_names(test_names(found), string_views(s.inventory@)) {
        halts(s, r) && inventory_error(halt_error(r), "mutant changed the exact collected Rust test inventory"@)
    } else {
        match lookup(found, e.witness@) {
            None => halts(s, r) && inventory_error(
                halt_error(r),
                "mutant omitted registered witness `"@ + e.witness@ + "`"@,
            ),
            Some(node) => {
                let ps = ReplayState { witness: r.0.witness, ..s };
                &&& (r.0.witness.0@, r.0.witness.1@) == node
                &&& if runs_witness(c) {
                    match replay_left(c, elapsed) {
                        None => halts(ps, r) && halt_error(r) == AdapterError::Timeout(c.budget_ms),
                        Some(t) => r.0 == moved_to(ps, ReplayPhase::MutantRun) && runs_witness_node(r.1, node, t, true),
                    }
                } else {
                    r.0 == moved_to(ps, ReplayPhase::Final) && r.1 is ReadFinal
                }
            },
        }
    }
}

/// What the mutant witness run decides: exactly the witness must fail.
pub open spec fn mutant_run_spec(s: ReplayState, o: ProcessOutput, r: (ReplayState, ReplayAction)) -> bool {
    if witness_failed(o, s.witness.1@) {
        r.0 == ReplayState { phase: ReplayPhase::Final, mutant_failed: true, ..s } && r.1 is ReadFinal
    } else {
        halts(s, r) && witness_failure(o, s.witness.1@, halt_error(r))
    }
}

/// What the last reading decides: the mutant shadow still holds the replay
/// inputs and the postimage and no other change, and the reviewed root
/// still holds the registered files.
pub open spec fn final_spec(c: MutationRun, s: ReplayState, f: ReplayFinal, r: (ReplayState, ReplayAction)) -> bool {
    let e = c.mutation;
    let before = listing_view(s.tree@);
    if f.mutant.target@ != s.postimage@ || f.mutant.registry@ != s.original.registry@ || f.mutant.mutant@
        != s.original.mutant@ || f.mutant.witness@ != s.original.witness@ {
        halts(s, r) && tool_error(
            halt_error(r),
            "mutant execution changed its registered replay inputs or target postimage"@,
        )
    } else if !holds_file(before, e.target_path@) || !only_target_changed(
        before,
        listing_view(f.tree@),
        e.target_path@,
        s.postimage@,
    ) {
        halts(s, r) && mutant_tree_outcome(
            before,
            listing_view(f.tree@),
            e.target_path@,
            s.postimage@,
            Err(halt_error(r)),
        )
    } else if file_fault(f.original, e) is Some {
        halts(s, r) && unit_error(halt_error(r), file_fault(f.original, e)->0)
    } else if files_view(f.original) != files_view(s.original) {
        halts(s, r) && tool_error(halt_error(r), "mutation replay changed a registered file in the reviewed root"@)
    } else {
        &&& r.0 == moved_to(s, ReplayPhase::Done)
        &&& r.1 matches ReplayAction::Respond(Ok(a))
        &&& string_views(a.inventory@) == seq![e.id@]
        &&& a.witness_replayed == runs_witness(c)
        &&& a.postimage_sha256@ == sha256_text(s.postimage@)
    }
}

/// The message of an event that the replay did not ask for.
pub open spec fn replay_unasked() -> Seq<char> {
    "mutation replay received an event it did not ask for"@
}

/// Whether a replay state is one `mutation_replay_step` reaches: for
/// `check` and `reproduce`, past the baseline run the witness passed there,
/// and at the last reading it failed in the mutant shadow.
pub open spec fn replay_wf(c: MutationRun, s: ReplayState) -> bool {
    &&& runs_witness(c) && (s.phase == ReplayPhase::BaselineTree || s.phase == ReplayPhase::Applied || s.phase
        == ReplayPhase::CollectMutant || s.phase == ReplayPhase::MutantRun || s.phase == ReplayPhase::Final)
        ==> s.baseline_passed
    &&& runs_witness(c) && s.phase == ReplayPhase::Final ==> s.mutant_failed
}

/// What a replay decides next, from where it stands and what came of its
/// last action (nothing, at the start).
pub open spec fn replay_step_spec(
    c: MutationRun,
    elapsed: u64,
    s: ReplayState,
    event: Option<ReplayEvent>,
    r: (ReplayState, ReplayAction),
) -> bool {
    match event {
        None => if s.phase == ReplayPhase::Start {
            replay_start_spec(c, s, r)
        } else {
            halts(s, r) && internal_error(halt_error(r), replay_unasked())
        },
        Some(ev) => match (s.phase, ev) {
            (ReplayPhase::Inputs, ReplayEvent::Inputs(Ok(i))) => inputs_spec(c, s, i, r),
            (ReplayPhase::CollectBaseline, ReplayEvent::Collected(Ok(d))) => baseline_collected_spec(c, elapsed, s, d, r),
            (ReplayPhase::BaselineRun, ReplayEvent::Ran(Ok(o))) => baseline_run_spec(s, o, r),
            (ReplayPhase::BaselineTree, ReplayEvent::Tree(Ok(t))) => baseline_tree_spec(s, t, r),
            (ReplayPhase::Applied, ReplayEvent::Applied(Ok(a))) => applied_spec(c, s, a.0, a.1, r),
            (ReplayPhase::CollectMutant, ReplayEvent::Collected(Ok(d))) => mutant_collected_spec(c, elapsed, s, d, r),
            (ReplayPhase::MutantRun, ReplayEvent::Ran(Ok(o))) => mutant_run_spec(s, o, r),
            (ReplayPhase::Final, ReplayEvent::Final(Ok(f))) => final_spec(c, s, f, r),
            (ReplayPhase::Inputs, ReplayEvent::Inputs(Err(x))) | (
                ReplayPhase::CollectBaseline,
                ReplayEvent::Collected(Err(x)),
            ) | (ReplayPhase::BaselineRun, ReplayEvent::Ran(Err(x))) | (
                ReplayPhase::BaselineTree,
                ReplayEvent::Tree(Err(x)),
            ) | (ReplayPhase::Applied, ReplayEvent::Applied(Err(x))) | (
                ReplayPhase::CollectMutant,
                ReplayEvent::Collected(Err(x)),
            ) | (ReplayPhase::MutantRun, ReplayEvent::Ran(Err(x))) | (ReplayPhase::Final, ReplayEvent::Final(Err(x))) =>
                halts(s, r) && halt_error(r) == x,
            _ => halts(s, r) && internal_error(halt_error(r), replay_unasked()),
        },
    }
}


fn check_files(f: &ReplayFiles, e: &MutationEntry) -> (r: Result<(), AdapterError>)
    ensures
        match file_fault(*f, *e) {
            None => r is Ok,
            Some(m) => r matches Err(x) && unit_error(x, m),
        },
{
    let t = sha256_bytes(f.target.as_slice());
    if !str_equal(t.as_str(), e.target_preimage_sha256.as_str()) {
        return Err(AdapterError::Unit("mutation target preimage digest does not match its registration".to_owned()));
    }
    let m = sha256_bytes(f.mutant.as_slice());
    if !str_equal(m.as_str(), e.mutant_sha256.as_str()) {
        return Err(AdapterError::Unit("mutant artifact digest does not match its registration".to_owned()));
    }
    let w = sha256_bytes(f.witness.as_slice());
    if !str_equal(w.as_str(), e.witness_sha256.as_str()) {
        return Err(AdapterError::Unit("mutation witness source digest does not match its registration".to_owned()));
    }
    if str_equal(t.as_str(), m.as_str()) {
        return Err(AdapterError::Unit("registered mutant is byte-identical to its target preimage".to_owned()));
    }
    Ok(())
}

fn same_files(a: &ReplayFiles, b: &ReplayFiles) -> (r: bool)
    ensures
        r == (files_view(*a) == files_view(*b)),
{
    bytes_equal(a.registry.as_slice(), b.registry.as_slice()) && bytes_equal(a.target.as_slice(), b.target.as_slice())
        && bytes_equal(a.mutant.as_slice(), b.mutant.as_slice()) && bytes_equal(
        a.witness.as_slice(),
        b.witness.as_slice(),
    )
}

proof fn lemma_listing_index_bounds(l: Seq<(Seq<char>, Option<Seq<u8>>)>, path: Seq<char>, from: int)
    requires
        0 <= from <= l.len(),
    ensures
        from <= listing_index(l, path, from) <= l.len(),
        listing_index(l, path, from) < l.len() ==> l[listing_index(l, path, from)].0 == path,
    decreases l.len() - from,
{
    if from < l.len() && l[from].0 != path {
        lemma_listing_index_bounds(l, path, from + 1);
    }
}

fn listing_index_of(l: &Vec<ListingEntry>, path: &str) -> (i: usize)
    ensures
        i as int == listing_index(listing_view(l@), path@, 0),
{
    let ghost v = listing_view(l@);
    let mut i: usize = 0;
    while i < l.len()
        invariant
            i <= v.len(),
            v == listing_view(l@),
            listing_index(v, path@, 0) == listing_index(v, path@, i as int),
        decreases v.len() - i,
    {
        proof {
            assert(v[i as int].0 == l@[i as int].0@);
        }
        if str_equal(l[i].0.as_str(), path) {
            return i;
        }
        i = i + 1;
    }
    i
}

fn check_mutant_tree(before: &Vec<ListingEntry>, after: &Vec<ListingEntry>, path: &str, post: &Vec<u8>) -> (r: Result<
    (),
    AdapterError,
>)
    ensures
        mutant_tree_outcome(listing_view(before@), listing_view(after@), path@, post@, r),
{
    let ghost b = listing_view(before@);
    let ghost a = listing_view(after@);
    let ghost want = b.update(listing_index(b, path@, 0), (path@, Some(post@)));
    let i = listing_index_of(before, path);
    proof {
        lemma_listing_index_bounds(b, path@, 0);
        if i < before@.len() {
            assert(b[i as int].1 is Some <==> before@[i as int].1 is Some);
        }
    }
    if i >= before.len() || before[i].1.is_none() {
        return Err(AdapterError::UnsafePath(path.to_owned()));
    }
    if after.len() != before.len() {
        proof {
            assert(a.len() != want.len());
        }
        return Err(
            AdapterError::ToolFailed("mutant replay changed a reviewed path other than its registered target".to_owned()),
        );
    }
    let mut k: usize = 0;
    while k < after.len()
        invariant
            k <= a.len(),
            a.len() == want.len(),
            a == listing_view(after@),
            b == listing_view(before@),
            i < b.len(),
            i as int == listing_index(b, path@, 0),
            b[i as int].1 is Some,
            want == b.update(i as int, (path@, Some(post@))),
            forall|j: int| 0 <= j < k ==> a[j] == want[j],
        decreases a.len() - k,
    {
        let same = if k == i {
            let name_ok = str_equal(after[k].0.as_str(), path);
            let bytes_ok = match &after[k].1 {
                Some(x) => bytes_equal(x.as_slice(), post.as_slice()),
                None => false,
            };
            name_ok && bytes_ok
        } else {
            crate::transcription_session::entry_equal(&after[k], &before[k])
        };
        if !same {
            proof {
                assert(a[k as int] != want[k as int]);
            }
            return Err(
                AdapterError::ToolFailed(
                    "mutant replay changed a reviewed path other than its registered target".to_owned(),
                ),
            );
        }
        k = k + 1;
    }
    proof {
        assert(a =~= want);
    }
    Ok(())
}

fn names_of(d: &Vec<CollectedTest>) -> (out: Vec<String>)
    ensures
        string_views(out@) == test_names(collected_views(d@)),
{
    let ghost all = test_names(collected_views(d@));
    let mut out: Vec<String> = Vec::new();
    let mut i: usize = 0;
    while i < d.len()
        invariant
            i <= d@.len(),
            all == test_names(collected_views(d@)),
            all.len() == d@.len(),
            string_views(out@) == all.take(i as int),
        decreases d@.len() - i,
    {
        let ghost before = string_views(out@);
        let n = d[i].0.clone();
        out.push(n);
        proof {
            assert(all[i as int] == d@[i as int].0@);
            assert(string_views(out@) =~= before.push(n@));
            assert(all.take(i + 1) =~= all.take(i as int).push(all[i as int]));
        }
        i = i + 1;
    }
    proof {
        assert(all.take(d@.len() as int) =~= all);
    }
    out
}

fn contains_name(v: &Vec<String>, x: &str) -> (b: bool)
    ensures
        b == string_views(v@).contains(x@),
{
    let ghost sv = string_views(v@);
    let mut i: usize = 0;
    while i < v.len()
        invariant
            i <= sv.len(),
            sv == string_views(v@),
            forall|j: int| 0 <= j < i ==> sv[j] != x@,
        decreases sv.len() - i,
    {
        if str_equal(v[i].as_str(), x) {
            proof {
                assert(sv[i as int] == x@);
            }
            return true;
        }
        i = i + 1;
    }
    false
}

fn same_name_sets(a: &Vec<String>, b: &Vec<String>) -> (r: bool)
    ensures
        r == same_names(string_views(a@), string_views(b@)),
{
    let ghost sa = string_views(a@);
    let ghost sb = string_views(b@);
    let mut i: usize = 0;
    while i < a.len()
        invariant
            i <= sa.len(),
            sa == string_views(a@),
            sb == string_views(b@),
            forall|j: int| 0 <= j < i ==> sb.contains(#[trigger] sa[j]),
        decreases sa.len() - i,
    {
        if !contains_name(b, a[i].as_str()) {
            proof {
                assert(sa.contains(sa[i as int]));
            }
            return false;
        }
        i = i + 1;
    }
    let mut k: usize = 0;
    while k < b.len()
        invariant
            k <= sb.len(),
            sa == string_views(a@),
            sb == string_views(b@),
            forall|j: int| 0 <= j < sa.len() ==> sb.contains(#[trigger] sa[j]),
            forall|j: int| 0 <= j < k ==> sa.contains(#[trigger] sb[j]),
        decreases sb.len() - k,
    {
        if !contains_name(a, b[k].as_str()) {
            proof {
                assert(sb.contains(sb[k as int]));
            }
            return false;
        }
        k = k + 1;
    }
    proof {
        assert forall|x: Seq<char>| sa.contains(x) <==> sb.contains(x) by {
            if sa.contains(x) {
                let j = choose|j: int| 0 <= j < sa.len() && sa[j] == x;
                assert(sb.contains(sa[j]));
            }
            if sb.contains(x) {
                let j = choose|j: int| 0 <= j < sb.len() && sb[j] == x;
                assert(sa.contains(sb[j]));
            }
        }
    }
    true
}

fn replay_halt(s: ReplayState, e: AdapterError) -> (r: (ReplayState, ReplayAction))
    ensures
        halts(s, r),
        halt_error(r) == e,
{
    let mut s = s;
    s.phase = ReplayPhase::Done;
    (s, ReplayAction::Respond(Err(e)))
}

fn replay_time_left(c: &MutationRun, elapsed: u64) -> (t: Option<u64>)
    ensures
        t == replay_left(*c, elapsed),
{
    if elapsed >= c.budget_ms {
        None
    } else {
        Some(c.budget_ms - elapsed)
    }
}

fn witness_op(c: &MutationRun) -> (b: bool)
    ensures
        b == runs_witness(*c),
{
    str_equal(c.operation.as_str(), "check") || str_equal(c.operation.as_str(), "reproduce")
}

fn witness_command(node: &(String, String), t: u64, mutant: bool) -> (a: ReplayAction)
    ensures
        runs_witness_node(a, (node.0@, node.1@), t, mutant),
{
    ReplayAction::Run {
        spec: ProcessSpec { program: node.0.clone(), args: exact_call(node.1.as_str()) },
        timeout_ms: t,
        mutant,
    }
}


fn replay_unasked_text() -> (m: String)
    ensures
        m@ == replay_unasked(),
{
    "mutation replay received an event it did not ask for".to_owned()
}

fn start_replay(c: &MutationRun, s: ReplayState) -> (r: (ReplayState, ReplayAction))
    ensures
        replay_start_spec(*c, s, r),
{
    if str_equal(c.operation.as_str(), "inventory") || witness_op(c) {
        let mut s = s;
        s.phase = ReplayPhase::Inputs;
        (s, ReplayAction::ReadInputs)
    } else {
        replay_halt(
            s,
            AdapterError::Request("mutation replay executes only for inventory, check, or reproduce".to_owned()),
        )
    }
}

fn inputs_step(c: &MutationRun, s: ReplayState, i: ReplayInputs) -> (r: (ReplayState, ReplayAction))
    ensures
        inputs_spec(*c, s, i, r),
{
    if let Err(x) = check_files(&i.original, &c.mutation) {
        return replay_halt(s, x);
    }
    if let Err(x) = check_files(&i.baseline, &c.mutation) {
        return replay_halt(s, x);
    }
    if let Err(x) = check_files(&i.mutant, &c.mutation) {
        return replay_halt(s, x);
    }
    if !same_files(&i.original, &i.baseline) || !same_files(&i.original, &i.mutant) {
        return replay_halt(
            s,
            AdapterError::ToolFailed("fresh mutation shadows do not byte-match the registered root inputs".to_owned()),
        );
    }
    if !same_listing(&i.baseline_tree, &i.mutant_tree) {
        return replay_halt(
            s,
            AdapterError::ToolFailed("fresh baseline and mutant shadows have different reviewed trees".to_owned()),
        );
    }
    let ReplayInputs { original, baseline: _, mutant: _, baseline_tree, mutant_tree: _ } = i;
    let mut s = s;
    s.phase = ReplayPhase::CollectBaseline;
    s.original = original;
    s.tree = baseline_tree;
    (s, ReplayAction::Collect { mutant: false })
}

fn baseline_collected_step(c: &MutationRun, elapsed: u64, s: ReplayState, d: Vec<CollectedTest>) -> (r: (
    ReplayState,
    ReplayAction,
))
    ensures
        baseline_collected_spec(*c, elapsed, s, d, r),
{
    let ghost found = collected_views(d@);
    let e = &c.mutation;
    let j = find_test(&d, e.witness.as_str());
    proof {
        lemma_test_index_bounds(found, e.witness@, 0);
    }
    if j >= d.len() {
        let mut m = crate::aeneas::framed("mutation `", e.id.as_str(), "` witness `");
        m.append(e.witness.as_str());
        m.append("` was not collected");
        return replay_halt(s, AdapterError::Inventory(m));
    }
    let node = (d[j].1.clone(), d[j].2.clone());
    proof {
        assert(found[j as int] == (d@[j as int].0@, d@[j as int].1@, d@[j as int].2@));
    }
    let inventory = names_of(&d);
    let mut s = s;
    s.inventory = inventory;
    s.witness = node;
    if witness_op(c) {
        match replay_time_left(c, elapsed) {
            None => replay_halt(s, AdapterError::Timeout(c.budget_ms)),
            Some(t) => {
                let a = witness_command(&s.witness, t, false);
                s.phase = ReplayPhase::BaselineRun;
                (s, a)
            },
        }
    } else {
        s.phase = ReplayPhase::BaselineTree;
        (s, ReplayAction::ListBaseline)
    }
}

fn baseline_run_step(s: ReplayState, o: ProcessOutput) -> (r: (ReplayState, ReplayAction))
    ensures
        baseline_run_spec(s, o, r),
{
    let spec = ProcessSpec { program: s.witness.0.clone(), args: exact_call(s.witness.1.as_str()) };
    if let Err(e) = ensure_success(&spec, &o) {
        return replay_halt(s, e);
    }
    if let Err(e) = ensure_one_rust_test_ran(s.witness.1.as_str(), &o) {
        return replay_halt(s, e);
    }
    let mut s = s;
    s.phase = ReplayPhase::BaselineTree;
    s.baseline_passed = true;
    (s, ReplayAction::ListBaseline)
}

fn baseline_tree_step(s: ReplayState, after: Vec<ListingEntry>) -> (r: (ReplayState, ReplayAction))
    ensures
        baseline_tree_spec(s, after, r),
{
    if !same_listing(&after, &s.tree) {
        return replay_halt(
            s,
            AdapterError::ToolFailed(
                "baseline mutation witness changed files outside its adapter-owned output directory".to_owned(),
            ),
        );
    }
    let mut s = s;
    s.phase = ReplayPhase::Applied;
    (s, ReplayAction::ApplyMutant)
}

fn applied_step(c: &MutationRun, s: ReplayState, post: Vec<u8>, tree: Vec<ListingEntry>) -> (r: (
    ReplayState,
    ReplayAction,
))
    ensures
        applied_spec(*c, s, post, tree, r),
{
    let e = &c.mutation;
    let digest = sha256_bytes(post.as_slice());
    if !str_equal(digest.as_str(), e.mutant_sha256.as_str()) || post.len() != s.original.mutant.len() {
        return replay_halt(
            s,
            AdapterError::Internal("mutated target postimage does not byte-match the registered mutant".to_owned()),
        );
    }
    if let Err(x) = check_mutant_tree(&s.tree, &tree, e.target_path.as_str(), &post) {
        return replay_halt(s, x);
    }
    let mut s = s;
    s.phase = ReplayPhase::CollectMutant;
    s.postimage = post;
    (s, ReplayAction::Collect { mutant: true })
}

fn mutant_collected_step(c: &MutationRun, elapsed: u64, s: ReplayState, d: Vec<CollectedTest>) -> (r: (
    ReplayState,
    ReplayAction,
))
    ensures
        mutant_collected_spec(*c, elapsed, s, d, r),
{
    let ghost found = collected_views(d@);
    let e = &c.mutation;
    let names = names_of(&d);
    if !same_name_sets(&names, &s.inventory) {
        return replay_halt(
            s,
            AdapterError::Inventory("mutant changed the exact collected Rust test inventory".to_owned()),
        );
    }
    let j = find_test(&d, e.witness.as_str());
    proof {
        lemma_test_index_bounds(found, e.witness@, 0);
    }
    if j >= d.len() {
        let m = crate::aeneas::framed("mutant omitted registered witness `", e.witness.as_str(), "`");
        return replay_halt(s, AdapterError::Inventory(m));
    }
    let node = (d[j].1.clone(), d[j].2.clone());
    proof {
        assert(found[j as int] == (d@[j as int].0@, d@[j as int].1@, d@[j as int].2@));
    }
    let mut s = s;
    s.witness = node;
    if witness_op(c) {
        match replay_time_left(c, elapsed) {
            None => replay_halt(s, AdapterError::Timeout(c.budget_ms)),
            Some(t) => {
                let a = witness_command(&s.witness, t, true);
                s.phase = ReplayPhase::MutantRun;
                (s, a)
            },
        }
    } else {
        s.phase = ReplayPhase::Final;
        (s, ReplayAction::ReadFinal)
    }
}

fn mutant_run_step(s: ReplayState, o: ProcessOutput) -> (r: (ReplayState, ReplayAction))
    ensures
        mutant_run_spec(s, o, r),
{
    match ensure_one_rust_test_failed(s.witness.1.as_str(), &o) {
        Err(e) => replay_halt(s, e),
        Ok(()) => {
            let mut s = s;
            s.phase = ReplayPhase::Final;
            s.mutant_failed = true;
            (s, ReplayAction::ReadFinal)
        },
    }
}

fn final_step(c: &MutationRun, s: ReplayState, f: ReplayFinal) -> (r: (ReplayState, ReplayAction))
    ensures
        final_spec(*c, s, f, r),
{
    let e = &c.mutation;
    if !bytes_equal(f.mutant.target.as_slice(), s.postimage.as_slice()) || !bytes_equal(
        f.mutant.registry.as_slice(),
        s.original.registry.as_slice(),
    ) || !bytes_equal(f.mutant.mutant.as_slice(), s.original.mutant.as_slice()) || !bytes_equal(
        f.mutant.witness.as_slice(),
        s.original.witness.as_slice(),
    ) {
        return replay_halt(
            s,
            AdapterError::ToolFailed("mutant execution changed its registered replay inputs or target postimage".to_owned()),
        );
    }
    if let Err(x) = check_mutant_tree(&s.tree, &f.tree, e.target_path.as_str(), &s.postimage) {
        return replay_halt(s, x);
    }
    if let Err(x) = check_files(&f.original, e) {
        return replay_halt(s, x);
    }
    if !same_files(&f.original, &s.original) {
        return replay_halt(
            s,
            AdapterError::ToolFailed("mutation replay changed a registered file in the reviewed root".to_owned()),
        );
    }
    let inventory = vec![e.id.clone()];
    proof {
        assert(string_views(inventory@) =~= seq![e.id@]);
    }
    let answer = ReplayAnswer {
        inventory,
        witness_replayed: witness_op(c),
        postimage_sha256: sha256_bytes(s.postimage.as_slice()),
    };
    let mut s = s;
    s.phase = ReplayPhase::Done;
    (s, ReplayAction::Respond(Ok(answer)))
}

/// Decides what a mutation replay does next: from where it stands and what
/// came of its last action (nothing, at the start), the next state and the
/// action for the caller to take in the reviewed root or one of the two
/// fresh shadows.
pub fn mutation_replay_step(c: &MutationRun, elapsed_ms: u64, s: ReplayState, event: Option<ReplayEvent>) -> (r: (
    ReplayState,
    ReplayAction,
))
    requires
        replay_wf(*c, s),
    ensures
        replay_step_spec(*c, elapsed_ms, s, event, r),
        replay_wf(*c, r.0),
{
    match event {
        None => {
            if s.phase == ReplayPhase::Start {
                start_replay(c, s)
            } else {
                replay_halt(s, AdapterError::Internal(replay_unasked_text()))
            }
        },
        Some(ev) => {
            let phase = s.phase;
            match (phase, ev) {
                (ReplayPhase::Inputs, ReplayEvent::Inputs(Ok(i))) => inputs_step(c, s, i),
                (ReplayPhase::CollectBaseline, ReplayEvent::Collected(Ok(d))) => baseline_collected_step(
                    c,
                    elapsed_ms,
                    s,
                    d,
                ),
                (ReplayPhase::BaselineRun, ReplayEvent::Ran(Ok(o))) => baseline_run_step(s, o),
                (ReplayPhase::BaselineTree, ReplayEvent::Tree(Ok(t))) => baseline_tree_step(s, t),
                (ReplayPhase::Applied, ReplayEvent::Applied(Ok(a))) => applied_step(c, s, a.0, a.1),
                (ReplayPhase::CollectMutant, ReplayEvent::Collected(Ok(d))) => mutant_collected_step(
                    c,
                    elapsed_ms,
                    s,
                    d,
                ),
                (ReplayPhase::MutantRun, ReplayEvent::Ran(Ok(o))) => mutant_run_step(s, o),
                (ReplayPhase::Final, ReplayEvent::Final(Ok(f))) => final_step(c, s, f),
                (ReplayPhase::Inputs, ReplayEvent::Inputs(Err(x)))
                | (ReplayPhase::CollectBaseline, ReplayEvent::Collected(Err(x)))
                | (ReplayPhase::BaselineRun, ReplayEvent::Ran(Err(x)))
                | (ReplayPhase::BaselineTree, ReplayEvent::Tree(Err(x)))
                | (ReplayPhase::Applied, ReplayEvent::Applied(Err(x)))
                | (ReplayPhase::CollectMutant, ReplayEvent::Collected(Err(x)))
                | (ReplayPhase::MutantRun, ReplayEvent::Ran(Err(x)))
                | (ReplayPhase::Final, ReplayEvent::Final(Err(x))) => replay_halt(s, x),
                _ => replay_halt(s, AdapterError::Internal(replay_unasked_text())),
            }
        },
    }
}


/// A `check` or `reproduce` replay answers with success only from its last
/// reading, after the witness passed alone in the baseline shadow and
/// failed alone in the mutant shadow; at that reading the mutant shadow
/// differs from the reviewed tree in its target alone, which holds the
/// postimage, and the reviewed root still holds the registered files. The
/// answer names the mutation alone.
pub proof fn lemma_replay_success_needs_pass_then_fail(
    c: MutationRun,
    elapsed: u64,
    s: ReplayState,
    event: Option<ReplayEvent>,
    r: (ReplayState, ReplayAction),
)
    requires
        replay_wf(c, s),
        replay_step_spec(c, elapsed, s, event, r),
        r.1 matches ReplayAction::Respond(Ok(_)),
        runs_witness(c),
    ensures
        s.phase == ReplayPhase::Final,
        s.baseline_passed,
        s.mutant_failed,
        event matches Some(ReplayEvent::Final(Ok(f))) && only_target_changed(
            listing_view(s.tree@),
            listing_view(f.tree@),
            c.mutation.target_path@,
            s.postimage@,
        ) && f.mutant.target@ == s.postimage@ && files_view(f.original) == files_view(s.original),
        r.1 matches ReplayAction::Respond(Ok(a)) && string_views(a.inventory@) == seq![c.mutation.id@]
            && a.witness_replayed,
{
}


/// The operations a replay executes for.
pub open spec fn replays_operation(op: Seq<char>) -> bool {
    op == "inventory"@ || op == "check"@ || op == "reproduce"@
}

/// How a replay begins: the operation must be one that replays, the unit
/// must name its registry, the registry must have been read, and it must
/// pass `check_mutation_registry`.
pub open spec fn begin_spec(
    operation: Seq<char>,
    unit: TestUnit,
    bytes: Result<Vec<u8>, AdapterError>,
    registry: Result<MutationRegistry, String>,
    named_targets: Seq<Seq<char>>,
    reserved: Seq<Seq<char>>,
    budget_ms: u64,
    r: Result<MutationRun, AdapterError>,
) -> bool {
    if !replays_operation(operation) {
        r matches Err(AdapterError::Request(m)) && m@ == "mutation replay executes only for inventory, check, or reproduce"@
    } else if unit.mutation is None {
        r matches Err(AdapterError::Unit(m)) && m@ == "mutation replay configuration is missing"@
    } else {
        let path = unit.mutation->0.registry@;
        match bytes {
            Err(x) => if !is_mutation_path(path, reserved) {
                r matches Err(AdapterError::UnsafePath(p)) && p@ == path
            } else if !is_toml_path(path) {
                r matches Err(AdapterError::Unit(m)) && m@ == "mutation registry must be a .toml file"@
            } else {
                r == Err::<MutationRun, AdapterError>(x)
            },
            Ok(b) => match registry_fault(path, b@, registry, unit, named_targets, reserved) {
                Some(f) => r matches Err(x) && is_unit_fault(x, f),
                None => registry is Ok && (r matches Ok(run) && run.operation@ == operation && run.budget_ms == budget_ms
                    && run.mutation == registry->Ok_0.mutation),
            },
        }
    }
}

/// Begins a mutation replay: checks the operation, the unit's registry
/// configuration, the registry's bytes as read (or why they could not be),
/// and the registry with its typed reading; then configures the replay.
pub fn begin_replay(
    operation: &str,
    unit: &TestUnit,
    bytes: Result<Vec<u8>, AdapterError>,
    registry: Result<MutationRegistry, String>,
    named_targets: &Vec<String>,
    reserved: &Vec<String>,
    budget_ms: u64,
) -> (r: Result<MutationRun, AdapterError>)
    ensures
        begin_spec(
            operation@,
            *unit,
            bytes,
            registry,
            string_views(named_targets@),
            string_views(reserved@),
            budget_ms,
            r,
        ),
{
    if !(str_equal(operation, "inventory") || str_equal(operation, "check") || str_equal(operation, "reproduce")) {
        return Err(
            AdapterError::Request("mutation replay executes only for inventory, check, or reproduce".to_owned()),
        );
    }
    let path = match &unit.mutation {
        None => {
            return Err(AdapterError::Unit("mutation replay configuration is missing".to_owned()));
        },
        Some(m) => m.registry.as_str(),
    };
    let b = match bytes {
        Err(x) => {
            validate_mutation_path(path, reserved)?;
            if !toml_path(path) {
                return Err(AdapterError::Unit("mutation registry must be a .toml file".to_owned()));
            }
            return Err(x);
        },
        Ok(b) => b,
    };
    check_mutation_registry(path, b.as_slice(), &registry, unit, named_targets, reserved)?;
    match registry {
        Ok(reg) => Ok(MutationRun { operation: operation.to_owned(), mutation: reg.mutation, budget_ms }),
        Err(m) => {
            proof {
                assert(false);
            }
            Err(AdapterError::Unit(m))
        },
    }
}

} // verus!
