//! The evidence units the test adapter serves: which route a unit takes,
//! and the rules its manifest must meet for tests, checkers, generators,
//! trusted transcription and mutation replay.
use vstd::prelude::*;
use crate::aeneas::framed;
use crate::audit::{EvaluationMode, ResourceBudget};
use crate::inventory::{has_duplicates, lists_equal, sort_chars, sorted_list, MAX_INVENTORY};
use crate::paths::{components, components_of, is_relative_path};
use crate::testing::{validate_relative_path, AdapterError, TestFlavor};
use crate::text::{chars_of, char_lists, ends_with, split, split_of, str_equal, string_views, views};

verus! {

/// The adapter an evidence unit names.
#[derive(Clone, Copy, Debug, PartialEq, Eq, Structural)]
pub enum AdapterKind {
    CharonAeneas,
    Kani,
    Lean,
    NodeTest,
    RustTest,
    PythonTest,
    CanonicalArtifact,
    IndependentCheck,
    TrustedTranscription,
}

/// The typed operation an evidence unit registers.
#[derive(Clone, Copy, Debug, PartialEq, Eq, Structural)]
pub enum OperationKind {
    ArtifactCheck,
    CargoTest,
    Generator,
    IndependentCheck,
    Kani,
    LeanAudit,
    NpmPackage,
    Pytest,
    Transcription,
    Translation,
    Tsc,
    Tsgo,
    Vitest,
}

/// The kind of evidence a unit claims to be.
#[derive(Clone, Copy, Debug, PartialEq, Eq, Structural)]
pub enum EvidenceKind {
    Theorem,
    ArtifactSoundness,
    TrustedTranscription,
    SourceRefinement,
    BoundedCheck,
    IndependentCheck,
    ExhaustiveCheck,
    PropertyTest,
    ExampleTest,
    MutationWitness,
    Review,
    Assumption,
    Open,
}

/// How an artifact is bound to its claim.
#[derive(Clone, Copy, Debug, PartialEq, Eq, Structural)]
pub enum BindingMode {
    DigestTheorem,
    ExternalRoundTrip,
}

/// The version of the trusted-transcription record.
#[derive(Clone, Copy, Debug, PartialEq, Eq, Structural)]
pub enum TrustedTranscriptionSchema {
    Version1,
}

/// The version of the transcription driver's calling convention.
#[derive(Clone, Copy, Debug, PartialEq, Eq, Structural)]
pub enum TranscriptionDriverAbi {
    Version1,
}

/// The version of the mutation-replay block.
#[derive(Clone, Copy, Debug, PartialEq, Eq, Structural)]
pub enum MutationReplaySchema {
    Version1,
}

/// The typed trusted-transcription block.
#[derive(Clone, Debug)]
pub struct TranscriptionConfig {
    pub schema: TrustedTranscriptionSchema,
    pub driver_abi: TranscriptionDriverAbi,
    pub source: String,
    pub committed_transcription: String,
    pub driver: String,
    pub source_format: String,
    pub transcribed_format: String,
}

/// The typed mutation-replay block.
#[derive(Clone, Debug)]
pub struct MutationConfig {
    pub schema: MutationReplaySchema,
    pub registry: String,
}

/// The operation of a test unit.
#[derive(Clone, Debug)]
pub struct TestOperation {
    pub kind: OperationKind,
    pub checker: Option<String>,
    pub arguments: Vec<String>,
    pub paths: Vec<String>,
    pub targets: Vec<String>,
    pub manifest: Option<String>,
    pub package: Option<String>,
    pub inventory: Option<String>,
}

/// An evidence unit as the test adapter reads it; `has_bounded_domain`
/// says whether the manifest carries a bounded domain.
#[derive(Clone, Debug)]
pub struct TestUnit {
    pub schema: String,
    pub id: String,
    pub adapter: AdapterKind,
    pub kind: EvidenceKind,
    pub operation: TestOperation,
    pub claims: Vec<String>,
    pub expected_inventory: Vec<String>,
    pub inputs: Vec<String>,
    pub outputs: Vec<String>,
    pub environment_allowlist: Vec<String>,
    pub resource_budget: ResourceBudget,
    pub evaluation_mode: Option<EvaluationMode>,
    pub binding_mode: Option<BindingMode>,
    pub theorem: Option<String>,
    pub refinement_theorem: Option<String>,
    pub premises: Vec<String>,
    pub assumptions: Vec<String>,
    pub has_bounded_domain: bool,
    pub transcription: Option<TranscriptionConfig>,
    pub mutation: Option<MutationConfig>,
}

/// A failure of a test unit, as plain values.
pub enum UnitFault {
    Unit(Seq<char>),
    Inventory(Seq<char>),
    UnsafePath(Seq<char>),
}

/// The error `e` is the fault `f`.
pub open spec fn is_unit_fault(e: AdapterError, f: UnitFault) -> bool {
    match f {
        UnitFault::Unit(m) => e matches AdapterError::Unit(x) && x@ == m,
        UnitFault::Inventory(m) => e matches AdapterError::Inventory(x) && x@ == m,
        UnitFault::UnsafePath(m) => e matches AdapterError::UnsafePath(x) && x@ == m,
    }
}

/// The spelling of an evidence kind.
pub open spec fn kind_name(kind: EvidenceKind) -> Seq<char> {
    match kind {
        EvidenceKind::Theorem => "theorem"@,
        EvidenceKind::ArtifactSoundness => "artifact-soundness"@,
        EvidenceKind::TrustedTranscription => "trusted-transcription"@,
        EvidenceKind::SourceRefinement => "source-refinement"@,
        EvidenceKind::BoundedCheck => "bounded-check"@,
        EvidenceKind::IndependentCheck => "independent-check"@,
        EvidenceKind::ExhaustiveCheck => "exhaustive-check"@,
        EvidenceKind::PropertyTest => "property-test"@,
        EvidenceKind::ExampleTest => "example-test"@,
        EvidenceKind::MutationWitness => "mutation-witness"@,
        EvidenceKind::Review => "review"@,
        EvidenceKind::Assumption => "assumption"@,
        EvidenceKind::Open => "open"@,
    }
}

/// The spelling of an evidence kind.
pub fn evidence_kind_name(kind: EvidenceKind) -> (s: &'static str)
    ensures
        s@ == kind_name(kind),
{
    match kind {
        EvidenceKind::Theorem => "theorem",
        EvidenceKind::ArtifactSoundness => "artifact-soundness",
        EvidenceKind::TrustedTranscription => "trusted-transcription",
        EvidenceKind::SourceRefinement => "source-refinement",
        EvidenceKind::BoundedCheck => "bounded-check",
        EvidenceKind::IndependentCheck => "independent-check",
        EvidenceKind::ExhaustiveCheck => "exhaustive-check",
        EvidenceKind::PropertyTest => "property-test",
        EvidenceKind::ExampleTest => "example-test",
        EvidenceKind::MutationWitness => "mutation-witness",
        EvidenceKind::Review => "review",
        EvidenceKind::Assumption => "assumption",
        EvidenceKind::Open => "open",
    }
}

/// The file name of a path: its last component.
pub open spec fn file_name(path: Seq<char>) -> Seq<char> {
    components(path).last()
}

/// A path whose file name ends in a `.py` extension.
pub open spec fn is_py_file(path: Seq<char>) -> bool {
    components(path).len() > 0 && file_name(path).len() > 3 && ends_with(file_name(path), ".py"@)
}

/// A path whose file name has an extension: a `.` after its first
/// character.
pub open spec fn has_extension(path: Seq<char>) -> bool {
    components(path).len() > 0 && exists|i: int| 0 < i < file_name(path).len() && #[trigger] file_name(path)[i] == '.'
}

/// A character a transcription path may not hold.
pub open spec fn is_glob_or_escape(c: char) -> bool {
    c == '\\' || c == '*' || c == '?' || c == '[' || c == ']' || c == '{' || c == '}'
}

/// A transcription path: a relative path of printable ASCII without
/// escapes or glob characters, whose `/`-separated segments are all
/// nonempty, not `.` or `..`, and not reserved.
pub open spec fn is_transcription_path(path: Seq<char>, reserved: Seq<Seq<char>>) -> bool {
    &&& is_relative_path(path)
    &&& forall|i: int| 0 <= i < path.len() ==> ' ' <= #[trigger] path[i] <= '~' && !is_glob_or_escape(path[i])
    &&& forall|k: int| 0 <= k < split(path, "/"@).len() ==> {
        let seg = #[trigger] split(path, "/"@)[k];
        seg.len() > 0 && seg != "."@ && seg != ".."@ && !reserved.contains(seg)
    }
}

/// Whether `path` names a `.py` file.
pub fn py_file(path: &str) -> (b: bool)
    ensures
        b == is_py_file(path@),
{
    let c = chars_of(path);
    let parts = components_of(c.as_slice());
    if parts.len() == 0 {
        return false;
    }
    let last = parts[parts.len() - 1].as_slice();
    proof {
        assert(views(parts@).last() == last@);
    }
    let suffix = chars_of(".py");
    proof {
        reveal_strlit(".py");
    }
    last.len() > 3 && crate::text::matches_at(last, suffix.as_slice(), last.len() - suffix.len())
}

/// Whether the file name of `path` has an extension.
pub fn extension_present(path: &str) -> (b: bool)
    ensures
        b == has_extension(path@),
{
    let c = chars_of(path);
    let parts = components_of(c.as_slice());
    if parts.len() == 0 {
        return false;
    }
    let last = parts[parts.len() - 1].as_slice();
    proof {
        assert(views(parts@).last() == last@);
    }
    let mut i: usize = 1;
    while i < last.len()
        invariant
            1 <= i <= last@.len() || last@.len() == 0,
            last@ == file_name(path@),
            components(path@).len() > 0,
            forall|j: int| 0 < j < i && j < last@.len() ==> last@[j] != '.',
        decreases last@.len() - i,
    {
        if last[i] == '.' {
            proof {
                assert(0 < i < file_name(path@).len());
                assert(file_name(path@)[i as int] == '.');
            }
            return true;
        }
        i = i + 1;
    }
    false
}

/// Whether `value` is one of `values`.
fn listed(values: &Vec<String>, value: &str) -> (b: bool)
    ensures
        b == string_views(values@).contains(value@),
{
    let mut i: usize = 0;
    while i < values.len()
        invariant
            i <= values@.len(),
            forall|j: int| 0 <= j < i ==> #[trigger] string_views(values@)[j] != value@,
        decreases values@.len() - i,
    {
        proof {
            assert(string_views(values@)[i as int] == values@[i as int]@);
        }
        if str_equal(values[i].as_str(), value) {
            return true;
        }
        i = i + 1;
    }
    false
}

/// Accepts a transcription path, or names it unsafe.
pub fn validate_transcription_path(path: &str, reserved: &Vec<String>) -> (r: Result<(), AdapterError>)
    ensures
        r is Ok <==> is_transcription_path(path@, string_views(reserved@)),
        r matches Err(e) ==> e matches AdapterError::UnsafePath(p) && p@ == path@,
{
    validate_relative_path(path)?;
    let c = chars_of(path);
    let mut i: usize = 0;
    while i < c.len()
        invariant
            c@ == path@,
            i <= c@.len(),
            forall|j: int| 0 <= j < i ==> ' ' <= #[trigger] c@[j] <= '~' && !is_glob_or_escape(c@[j]),
        decreases c@.len() - i,
    {
        let ch = c[i];
        if ch < ' ' || ch > '~' || ch == '\\' || ch == '*' || ch == '?' || ch == '[' || ch == ']' || ch == '{'
            || ch == '}' {
            return Err(AdapterError::UnsafePath(path.to_owned()));
        }
        i = i + 1;
    }
    let slash = chars_of("/");
    proof {
        reveal_strlit("/");
    }
    let segs = split_of(c.as_slice(), slash.as_slice());
    let dot = chars_of(".");
    let dots = chars_of("..");
    let names = char_lists(reserved);
    let mut k: usize = 0;
    while k < segs.len()
        invariant
            c@ == path@,
            slash@ == "/"@,
            dot@ == "."@,
            dots@ == ".."@,
            views(names@) == string_views(reserved@),
            views(segs@) == split(path@, "/"@),
            k <= segs@.len(),
            forall|j: int| 0 <= j < k ==> {
                let seg = #[trigger] split(path@, "/"@)[j];
                seg.len() > 0 && seg != "."@ && seg != ".."@ && !string_views(reserved@).contains(seg)
            },
        decreases segs@.len() - k,
    {
        let seg = segs[k].as_slice();
        proof {
            assert(views(segs@)[k as int] == seg@);
        }
        if seg.len() == 0 || crate::inventory::compare_chars(seg, dot.as_slice()) == 0
            || crate::inventory::compare_chars(seg, dots.as_slice()) == 0
            || crate::inventory::contains_chars(&names, seg) {
            return Err(AdapterError::UnsafePath(path.to_owned()));
        }
        k = k + 1;
    }
    Ok(())
}

/// Accepts a mutation-registry path: a transcription path whose file name
/// has an extension.
pub fn validate_mutation_path(path: &str, reserved: &Vec<String>) -> (r: Result<(), AdapterError>)
    ensures
        r is Ok <==> is_transcription_path(path@, string_views(reserved@)) && has_extension(path@),
        r matches Err(e) ==> e matches AdapterError::UnsafePath(p) && p@ == path@,
{
    validate_transcription_path(path, reserved)?;
    if !extension_present(path) {
        return Err(AdapterError::UnsafePath(path.to_owned()));
    }
    Ok(())
}

/// A route whose operation runs a checker script.
pub open spec fn is_checker_flavor(flavor: TestFlavor) -> bool {
    flavor == TestFlavor::CanonicalArtifact || flavor == TestFlavor::IndependentCheck || flavor
        == TestFlavor::Generator
}

/// Membership in `values`, as a rule.
pub open spec fn listed_in(values: Seq<Seq<char>>) -> spec_fn(Seq<char>) -> bool {
    |v: Seq<char>| values.contains(v)
}

/// The first of `outputs[..n]` that is not a relative path or not also an
/// input.
pub open spec fn output_fault(outputs: Seq<Seq<char>>, inputs: Seq<Seq<char>>, n: nat) -> Option<UnitFault>
    decreases n,
{
    if n == 0 || n > outputs.len() {
        None
    } else {
        match output_fault(outputs, inputs, (n - 1) as nat) {
            Some(f) => Some(f),
            None => {
                let o = outputs[n - 1];
                if !is_relative_path(o) {
                    Some(UnitFault::UnsafePath(o))
                } else if !inputs.contains(o) {
                    Some(
                        UnitFault::Unit(
                            "generator output `"@ + o
                                + "` must also be an input so verify-only cache keys bind its committed bytes"@,
                        ),
                    )
                } else {
                    None
                }
            },
        }
    }
}

proof fn lemma_output_fault_extends(outputs: Seq<Seq<char>>, inputs: Seq<Seq<char>>, m: nat, n: nat)
    requires
        m <= n <= outputs.len(),
        output_fault(outputs, inputs, m) is Some,
    ensures
        output_fault(outputs, inputs, n) == output_fault(outputs, inputs, m),
    decreases n - m,
{
    if m < n {
        lemma_output_fault_extends(outputs, inputs, m, (n - 1) as nat);
    }
}

/// The rules a generator's checker adds: outputs that are declared, are
/// not the checker, are inputs, equal the expected inventory, and no
/// configured arguments or paths.
pub open spec fn generator_fault(unit: TestUnit, checker: Seq<char>) -> Option<UnitFault> {
    let outputs = string_views(unit.outputs@);
    let inputs = string_views(unit.inputs@);
    if outputs.len() == 0 {
        Some(UnitFault::Unit("generator must declare at least one exact committed output"@))
    } else if outputs.contains(checker) {
        Some(UnitFault::Unit("generator checker must not also be a generated output"@))
    } else {
        match output_fault(outputs, inputs, outputs.len()) {
            Some(f) => Some(f),
            None => if sorted_list(string_views(unit.expected_inventory@)) != sorted_list(outputs) {
                Some(UnitFault::Inventory("generator expected_inventory must exactly equal its output allowlist"@))
            } else if unit.operation.arguments@.len() > 0 || unit.operation.paths@.len() > 0 {
                Some(
                    UnitFault::Unit(
                        "generator operations take no configured arguments or paths; the adapter owns the --update switch"@,
                    ),
                )
            } else {
                None
            },
        }
    }
}

/// The rules every checker route ends with: a nonempty expected
/// inventory, no other operation fields, and an evidence kind that agrees
/// with the route.
pub open spec fn checker_tail_fault(flavor: TestFlavor, unit: TestUnit) -> Option<UnitFault> {
    let op = unit.operation;
    if unit.expected_inventory@.len() == 0 {
        Some(UnitFault::Inventory("checker expected_inventory must be non-empty"@))
    } else if op.manifest is Some || op.package is Some || op.inventory is Some || op.targets@.len() > 0 {
        Some(UnitFault::Unit("checker operations accept only checker, arguments, and optional paths"@))
    } else if flavor == TestFlavor::CanonicalArtifact && unit.kind == EvidenceKind::ArtifactSoundness {
        match unit.theorem {
            Some(t) => if t@.len() == 0 {
                Some(UnitFault::Unit("canonical artifact unit must name the exact separately audited theorem"@))
            } else {
                None
            },
            None => Some(UnitFault::Unit("canonical artifact unit must name the exact separately audited theorem"@)),
        }
    } else if (flavor == TestFlavor::IndependentCheck && unit.kind == EvidenceKind::IndependentCheck) || (flavor
        == TestFlavor::Generator && unit.kind == EvidenceKind::ExampleTest) {
        None
    } else {
        Some(UnitFault::Unit("checker adapter and evidence kind do not agree"@))
    }
}

/// Why a unit's checker configuration does not fit its route.
pub open spec fn checker_fault(flavor: TestFlavor, unit: TestUnit) -> Option<UnitFault> {
    let op = unit.operation;
    let inputs = string_views(unit.inputs@);
    if !is_checker_flavor(flavor) {
        if op.checker is Some {
            Some(UnitFault::Unit("test operations may not configure a checker"@))
        } else {
            None
        }
    } else {
        match op.checker {
            None => Some(UnitFault::Unit("checker operation requires operation.checker"@)),
            Some(c) => if !is_relative_path(c@) {
                Some(UnitFault::UnsafePath(c@))
            } else if !is_py_file(c@) {
                Some(UnitFault::Unit("checker must be a repository-relative .py file"@))
            } else if !inputs.contains(c@) {
                Some(UnitFault::Unit("checker must be registered verbatim in inputs so its bytes are bound"@))
            } else if flavor == TestFlavor::Generator {
                match generator_fault(unit, c@) {
                    Some(f) => Some(f),
                    None => checker_tail_fault(flavor, unit),
                }
            } else {
                match crate::translation::any_bad(string_views(op.arguments@), listed_in(inputs)) {
                    Some(a) => Some(
                        UnitFault::Unit("checker argument `"@ + a + "` must be registered verbatim in inputs"@),
                    ),
                    None => checker_tail_fault(flavor, unit),
                }
            },
        }
    }
}

fn unit_error(message: &str) -> (e: AdapterError)
    ensures
        e matches AdapterError::Unit(m) && m@ == message@,
{
    AdapterError::Unit(message.to_owned())
}

fn inventory_error(message: &str) -> (e: AdapterError)
    ensures
        e matches AdapterError::Inventory(m) && m@ == message@,
{
    AdapterError::Inventory(message.to_owned())
}

#[verifier::loop_isolation(false)]
fn generator_checks(unit: &TestUnit, checker: &str) -> (r: Result<(), AdapterError>)
    ensures
        match generator_fault(*unit, checker@) {
            None => r is Ok,
            Some(f) => r matches Err(e) && is_unit_fault(e, f),
        },
{
    let outputs = &unit.outputs;
    let ghost ov = string_views(outputs@);
    let ghost iv = string_views(unit.inputs@);
    if outputs.len() == 0 {
        return Err(unit_error("generator must declare at least one exact committed output"));
    }
    if listed(outputs, checker) {
        return Err(unit_error("generator checker must not also be a generated output"));
    }
    let mut k: usize = 0;
    while k < outputs.len()
        invariant
            ov == string_views(outputs@),
            iv == string_views(unit.inputs@),
            k <= ov.len(),
            output_fault(ov, iv, k as nat) is None,
        decreases ov.len() - k,
    {
        let o = outputs[k].as_str();
        proof {
            assert(ov[k as int] == o@);
        }
        if let Err(e) = validate_relative_path(o) {
            proof {
                assert(output_fault(ov, iv, (k + 1) as nat) is Some);
                lemma_output_fault_extends(ov, iv, (k + 1) as nat, ov.len());
            }
            return Err(e);
        }
        if !listed(&unit.inputs, o) {
            proof {
                assert(output_fault(ov, iv, (k + 1) as nat) is Some);
                lemma_output_fault_extends(ov, iv, (k + 1) as nat, ov.len());
            }
            return Err(
                AdapterError::Unit(
                    framed(
                        "generator output `",
                        o,
                        "` must also be an input so verify-only cache keys bind its committed bytes",
                    ),
                ),
            );
        }
        k = k + 1;
    }
    let inventory = sort_chars(&char_lists(&unit.expected_inventory));
    let sorted_outputs = sort_chars(&char_lists(outputs));
    if !lists_equal(&inventory, &sorted_outputs) {
        return Err(inventory_error("generator expected_inventory must exactly equal its output allowlist"));
    }
    if unit.operation.arguments.len() > 0 || unit.operation.paths.len() > 0 {
        return Err(
            unit_error(
                "generator operations take no configured arguments or paths; the adapter owns the --update switch",
            ),
        );
    }
    Ok(())
}

fn checker_tail(flavor: TestFlavor, unit: &TestUnit) -> (r: Result<(), AdapterError>)
    ensures
        match checker_tail_fault(flavor, *unit) {
            None => r is Ok,
            Some(f) => r matches Err(e) && is_unit_fault(e, f),
        },
{
    let op = &unit.operation;
    if unit.expected_inventory.len() == 0 {
        return Err(inventory_error("checker expected_inventory must be non-empty"));
    }
    if op.manifest.is_some() || op.package.is_some() || op.inventory.is_some() || op.targets.len() > 0 {
        return Err(unit_error("checker operations accept only checker, arguments, and optional paths"));
    }
    if flavor == TestFlavor::CanonicalArtifact && unit.kind == EvidenceKind::ArtifactSoundness {
        let named = match &unit.theorem {
            Some(t) => t.as_str().unicode_len() > 0,
            None => false,
        };
        if !named {
            return Err(unit_error("canonical artifact unit must name the exact separately audited theorem"));
        }
        Ok(())
    } else if (flavor == TestFlavor::IndependentCheck && unit.kind == EvidenceKind::IndependentCheck) || (flavor
        == TestFlavor::Generator && unit.kind == EvidenceKind::ExampleTest) {
        Ok(())
    } else {
        Err(unit_error("checker adapter and evidence kind do not agree"))
    }
}

/// Checks a unit's checker configuration against its route.
#[verifier::loop_isolation(false)]
pub fn validate_checker_configuration(flavor: TestFlavor, unit: &TestUnit) -> (r: Result<(), AdapterError>)
    ensures
        match checker_fault(flavor, *unit) {
            None => r is Ok,
            Some(f) => r matches Err(e) && is_unit_fault(e, f),
        },
{
    let checker_route = flavor == TestFlavor::CanonicalArtifact || flavor == TestFlavor::IndependentCheck
        || flavor == TestFlavor::Generator;
    if !checker_route {
        if unit.operation.checker.is_some() {
            return Err(unit_error("test operations may not configure a checker"));
        }
        return Ok(());
    }
    let checker = match &unit.operation.checker {
        Some(c) => c.as_str(),
        None => {
            return Err(unit_error("checker operation requires operation.checker"));
        },
    };
    validate_relative_path(checker)?;
    if !py_file(checker) {
        return Err(unit_error("checker must be a repository-relative .py file"));
    }
    if !listed(&unit.inputs, checker) {
        return Err(unit_error("checker must be registered verbatim in inputs so its bytes are bound"));
    }
    if flavor == TestFlavor::Generator {
        generator_checks(unit, checker)?;
    } else {
        let args = &unit.operation.arguments;
        let ghost av = string_views(args@);
        let ghost ok = listed_in(string_views(unit.inputs@));
        let mut k: usize = 0;
        while k < args.len()
            invariant
                av == string_views(args@),
                ok == listed_in(string_views(unit.inputs@)),
                k <= av.len(),
                crate::translation::first_bad(av, k as nat, ok) is None,
            decreases av.len() - k,
        {
            let a = args[k].as_str();
            proof {
                assert(av[k as int] == a@);
            }
            if !listed(&unit.inputs, a) {
                proof {
                    assert(crate::translation::first_bad(av, (k + 1) as nat, ok) == Some(a@));
                    crate::translation::lemma_first_bad_extends(av, ok, (k + 1) as nat, av.len());
                }
                return Err(AdapterError::Unit(framed("checker argument `", a, "` must be registered verbatim in inputs")));
            }
            k = k + 1;
        }
    }
    checker_tail(flavor, unit)
}

/// The other fields a trusted-transcription unit leaves empty, the
/// external-round-trip binding it uses and its exact `PATH` allowlist.
pub open spec fn transcription_extras(unit: TestUnit) -> bool {
    let op = unit.operation;
    ||| unit.kind != EvidenceKind::TrustedTranscription
    ||| unit.binding_mode != Some(BindingMode::ExternalRoundTrip)
    ||| unit.evaluation_mode is Some
    ||| unit.theorem is Some
    ||| unit.refinement_theorem is Some
    ||| unit.premises@.len() > 0
    ||| unit.assumptions@.len() > 0
    ||| unit.has_bounded_domain
    ||| op.package is Some
    ||| op.manifest is Some
    ||| op.inventory is Some
    ||| op.checker is Some
    ||| op.targets@.len() > 0
    ||| op.paths@.len() > 0
    ||| op.arguments@.len() > 0
    ||| unit.outputs@.len() > 0
    ||| string_views(unit.environment_allowlist@) != seq!["PATH"@]
}

/// Why a unit's transcription block does not fit its route.
pub open spec fn transcription_fault(flavor: TestFlavor, unit: TestUnit, reserved: Seq<Seq<char>>) -> Option<
    UnitFault,
> {
    match unit.transcription {
        None => if flavor == TestFlavor::TrustedTranscription {
            Some(UnitFault::Unit("trusted-transcription requires the typed transcription block"@))
        } else {
            None
        },
        Some(c) => {
            let (s, t, d) = (c.source@, c.committed_transcription@, c.driver@);
            if flavor != TestFlavor::TrustedTranscription {
                Some(UnitFault::Unit("only trusted-transcription units may configure transcription"@))
            } else if c.schema != TrustedTranscriptionSchema::Version1 || c.driver_abi
                != TranscriptionDriverAbi::Version1 {
                Some(UnitFault::Unit("trusted transcription requires the version-1 typed record and driver ABI"@))
            } else if !is_transcription_path(s, reserved) {
                Some(UnitFault::UnsafePath(s))
            } else if !is_transcription_path(t, reserved) {
                Some(UnitFault::UnsafePath(t))
            } else if !is_transcription_path(d, reserved) {
                Some(UnitFault::UnsafePath(d))
            } else if s == t || s == d || t == d {
                Some(UnitFault::Unit("source, committed transcription, and driver must be distinct paths"@))
            } else if !is_py_file(d) {
                Some(UnitFault::Unit("trusted transcription driver must be a repository-relative .py file"@))
            } else if !crate::names::is_safe_format(c.source_format@) || !crate::names::is_safe_format(
                c.transcribed_format@,
            ) || c.source_format@ == c.transcribed_format@ {
                Some(UnitFault::Unit("transcription format names must be safe portable tokens"@))
            } else if string_views(unit.inputs@) != sorted_list(seq![s, t, d]) {
                Some(
                    UnitFault::Unit(
                        "trusted-transcription inputs must be the exact sorted source, committed transcription, and driver paths"@,
                    ),
                )
            } else if string_views(unit.expected_inventory@) != sorted_list(seq![s, t]) {
                Some(
                    UnitFault::Inventory(
                        "trusted-transcription expected_inventory must be the exact sorted source and committed transcription paths"@,
                    ),
                )
            } else if transcription_extras(unit) {
                Some(
                    UnitFault::Unit(
                        "trusted-transcription permits only its typed block, external-round-trip binding, the exact PATH allowlist, and an otherwise empty transcription operation"@,
                    ),
                )
            } else {
                None
            }
        },
    }
}

/// The characters of each of the given strings.
fn char_lists_of(items: Vec<&str>) -> (out: Vec<Vec<char>>)
    ensures
        out@.len() == items@.len(),
        forall|i: int| 0 <= i < items@.len() ==> #[trigger] out@[i]@ == items@[i]@,
{
    let mut out: Vec<Vec<char>> = Vec::new();
    let mut i: usize = 0;
    while i < items.len()
        invariant
            i <= items@.len(),
            out@.len() == i,
            forall|j: int| 0 <= j < i ==> #[trigger] out@[j]@ == items@[j]@,
        decreases items@.len() - i,
    {
        out.push(chars_of(items[i]));
        i = i + 1;
    }
    out
}

/// Whether `values` is exactly the sorted list of `items`.
fn equals_sorted(values: &Vec<String>, items: Vec<&str>, Ghost(spec_items): Ghost<Seq<Seq<char>>>) -> (b: bool)
    requires
        items@.len() == spec_items.len(),
        forall|i: int| 0 <= i < items@.len() ==> #[trigger] items@[i]@ == spec_items[i],
    ensures
        b == (string_views(values@) == sorted_list(spec_items)),
{
    let lists = char_lists_of(items);
    proof {
        assert(views(lists@) =~= spec_items);
    }
    let sorted = sort_chars(&lists);
    let given = char_lists(values);
    lists_equal(&given, &sorted)
}

fn transcription_extras_present(unit: &TestUnit) -> (b: bool)
    ensures
        b == transcription_extras(*unit),
{
    let op = &unit.operation;
    let round_trip = match unit.binding_mode {
        Some(BindingMode::ExternalRoundTrip) => true,
        _ => false,
    };
    let path_only = unit.environment_allowlist.len() == 1 && str_equal(unit.environment_allowlist[0].as_str(), "PATH");
    proof {
        if unit.environment_allowlist@.len() == 1 {
            assert(string_views(unit.environment_allowlist@) =~= seq![unit.environment_allowlist@[0]@]);
            assert(string_views(unit.environment_allowlist@)[0] == unit.environment_allowlist@[0]@);
            assert(seq!["PATH"@][0] == "PATH"@);
        }
        if string_views(unit.environment_allowlist@) == seq!["PATH"@] {
            assert(string_views(unit.environment_allowlist@).len() == 1);
        }
        assert(path_only == (string_views(unit.environment_allowlist@) == seq!["PATH"@]));
        assert(round_trip == (unit.binding_mode == Some(BindingMode::ExternalRoundTrip)));
    }
    unit.kind != EvidenceKind::TrustedTranscription || !round_trip || unit.evaluation_mode.is_some()
        || unit.theorem.is_some() || unit.refinement_theorem.is_some() || unit.premises.len() > 0
        || unit.assumptions.len() > 0 || unit.has_bounded_domain || op.package.is_some() || op.manifest.is_some()
        || op.inventory.is_some() || op.checker.is_some() || op.targets.len() > 0 || op.paths.len() > 0
        || op.arguments.len() > 0 || unit.outputs.len() > 0 || !path_only
}

/// Checks a unit's trusted-transcription block against its route.
pub fn validate_transcription_configuration(flavor: TestFlavor, unit: &TestUnit, reserved: &Vec<String>) -> (r:
    Result<(), AdapterError>)
    ensures
        match transcription_fault(flavor, *unit, string_views(reserved@)) {
            None => r is Ok,
            Some(f) => r matches Err(e) && is_unit_fault(e, f),
        },
{
    let c = match &unit.transcription {
        None => {
            if flavor == TestFlavor::TrustedTranscription {
                return Err(unit_error("trusted-transcription requires the typed transcription block"));
            }
            return Ok(());
        },
        Some(c) => c,
    };
    if flavor != TestFlavor::TrustedTranscription {
        return Err(unit_error("only trusted-transcription units may configure transcription"));
    }
    if c.schema != TrustedTranscriptionSchema::Version1 || c.driver_abi != TranscriptionDriverAbi::Version1 {
        return Err(unit_error("trusted transcription requires the version-1 typed record and driver ABI"));
    }
    let s = c.source.as_str();
    let t = c.committed_transcription.as_str();
    let d = c.driver.as_str();
    validate_transcription_path(s, reserved)?;
    validate_transcription_path(t, reserved)?;
    validate_transcription_path(d, reserved)?;
    if str_equal(s, t) || str_equal(s, d) || str_equal(t, d) {
        return Err(unit_error("source, committed transcription, and driver must be distinct paths"));
    }
    if !py_file(d) {
        return Err(unit_error("trusted transcription driver must be a repository-relative .py file"));
    }
    if !crate::names::safe_format(c.source_format.as_str()) || !crate::names::safe_format(
        c.transcribed_format.as_str(),
    ) || str_equal(c.source_format.as_str(), c.transcribed_format.as_str()) {
        return Err(unit_error("transcription format names must be safe portable tokens"));
    }
    let ghost all_three = seq![s@, t@, d@];
    let ghost both = seq![s@, t@];
    if !equals_sorted(&unit.inputs, vec![s, t, d], Ghost(all_three)) {
        return Err(
            unit_error(
                "trusted-transcription inputs must be the exact sorted source, committed transcription, and driver paths",
            ),
        );
    }
    if !equals_sorted(&unit.expected_inventory, vec![s, t], Ghost(both)) {
        return Err(
            inventory_error(
                "trusted-transcription expected_inventory must be the exact sorted source and committed transcription paths",
            ),
        );
    }
    if transcription_extras_present(unit) {
        return Err(
            unit_error(
                "trusted-transcription permits only its typed block, external-round-trip binding, the exact PATH allowlist, and an otherwise empty transcription operation",
            ),
        );
    }
    Ok(())
}

/// Why a unit's mutation-replay block does not fit its evidence kind.
pub open spec fn mutation_fault(unit: TestUnit, reserved: Seq<Seq<char>>) -> Option<UnitFault> {
    match unit.mutation {
        Some(c) => if unit.kind == EvidenceKind::MutationWitness && c.schema == MutationReplaySchema::Version1 {
            if is_transcription_path(c.registry@, reserved) && has_extension(c.registry@) {
                None
            } else {
                Some(UnitFault::UnsafePath(c.registry@))
            }
        } else {
            Some(UnitFault::Unit("only mutation-witness evidence may configure mutation replay"@))
        },
        None => if unit.kind == EvidenceKind::MutationWitness {
            Some(UnitFault::Unit("direct mutation evidence is unsupported; configure typed automatic replay"@))
        } else {
            None
        },
    }
}

/// Checks a unit's mutation-replay block against its evidence kind.
pub fn validate_mutation_configuration(unit: &TestUnit, reserved: &Vec<String>) -> (r: Result<(), AdapterError>)
    ensures
        match mutation_fault(*unit, string_views(reserved@)) {
            None => r is Ok,
            Some(f) => r matches Err(e) && is_unit_fault(e, f),
        },
{
    match &unit.mutation {
        Some(c) => {
            if unit.kind == EvidenceKind::MutationWitness && c.schema == MutationReplaySchema::Version1 {
                validate_mutation_path(c.registry.as_str(), reserved)
            } else {
                Err(unit_error("only mutation-witness evidence may configure mutation replay"))
            }
        },
        None => {
            if unit.kind == EvidenceKind::MutationWitness {
                Err(unit_error("direct mutation evidence is unsupported; configure typed automatic replay"))
            } else {
                Ok(())
            }
        },
    }
}

/// The route a request takes for a unit: the adapter it asks for, the
/// unit's adapter and its operation must agree.
pub open spec fn route_of(adapter: Seq<char>, unit_adapter: AdapterKind, operation: OperationKind) -> Option<
    TestFlavor,
> {
    if adapter == "rust-test"@ && unit_adapter == AdapterKind::RustTest && operation == OperationKind::CargoTest {
        Some(TestFlavor::Rust)
    } else if adapter == "python-test"@ && unit_adapter == AdapterKind::PythonTest && operation
        == OperationKind::Pytest {
        Some(TestFlavor::Python)
    } else if adapter == "python-test"@ && unit_adapter == AdapterKind::PythonTest && operation
        == OperationKind::Generator {
        Some(TestFlavor::Generator)
    } else if adapter == "canonical-artifact"@ && unit_adapter == AdapterKind::CanonicalArtifact && operation
        == OperationKind::ArtifactCheck {
        Some(TestFlavor::CanonicalArtifact)
    } else if adapter == "independent-check"@ && unit_adapter == AdapterKind::IndependentCheck && operation
        == OperationKind::IndependentCheck {
        Some(TestFlavor::IndependentCheck)
    } else if adapter == "trusted-transcription"@ && unit_adapter == AdapterKind::TrustedTranscription
        && operation == OperationKind::Transcription {
        Some(TestFlavor::TrustedTranscription)
    } else {
        None
    }
}

/// The manifest schema a unit on a route must carry.
pub open spec fn expected_schema(kind: EvidenceKind, flavor: TestFlavor) -> Seq<char> {
    if kind == EvidenceKind::MutationWitness {
        "proofbound-evidence-unit/3"@
    } else if flavor == TestFlavor::TrustedTranscription {
        "proofbound-evidence-unit/2"@
    } else {
        "proofbound-evidence-unit/1"@
    }
}

/// The evidence kinds each route may serve.
pub open spec fn kind_fits_route(flavor: TestFlavor, kind: EvidenceKind) -> bool {
    match flavor {
        TestFlavor::Rust => kind == EvidenceKind::ExampleTest || kind == EvidenceKind::PropertyTest || kind
            == EvidenceKind::MutationWitness,
        TestFlavor::Python => kind == EvidenceKind::ExampleTest || kind == EvidenceKind::PropertyTest,
        TestFlavor::Generator => kind == EvidenceKind::ExampleTest,
        TestFlavor::CanonicalArtifact => kind == EvidenceKind::ArtifactSoundness,
        TestFlavor::IndependentCheck => kind == EvidenceKind::IndependentCheck,
        TestFlavor::TrustedTranscription => kind == EvidenceKind::TrustedTranscription,
    }
}

/// A manifest list within the inventory bound and without repeats.
pub open spec fn unique_ok(values: Seq<Seq<char>>) -> bool {
    values.len() <= MAX_INVENTORY && !has_duplicates(values)
}

/// The first of the unit's lists that is too long or repeats a value.
pub open spec fn uniqueness_fault(unit: TestUnit) -> Option<UnitFault> {
    let dup = " is too large or contains duplicates"@;
    if !unique_ok(string_views(unit.claims@)) {
        Some(UnitFault::Unit("claims"@ + dup))
    } else if !unique_ok(string_views(unit.expected_inventory@)) {
        Some(UnitFault::Unit("expected_inventory"@ + dup))
    } else if !unique_ok(string_views(unit.operation.targets@)) {
        Some(UnitFault::Unit("targets"@ + dup))
    } else if !unique_ok(string_views(unit.operation.paths@)) {
        Some(UnitFault::Unit("paths"@ + dup))
    } else if !unique_ok(string_views(unit.inputs@)) {
        Some(UnitFault::Unit("inputs"@ + dup))
    } else if !unique_ok(string_views(unit.outputs@)) {
        Some(UnitFault::Unit("outputs"@ + dup))
    } else if !unique_ok(string_views(unit.environment_allowlist@)) {
        Some(UnitFault::Unit("environment_allowlist"@ + dup))
    } else {
        None
    }
}

/// Why the arguments of a unit may not be passed on.
pub open spec fn arguments_fault(flavor: TestFlavor, arguments: Seq<Seq<char>>) -> Option<UnitFault> {
    if arguments.len() > 4096 {
        Some(UnitFault::Unit("too many arguments"@))
    } else {
        match crate::testing::first_bad_argument(arguments, flavor, 0) {
            None => None,
            Some(k) => if crate::testing::dangerous_argument(arguments[k], flavor) {
                Some(
                    UnitFault::Unit(
                        "argument `"@ + arguments[k] + "` may escape or alter the adapter-controlled invocation"@,
                    ),
                )
            } else {
                Some(UnitFault::UnsafePath(arguments[k]))
            },
        }
    }
}

/// The first path of the operation, then of the inputs, that is not a
/// relative path of ordinary components.
pub open spec fn declared_path_fault(unit: TestUnit) -> Option<UnitFault> {
    let rel = crate::translation::rule_ok(crate::translation::NameRule::RelativePath);
    match crate::translation::any_bad(string_views(unit.operation.paths@), rel) {
        Some(p) => Some(UnitFault::UnsafePath(p)),
        None => match crate::translation::any_bad(string_views(unit.inputs@), rel) {
            Some(p) => Some(UnitFault::UnsafePath(p)),
            None => match unit.operation.manifest {
                Some(m) => if is_relative_path(m@) {
                    None
                } else {
                    Some(UnitFault::UnsafePath(m@))
                },
                None => None,
            },
        },
    }
}

/// What the test adapter makes of a unit on the route `adapter` asks for:
/// the route, or the first rule it breaks.
pub open spec fn unit_outcome(adapter: Seq<char>, unit: TestUnit, reserved: Seq<Seq<char>>) -> Result<
    TestFlavor,
    UnitFault,
> {
    match route_of(adapter, unit.adapter, unit.operation.kind) {
        None => Err(UnitFault::Unit("adapter and operation type do not agree"@)),
        Some(flavor) => if unit.schema@ != expected_schema(unit.kind, flavor) {
            Err(UnitFault::Unit("expected "@ + expected_schema(unit.kind, flavor)))
        } else if !kind_fits_route(flavor, unit.kind) {
            Err(UnitFault::Unit("adapter, typed operation, and evidence kind do not agree"@))
        } else if !crate::names::is_local_id(unit.id@) {
            Err(UnitFault::Unit("unit id must use the strict lowercase segmented grammar"@))
        } else if uniqueness_fault(unit) is Some {
            Err(uniqueness_fault(unit).unwrap())
        } else if unit.claims@.len() == 0 {
            Err(UnitFault::Unit("evidence unit must name at least one claim"@))
        } else if unit.expected_inventory@.len() == 0 || exists|i: int|
            0 <= i < unit.expected_inventory@.len() && !crate::names::is_inventory_item(
                #[trigger] unit.expected_inventory@[i]@,
            ) {
            Err(
                UnitFault::Inventory(
                    "expected_inventory must contain at least one trim-nonempty item of at most 4096 characters with no Unicode controls"@,
                ),
            )
        } else if unit.resource_budget.time_seconds == 0 || unit.resource_budget.disk_bytes == 0
            || unit.resource_budget.memory_bytes == 0 {
            Err(UnitFault::Unit("resource budgets must be non-zero"@))
        } else if flavor != TestFlavor::Generator && unit.outputs@.len() > 0 {
            Err(UnitFault::Unit("adapter units may not declare committed outputs"@))
        } else if declared_path_fault(unit) is Some {
            Err(declared_path_fault(unit).unwrap())
        } else if checker_fault(flavor, unit) is Some {
            Err(checker_fault(flavor, unit).unwrap())
        } else if transcription_fault(flavor, unit, reserved) is Some {
            Err(transcription_fault(flavor, unit, reserved).unwrap())
        } else if mutation_fault(unit, reserved) is Some {
            Err(mutation_fault(unit, reserved).unwrap())
        } else if arguments_fault(flavor, string_views(unit.operation.arguments@)) is Some {
            Err(arguments_fault(flavor, string_views(unit.operation.arguments@)).unwrap())
        } else {
            Ok(flavor)
        }
    }
}

fn route(adapter: &str, unit_adapter: AdapterKind, operation: OperationKind) -> (r: Option<TestFlavor>)
    ensures
        r == route_of(adapter@, unit_adapter, operation),
{
    if str_equal(adapter, "rust-test") && unit_adapter == AdapterKind::RustTest && operation
        == OperationKind::CargoTest {
        Some(TestFlavor::Rust)
    } else if str_equal(adapter, "python-test") && unit_adapter == AdapterKind::PythonTest && operation
        == OperationKind::Pytest {
        Some(TestFlavor::Python)
    } else if str_equal(adapter, "python-test") && unit_adapter == AdapterKind::PythonTest && operation
        == OperationKind::Generator {
        Some(TestFlavor::Generator)
    } else if str_equal(adapter, "canonical-artifact") && unit_adapter == AdapterKind::CanonicalArtifact
        && operation == OperationKind::ArtifactCheck {
        Some(TestFlavor::CanonicalArtifact)
    } else if str_equal(adapter, "independent-check") && unit_adapter == AdapterKind::IndependentCheck
        && operation == OperationKind::IndependentCheck {
        Some(TestFlavor::IndependentCheck)
    } else if str_equal(adapter, "trusted-transcription") && unit_adapter == AdapterKind::TrustedTranscription
        && operation == OperationKind::Transcription {
        Some(TestFlavor::TrustedTranscription)
    } else {
        None
    }
}

fn schema_for(kind: EvidenceKind, flavor: TestFlavor) -> (s: &'static str)
    ensures
        s@ == expected_schema(kind, flavor),
{
    if kind == EvidenceKind::MutationWitness {
        "proofbound-evidence-unit/3"
    } else if flavor == TestFlavor::TrustedTranscription {
        "proofbound-evidence-unit/2"
    } else {
        "proofbound-evidence-unit/1"
    }
}

fn fits_route(flavor: TestFlavor, kind: EvidenceKind) -> (b: bool)
    ensures
        b == kind_fits_route(flavor, kind),
{
    match flavor {
        TestFlavor::Rust => kind == EvidenceKind::ExampleTest || kind == EvidenceKind::PropertyTest || kind
            == EvidenceKind::MutationWitness,
        TestFlavor::Python => kind == EvidenceKind::ExampleTest || kind == EvidenceKind::PropertyTest,
        TestFlavor::Generator => kind == EvidenceKind::ExampleTest,
        TestFlavor::CanonicalArtifact => kind == EvidenceKind::ArtifactSoundness,
        TestFlavor::IndependentCheck => kind == EvidenceKind::IndependentCheck,
        TestFlavor::TrustedTranscription => kind == EvidenceKind::TrustedTranscription,
    }
}

fn check_uniqueness(unit: &TestUnit) -> (r: Result<(), AdapterError>)
    ensures
        match uniqueness_fault(*unit) {
            None => r is Ok,
            Some(f) => r matches Err(e) && is_unit_fault(e, f),
        },
{
    proof {
        reveal_strlit(" is too large or contains duplicates");
    }
    crate::testing::require_unique("claims", &unit.claims)?;
    crate::testing::require_unique("expected_inventory", &unit.expected_inventory)?;
    crate::testing::require_unique("targets", &unit.operation.targets)?;
    crate::testing::require_unique("paths", &unit.operation.paths)?;
    crate::testing::require_unique("inputs", &unit.inputs)?;
    crate::testing::require_unique("outputs", &unit.outputs)?;
    crate::testing::require_unique("environment_allowlist", &unit.environment_allowlist)?;
    Ok(())
}

fn check_declared_paths(unit: &TestUnit) -> (r: Result<(), AdapterError>)
    ensures
        match declared_path_fault(*unit) {
            None => r is Ok,
            Some(f) => r matches Err(e) && is_unit_fault(e, f),
        },
{
    if let Some(i) = crate::translation::find_bad(&unit.operation.paths, crate::translation::NameRule::RelativePath) {
        return Err(AdapterError::UnsafePath(unit.operation.paths[i].clone()));
    }
    if let Some(i) = crate::translation::find_bad(&unit.inputs, crate::translation::NameRule::RelativePath) {
        return Err(AdapterError::UnsafePath(unit.inputs[i].clone()));
    }
    if let Some(m) = &unit.operation.manifest {
        validate_relative_path(m.as_str())?;
    }
    Ok(())
}

fn check_inventory_items(items: &Vec<String>) -> (b: bool)
    ensures
        b == (items@.len() > 0 && forall|i: int| 0 <= i < items@.len() ==> crate::names::is_inventory_item(#[trigger] items@[i]@)),
{
    if items.len() == 0 {
        return false;
    }
    let mut i: usize = 0;
    while i < items.len()
        invariant
            i <= items@.len(),
            forall|j: int| 0 <= j < i ==> crate::names::is_inventory_item(#[trigger] items@[j]@),
        decreases items@.len() - i,
    {
        if !crate::names::valid_inventory_item(items[i].as_str()) {
            return false;
        }
        i = i + 1;
    }
    true
}

fn check_arguments(flavor: TestFlavor, arguments: &Vec<String>) -> (r: Result<(), AdapterError>)
    ensures
        match arguments_fault(flavor, string_views(arguments@)) {
            None => r is Ok,
            Some(f) => r matches Err(e) && is_unit_fault(e, f),
        },
{
    proof {
        if arguments@.len() <= 4096 {
            if let Some(k) = crate::testing::first_bad_argument(string_views(arguments@), flavor, 0) {
                crate::testing::lemma_first_bad_argument_in_range(string_views(arguments@), flavor, 0);
                assert(string_views(arguments@)[k] == arguments@[k]@);
            }
        }
    }
    crate::testing::validate_arguments(flavor, arguments)
}

/// Checks a unit against the route `adapter` asks for, with `reserved`
/// the path components that transcription and mutation paths may not use;
/// returns the route.
pub fn validate_unit(adapter: &str, unit: &TestUnit, reserved: &Vec<String>) -> (r: Result<TestFlavor, AdapterError>)
    ensures
        match unit_outcome(adapter@, *unit, string_views(reserved@)) {
            Ok(flavor) => r == Ok::<TestFlavor, AdapterError>(flavor),
            Err(f) => r matches Err(e) && is_unit_fault(e, f),
        },
{
    let flavor = match route(adapter, unit.adapter, unit.operation.kind) {
        Some(f) => f,
        None => {
            return Err(unit_error("adapter and operation type do not agree"));
        },
    };
    let schema = schema_for(unit.kind, flavor);
    if !str_equal(unit.schema.as_str(), schema) {
        return Err(AdapterError::Unit(crate::aeneas::prefixed("expected ", schema)));
    }
    if !fits_route(flavor, unit.kind) {
        return Err(unit_error("adapter, typed operation, and evidence kind do not agree"));
    }
    if !crate::names::valid_local_id(unit.id.as_str()) {
        return Err(unit_error("unit id must use the strict lowercase segmented grammar"));
    }
    check_uniqueness(unit)?;
    if unit.claims.len() == 0 {
        return Err(unit_error("evidence unit must name at least one claim"));
    }
    if !check_inventory_items(&unit.expected_inventory) {
        return Err(
            inventory_error(
                "expected_inventory must contain at least one trim-nonempty item of at most 4096 characters with no Unicode controls",
            ),
        );
    }
    if unit.resource_budget.time_seconds == 0 || unit.resource_budget.disk_bytes == 0
        || unit.resource_budget.memory_bytes == 0 {
        return Err(unit_error("resource budgets must be non-zero"));
    }
    if flavor != TestFlavor::Generator && unit.outputs.len() > 0 {
        return Err(unit_error("adapter units may not declare committed outputs"));
    }
    check_declared_paths(unit)?;
    validate_checker_configuration(flavor, unit)?;
    validate_transcription_configuration(flavor, unit, reserved)?;
    validate_mutation_configuration(unit, reserved)?;
    check_arguments(flavor, &unit.operation.arguments)?;
    Ok(flavor)
}

/// The single mutation a replay registry registers, with the registry's
/// own path.
#[derive(Clone, Debug)]
pub struct MutationRegistration {
    pub path: String,
    pub id: String,
    pub affected_claims: Vec<String>,
    pub target_path: String,
    pub mutant_path: String,
    pub witness_path: String,
}

/// Each value before the next in `seq_lt`.
pub open spec fn increasing(s: Seq<Seq<char>>) -> bool {
    forall|i: int| 0 <= i < s.len() - 1 ==> crate::inventory::seq_lt(#[trigger] s[i], s[i + 1])
}

/// A registration as plain values: registry path, id, affected claims,
/// target, mutant and witness paths.
pub type RegistrationView = (Seq<char>, Seq<char>, Seq<Seq<char>>, Seq<char>, Seq<char>, Seq<char>);

/// The plain values of a registration.
pub open spec fn registration_views(reg: MutationRegistration) -> RegistrationView {
    (reg.path@, reg.id@, string_views(reg.affected_claims@), reg.target_path@, reg.mutant_path@, reg.witness_path@)
}

/// A mutation-replay unit that is more, or other, than its registration:
/// another id, inventory or claims, claims out of order, named targets,
/// or any field a replay leaves empty.
pub open spec fn replay_mismatch_of(unit: TestUnit, reg: RegistrationView, named_targets: Seq<Seq<char>>) -> bool {
    let op = unit.operation;
    ||| unit.id@ != reg.1
    ||| string_views(unit.expected_inventory@) != seq![reg.1]
    ||| string_views(unit.claims@) != reg.2
    ||| !increasing(reg.2)
    ||| named_targets.len() > 0
    ||| op.targets@.len() > 0
    ||| op.paths@.len() > 0
    ||| op.inventory is Some
    ||| op.checker is Some
    ||| op.arguments@.len() > 0
    ||| unit.outputs@.len() > 0
    ||| unit.evaluation_mode is Some
    ||| unit.binding_mode is Some
    ||| unit.theorem is Some
    ||| unit.refinement_theorem is Some
    ||| unit.premises@.len() > 0
    ||| unit.assumptions@.len() > 0
    ||| unit.has_bounded_domain
    ||| unit.transcription is Some
}

/// A mutation-replay unit that is more, or other, than its registration.
pub open spec fn replay_mismatch(unit: TestUnit, reg: MutationRegistration, named_targets: Seq<Seq<char>>) -> bool {
    replay_mismatch_of(unit, registration_views(reg), named_targets)
}

/// Why a mutation-replay unit does not match a registration given by its
/// plain values.
pub open spec fn registration_fault_of(unit: TestUnit, reg: RegistrationView, named_targets: Seq<Seq<char>>) -> Option<
    UnitFault,
> {
    if replay_mismatch_of(unit, reg, named_targets) {
        Some(UnitFault::Unit("mutation replay unit does not exactly match its singleton registration"@))
    } else if string_views(unit.inputs@) != sorted_list(seq![reg.0, reg.3, reg.4, reg.5]) {
        Some(
            UnitFault::Unit(
                "mutation replay inputs must be the exact sorted registry, target, mutant, and witness paths"@,
            ),
        )
    } else {
        None
    }
}

/// Why a mutation-replay unit does not match its registration.
pub open spec fn mutation_unit_fault(unit: TestUnit, reg: MutationRegistration, named_targets: Seq<Seq<char>>) -> Option<
    UnitFault,
> {
    registration_fault_of(unit, registration_views(reg), named_targets)
}

fn increasing_names(values: &Vec<String>) -> (b: bool)
    ensures
        b == increasing(string_views(values@)),
{
    let ghost v = string_views(values@);
    if values.len() < 2 {
        return true;
    }
    let last: usize = values.len() - 1;
    let mut i: usize = 0;
    while i < last
        invariant
            v == string_views(values@),
            values@.len() >= 2,
            last == values@.len() - 1,
            i <= last,
            forall|j: int| 0 <= j < i ==> crate::inventory::seq_lt(#[trigger] v[j], v[j + 1]),
        decreases values@.len() - i,
    {
        let a = chars_of(values[i].as_str());
        let b = chars_of(values[i + 1].as_str());
        proof {
            assert(v[i as int] == a@);
            assert(v[i + 1] == b@);
        }
        if crate::inventory::compare_chars(a.as_slice(), b.as_slice()) != -1 {
            return false;
        }
        i = i + 1;
    }
    true
}

fn same_string_lists(a: &Vec<String>, b: &Vec<String>) -> (r: bool)
    ensures
        r == (string_views(a@) == string_views(b@)),
{
    let x = char_lists(a);
    let y = char_lists(b);
    lists_equal(&x, &y)
}

fn replay_mismatch_present(unit: &TestUnit, reg: &MutationRegistration, named_targets: &Vec<String>) -> (b: bool)
    ensures
        b == replay_mismatch(*unit, *reg, string_views(named_targets@)),
{
    let op = &unit.operation;
    let single = unit.expected_inventory.len() == 1 && str_equal(unit.expected_inventory[0].as_str(), reg.id.as_str());
    proof {
        let inv = string_views(unit.expected_inventory@);
        assert(seq![reg.id@][0] == reg.id@);
        if unit.expected_inventory@.len() == 1 {
            assert(inv =~= seq![unit.expected_inventory@[0]@]);
            assert(inv[0] == unit.expected_inventory@[0]@);
            if unit.expected_inventory@[0]@ == reg.id@ {
                assert(inv =~= seq![reg.id@]);
            }
        } else {
            assert(inv.len() != seq![reg.id@].len());
        }
        assert(single == (inv == seq![reg.id@]));
    }
    !str_equal(unit.id.as_str(), reg.id.as_str()) || !single || !same_string_lists(&unit.claims, &reg.affected_claims)
        || !increasing_names(&reg.affected_claims) || named_targets.len() > 0 || op.targets.len() > 0
        || op.paths.len() > 0 || op.inventory.is_some() || op.checker.is_some() || op.arguments.len() > 0
        || unit.outputs.len() > 0 || unit.evaluation_mode.is_some() || unit.binding_mode.is_some()
        || unit.theorem.is_some() || unit.refinement_theorem.is_some() || unit.premises.len() > 0
        || unit.assumptions.len() > 0 || unit.has_bounded_domain || unit.transcription.is_some()
}

/// Checks a mutation-replay unit against the registration it replays;
/// `named_targets` are the targets the request names.
pub fn validate_mutation_unit(unit: &TestUnit, registration: &MutationRegistration, named_targets: &Vec<String>) -> (r:
    Result<(), AdapterError>)
    ensures
        match mutation_unit_fault(*unit, *registration, string_views(named_targets@)) {
            None => r is Ok,
            Some(f) => r matches Err(e) && is_unit_fault(e, f),
        },
{
    if replay_mismatch_present(unit, registration, named_targets) {
        return Err(unit_error("mutation replay unit does not exactly match its singleton registration"));
    }
    let ghost four = seq![
        registration.path@,
        registration.target_path@,
        registration.mutant_path@,
        registration.witness_path@,
    ];
    let paths = vec![
        registration.path.as_str(),
        registration.target_path.as_str(),
        registration.mutant_path.as_str(),
        registration.witness_path.as_str(),
    ];
    if !equals_sorted(&unit.inputs, paths, Ghost(four)) {
        return Err(
            unit_error("mutation replay inputs must be the exact sorted registry, target, mutant, and witness paths"),
        );
    }
    Ok(())
}

/// Every route rejects a unit with an empty expected inventory, before any
/// tool runs.
pub proof fn lemma_empty_inventory_is_rejected(adapter: Seq<char>, unit: TestUnit, reserved: Seq<Seq<char>>)
    requires
        unit.expected_inventory@.len() == 0,
    ensures
        unit_outcome(adapter, unit, reserved) is Err,
{
}

/// No test route accepts exhaustive-check evidence, whatever the unit
/// claims about its adapter and operation.
pub proof fn lemma_exhaustive_checks_are_rejected(adapter: Seq<char>, unit: TestUnit, reserved: Seq<Seq<char>>)
    requires
        unit.kind == EvidenceKind::ExhaustiveCheck,
    ensures
        unit_outcome(adapter, unit, reserved) is Err,
{
}

/// A unit is accepted only on the route its adapter, operation and
/// evidence kind agree on, with the schema that route requires.
pub proof fn lemma_accepted_unit_fits_its_route(adapter: Seq<char>, unit: TestUnit, reserved: Seq<Seq<char>>)
    requires
        unit_outcome(adapter, unit, reserved) is Ok,
    ensures
        route_of(adapter, unit.adapter, unit.operation.kind) == Some(unit_outcome(adapter, unit, reserved)->Ok_0),
        kind_fits_route(unit_outcome(adapter, unit, reserved)->Ok_0, unit.kind),
        unit.schema@ == expected_schema(unit.kind, unit_outcome(adapter, unit, reserved)->Ok_0),
{
}

} // verus!
