use proofbound_adapter::audit::ResourceBudget;
use proofbound_adapter::test_unit::{
    evidence_kind_name, validate_checker_configuration, validate_mutation_path, validate_mutation_unit,
    validate_transcription_path, validate_unit, AdapterKind, BindingMode, EvidenceKind, MutationConfig,
    MutationRegistration, MutationReplaySchema, OperationKind, TestOperation, TestUnit, TranscriptionConfig,
    TranscriptionDriverAbi, TrustedTranscriptionSchema,
};
use proofbound_adapter::testing::{AdapterError, TestFlavor};

fn strings(values: &[&str]) -> Vec<String> {
    values.iter().map(|value| value.to_string()).collect()
}

/// The path components the manifest reserves for the tool's own state.
fn reserved() -> Vec<String> {
    strings(&[".proofbound", "target"])
}

fn operation(kind: OperationKind) -> TestOperation {
    TestOperation {
        kind,
        checker: None,
        arguments: Vec::new(),
        paths: Vec::new(),
        targets: Vec::new(),
        manifest: None,
        package: None,
        inventory: None,
    }
}

fn base_unit(schema: &str, id: &str, adapter: AdapterKind, kind: EvidenceKind, op: TestOperation) -> TestUnit {
    TestUnit {
        schema: schema.to_owned(),
        id: id.to_owned(),
        adapter,
        kind,
        operation: op,
        claims: strings(&["CLAIM-ONE"]),
        expected_inventory: Vec::new(),
        inputs: Vec::new(),
        outputs: Vec::new(),
        environment_allowlist: Vec::new(),
        resource_budget: ResourceBudget { time_seconds: 30, disk_bytes: 1048576, memory_bytes: 1048576 },
        evaluation_mode: None,
        binding_mode: None,
        theorem: None,
        refinement_theorem: None,
        premises: Vec::new(),
        assumptions: Vec::new(),
        has_bounded_domain: false,
        transcription: None,
        mutation: None,
    }
}

fn checker_unit(adapter: AdapterKind, kind: EvidenceKind, operation_kind: OperationKind) -> TestUnit {
    let mut op = operation(operation_kind);
    op.checker = Some("checker.py".to_owned());
    op.arguments = strings(&["artifact.bin"]);
    let mut unit = base_unit("proofbound-evidence-unit/1", "checker-unit", adapter, kind, op);
    unit.expected_inventory = strings(&["published-artifact"]);
    unit.inputs = strings(&["artifact.bin", "checker.py"]);
    if adapter == AdapterKind::CanonicalArtifact {
        unit.theorem = Some("Example.Claims.publishedMeaning".to_owned());
    }
    unit
}

fn independent() -> TestUnit {
    checker_unit(AdapterKind::IndependentCheck, EvidenceKind::IndependentCheck, OperationKind::IndependentCheck)
}

fn transcription_unit() -> TestUnit {
    let mut unit = base_unit(
        "proofbound-evidence-unit/2",
        "round-trip",
        AdapterKind::TrustedTranscription,
        EvidenceKind::TrustedTranscription,
        operation(OperationKind::Transcription),
    );
    unit.binding_mode = Some(BindingMode::ExternalRoundTrip);
    unit.expected_inventory = strings(&["committed.txt", "source.bin"]);
    unit.inputs = strings(&["committed.txt", "driver.py", "source.bin"]);
    unit.environment_allowlist = strings(&["PATH"]);
    unit.transcription = Some(TranscriptionConfig {
        schema: TrustedTranscriptionSchema::Version1,
        driver_abi: TranscriptionDriverAbi::Version1,
        source: "source.bin".to_owned(),
        committed_transcription: "committed.txt".to_owned(),
        driver: "driver.py".to_owned(),
        source_format: "subject-bytes/1".to_owned(),
        transcribed_format: "typed-literals/1".to_owned(),
    });
    unit.resource_budget = ResourceBudget { time_seconds: 30, disk_bytes: 16777216, memory_bytes: 16777216 };
    unit
}

fn generator_unit() -> TestUnit {
    let mut op = operation(OperationKind::Generator);
    op.checker = Some("generate.py".to_owned());
    let mut unit =
        base_unit("proofbound-evidence-unit/1", "fixture-generator", AdapterKind::PythonTest, EvidenceKind::ExampleTest, op);
    unit.expected_inventory = strings(&["fixtures/generated.bin"]);
    unit.inputs = strings(&["fixtures/generated.bin", "generate.py"]);
    unit.outputs = strings(&["fixtures/generated.bin"]);
    unit
}

fn mutation_unit() -> TestUnit {
    let mut op = operation(OperationKind::CargoTest);
    op.package = Some("mutation-fixture".to_owned());
    op.manifest = Some("Cargo.toml".to_owned());
    let mut unit =
        base_unit("proofbound-evidence-unit/3", "remove-guard", AdapterKind::RustTest, EvidenceKind::MutationWitness, op);
    unit.expected_inventory = strings(&["remove-guard"]);
    unit.inputs = strings(&[
        "mutations/mutants/remove-guard/lib.rs",
        "mutations/remove-guard.toml",
        "src/lib.rs",
        "tests/witness.rs",
    ]);
    unit.environment_allowlist = strings(&["CARGO_HOME", "PATH", "RUSTUP_HOME"]);
    unit.mutation = Some(MutationConfig {
        schema: MutationReplaySchema::Version1,
        registry: "mutations/remove-guard.toml".to_owned(),
    });
    unit
}

fn registration() -> MutationRegistration {
    MutationRegistration {
        path: "mutations/remove-guard.toml".to_owned(),
        id: "remove-guard".to_owned(),
        affected_claims: strings(&["CLAIM-ONE"]),
        target_path: "src/lib.rs".to_owned(),
        mutant_path: "mutations/mutants/remove-guard/lib.rs".to_owned(),
        witness_path: "tests/witness.rs".to_owned(),
    }
}

fn check(adapter: &str, unit: &TestUnit) -> Result<TestFlavor, AdapterError> {
    validate_unit(adapter, unit, &reserved())
}

fn unit_message(result: Result<TestFlavor, AdapterError>) -> String {
    match result {
        Err(AdapterError::Unit(message)) => message,
        other => panic!("expected a unit failure, got {other:?}"),
    }
}

#[test]
fn checker_units_require_typed_bound_configuration() {
    let canonical =
        checker_unit(AdapterKind::CanonicalArtifact, EvidenceKind::ArtifactSoundness, OperationKind::ArtifactCheck);
    assert_eq!(check("canonical-artifact", &canonical).unwrap(), TestFlavor::CanonicalArtifact);
    let independent = independent();
    assert_eq!(check("independent-check", &independent).unwrap(), TestFlavor::IndependentCheck);

    let mut no_inventory = independent.clone();
    no_inventory.expected_inventory.clear();
    assert!(matches!(check("independent-check", &no_inventory), Err(AdapterError::Inventory(_))));

    let mut unbound_checker = independent.clone();
    unbound_checker.inputs.retain(|input| input != "checker.py");
    assert!(check("independent-check", &unbound_checker).is_err());

    let mut unbound_argument = independent.clone();
    unbound_argument.inputs.retain(|input| input != "artifact.bin");
    assert!(check("independent-check", &unbound_argument).is_err());

    let mut wrong_extension = independent.clone();
    wrong_extension.operation.checker = Some("checker.sh".to_owned());
    wrong_extension.inputs[1] = "checker.sh".to_owned();
    assert!(check("independent-check", &wrong_extension).is_err());

    let mut output = independent.clone();
    output.outputs.push("committed.json".to_owned());
    assert!(check("independent-check", &output).is_err());
}

#[test]
fn every_route_rejects_empty_inventory_before_tool_execution() {
    let mut unit = independent();
    unit.expected_inventory.clear();
    assert!(matches!(check("independent-check", &unit), Err(AdapterError::Inventory(_))));
}

#[test]
fn inventory_preflight_uses_character_limits_and_rejects_unicode_controls() {
    let mut unit = independent();
    for invalid in ["   ".to_owned(), "registered\u{0085}item".to_owned(), "x".repeat(4097)] {
        unit.expected_inventory = vec![invalid];
        assert!(matches!(check("independent-check", &unit), Err(AdapterError::Inventory(_))));
    }
    unit.expected_inventory = vec!["é".repeat(4096)];
    assert!(check("independent-check", &unit).is_ok());
}

#[test]
fn test_runners_reject_exhaustive_kind_relabeling() {
    let mut rust = generator_unit();
    rust.adapter = AdapterKind::RustTest;
    rust.kind = EvidenceKind::ExhaustiveCheck;
    rust.operation.kind = OperationKind::CargoTest;
    assert!(check("rust-test", &rust).is_err());

    let mut python = generator_unit();
    python.kind = EvidenceKind::ExhaustiveCheck;
    python.operation.kind = OperationKind::Pytest;
    assert!(check("python-test", &python).is_err());
}

#[test]
fn trusted_transcription_requires_exact_typed_configuration() {
    let unit = transcription_unit();
    assert_eq!(check("trusted-transcription", &unit).unwrap(), TestFlavor::TrustedTranscription);

    let mut v1 = unit.clone();
    v1.schema = "proofbound-evidence-unit/1".to_owned();
    assert!(check("trusted-transcription", &v1).is_err());

    let mut strong_binding = unit.clone();
    strong_binding.binding_mode = Some(BindingMode::DigestTheorem);
    assert!(check("trusted-transcription", &strong_binding).is_err());

    let mut extra_input = unit.clone();
    extra_input.inputs.push("unreviewed.txt".to_owned());
    assert!(check("trusted-transcription", &extra_input).is_err());

    let mut empty_inventory = unit.clone();
    empty_inventory.expected_inventory.clear();
    assert!(matches!(check("trusted-transcription", &empty_inventory), Err(AdapterError::Inventory(_))));

    let mut escaped = unit.clone();
    escaped.transcription.as_mut().unwrap().source = "../source.bin".to_owned();
    assert!(matches!(check("trusted-transcription", &escaped), Err(AdapterError::UnsafePath(_))));
    for unsafe_path in ["a//source.bin", ".proofbound/source.bin", "glob/*.bin", "unicode/é.bin", "back\\slash.bin"] {
        let mut unsafe_unit = unit.clone();
        unsafe_unit.transcription.as_mut().unwrap().source = unsafe_path.to_owned();
        assert!(matches!(check("trusted-transcription", &unsafe_unit), Err(AdapterError::UnsafePath(_))));
    }

    let mut arbitrary_arguments = unit.clone();
    arbitrary_arguments.operation.arguments = vec!["--smuggle".to_owned()];
    assert!(check("trusted-transcription", &arbitrary_arguments).is_err());

    let mut no_path = unit.clone();
    no_path.environment_allowlist.clear();
    assert!(
        check("trusted-transcription", &no_path).is_err(),
        "the sealed adapter process must receive its exact PATH capability"
    );

    let mut extra_environment = unit.clone();
    extra_environment.environment_allowlist.push("HOME".to_owned());
    assert!(
        check("trusted-transcription", &extra_environment).is_err(),
        "transcription must not gain undeclared ambient environment"
    );
}

#[test]
fn mutation_replay_rejects_legacy_direct_units_and_unsafe_paths() {
    let mut unit = mutation_unit();
    unit.schema = "proofbound-evidence-unit/1".to_owned();
    unit.mutation = None;
    assert!(check("rust-test", &unit).is_err());
    for path in [
        "../src/lib.rs",
        "target/mutant.rs",
        ".proofbound/mutant.rs",
        "mutations//mutant.rs",
        "mutations/mutant",
        "mutations/é.rs",
    ] {
        assert!(validate_mutation_path(path, &reserved()).is_err(), "accepted {path:?}");
    }
}

#[test]
fn a_registered_mutation_unit_takes_the_rust_route() {
    assert_eq!(check("rust-test", &mutation_unit()).unwrap(), TestFlavor::Rust);
    let mut direct = mutation_unit();
    direct.mutation = None;
    assert_eq!(
        unit_message(check("rust-test", &direct)),
        "direct mutation evidence is unsupported; configure typed automatic replay"
    );
    let mut relabeled = mutation_unit();
    relabeled.kind = EvidenceKind::ExampleTest;
    relabeled.schema = "proofbound-evidence-unit/1".to_owned();
    assert_eq!(
        unit_message(check("rust-test", &relabeled)),
        "only mutation-witness evidence may configure mutation replay"
    );
    assert!(validate_mutation_path("mutations/remove-guard.toml", &reserved()).is_ok());
    assert!(validate_mutation_path("mutations/.hidden", &reserved()).is_err());
}

#[test]
fn routes_and_schemas_are_exact() {
    let unit = independent();
    assert_eq!(unit_message(check("rust-test", &unit)), "adapter and operation type do not agree");
    let mut old = transcription_unit();
    old.schema = "proofbound-evidence-unit/1".to_owned();
    assert_eq!(unit_message(check("trusted-transcription", &old)), "expected proofbound-evidence-unit/2");
    let mut bad_id = independent();
    bad_id.id = "Checker".to_owned();
    assert_eq!(
        unit_message(check("independent-check", &bad_id)),
        "unit id must use the strict lowercase segmented grammar"
    );
    let mut twice = independent();
    twice.claims = strings(&["CLAIM-ONE", "CLAIM-ONE"]);
    assert_eq!(unit_message(check("independent-check", &twice)), "claims is too large or contains duplicates");
    let mut no_claims = independent();
    no_claims.claims.clear();
    assert_eq!(unit_message(check("independent-check", &no_claims)), "evidence unit must name at least one claim");
    let mut no_time = independent();
    no_time.resource_budget.time_seconds = 0;
    assert_eq!(unit_message(check("independent-check", &no_time)), "resource budgets must be non-zero");
    let mut escaping = independent();
    escaping.inputs.push("../outside".to_owned());
    assert_eq!(check("independent-check", &escaping), Err(AdapterError::UnsafePath("../outside".to_owned())));
}

#[test]
fn checker_rules_name_each_failure() {
    let unit = independent();
    let mut unlisted = unit.clone();
    unlisted.operation.arguments = strings(&["other.bin"]);
    unlisted.inputs = strings(&["artifact.bin", "checker.py", "other.txt"]);
    assert_eq!(
        validate_checker_configuration(TestFlavor::IndependentCheck, &unlisted),
        Err(AdapterError::Unit("checker argument `other.bin` must be registered verbatim in inputs".to_owned()))
    );
    assert_eq!(
        validate_checker_configuration(TestFlavor::Rust, &unit),
        Err(AdapterError::Unit("test operations may not configure a checker".to_owned()))
    );
    let mut mismatched = unit.clone();
    mismatched.kind = EvidenceKind::ExampleTest;
    assert_eq!(
        validate_checker_configuration(TestFlavor::IndependentCheck, &mismatched),
        Err(AdapterError::Unit("checker adapter and evidence kind do not agree".to_owned()))
    );
    let mut no_theorem =
        checker_unit(AdapterKind::CanonicalArtifact, EvidenceKind::ArtifactSoundness, OperationKind::ArtifactCheck);
    no_theorem.theorem = Some(String::new());
    assert_eq!(
        validate_checker_configuration(TestFlavor::CanonicalArtifact, &no_theorem),
        Err(AdapterError::Unit("canonical artifact unit must name the exact separately audited theorem".to_owned()))
    );
}

#[test]
fn generators_bind_exact_outputs() {
    assert_eq!(check("python-test", &generator_unit()).unwrap(), TestFlavor::Generator);
    let mut unbound = generator_unit();
    unbound.outputs = strings(&["fixtures/other.bin"]);
    unbound.expected_inventory = strings(&["fixtures/other.bin"]);
    assert_eq!(
        validate_checker_configuration(TestFlavor::Generator, &unbound),
        Err(AdapterError::Unit(
            "generator output `fixtures/other.bin` must also be an input so verify-only cache keys bind its committed bytes"
                .to_owned()
        ))
    );
    let mut drift = generator_unit();
    drift.expected_inventory = strings(&["fixtures/elsewhere.bin"]);
    assert_eq!(
        validate_checker_configuration(TestFlavor::Generator, &drift),
        Err(AdapterError::Inventory("generator expected_inventory must exactly equal its output allowlist".to_owned()))
    );
    let mut switched = generator_unit();
    switched.operation.arguments = strings(&["--update"]);
    assert!(validate_checker_configuration(TestFlavor::Generator, &switched).is_err());
    let mut self_output = generator_unit();
    self_output.outputs.push("generate.py".to_owned());
    assert_eq!(
        validate_checker_configuration(TestFlavor::Generator, &self_output),
        Err(AdapterError::Unit("generator checker must not also be a generated output".to_owned()))
    );
}

#[test]
fn mutation_units_match_their_registration() {
    let unit = mutation_unit();
    let mut unit_for_replay = unit.clone();
    unit_for_replay.operation.package = None;
    assert!(validate_mutation_unit(&unit, &registration(), &Vec::new()).is_ok());
    assert!(validate_mutation_unit(&unit_for_replay, &registration(), &Vec::new()).is_ok());
    assert_eq!(
        validate_mutation_unit(&unit, &registration(), &strings(&["named"])),
        Err(AdapterError::Unit("mutation replay unit does not exactly match its singleton registration".to_owned()))
    );
    let mut unsorted = registration();
    unsorted.affected_claims = strings(&["CLAIM-TWO", "CLAIM-ONE"]);
    let mut claims = unit.clone();
    claims.claims = strings(&["CLAIM-TWO", "CLAIM-ONE"]);
    assert!(validate_mutation_unit(&claims, &unsorted, &Vec::new()).is_err());
    let mut moved = registration();
    moved.witness_path = "tests/other.rs".to_owned();
    assert_eq!(
        validate_mutation_unit(&unit, &moved, &Vec::new()),
        Err(AdapterError::Unit(
            "mutation replay inputs must be the exact sorted registry, target, mutant, and witness paths".to_owned()
        ))
    );
}

#[test]
fn transcription_paths_are_plain_and_unreserved() {
    assert!(validate_transcription_path("data/source.bin", &reserved()).is_ok());
    for path in ["data/", "data/./x", "tab\there", "target", "x/{a}"] {
        assert_eq!(
            validate_transcription_path(path, &reserved()),
            Err(AdapterError::UnsafePath(path.to_owned())),
            "accepted {path:?}"
        );
    }
}

#[test]
fn evidence_kinds_have_their_manifest_spelling() {
    assert_eq!(evidence_kind_name(EvidenceKind::ArtifactSoundness), "artifact-soundness");
    assert_eq!(evidence_kind_name(EvidenceKind::MutationWitness), "mutation-witness");
    assert_eq!(evidence_kind_name(EvidenceKind::Open), "open");
}
