use proofbound_adapter::audit::ResourceBudget;
use proofbound_adapter::digest::sha256_bytes;
use proofbound_adapter::mutation::{
    begin_replay, check_mutation_registry, mutation_replay_step, MutationEntry, MutationRegistry, MutationRun,
    ReplayAction, ReplayEvent, ReplayFiles, ReplayFinal, ReplayInputs, ReplayPhase, ReplayState,
};
use proofbound_adapter::process::ProcessOutput;
use proofbound_adapter::test_unit::{
    AdapterKind, EvidenceKind, MutationConfig, MutationReplaySchema, OperationKind, TestOperation, TestUnit,
};
use proofbound_adapter::testing::AdapterError;

const TARGET: &[u8] = b"pub fn guarded(value: bool) -> bool {\n    if !value { return false; }\n    true\n}\n";
const MUTANT: &[u8] = b"pub fn guarded(_value: bool) -> bool {\n    true\n}\n";
const WITNESS: &[u8] = b"use mutation_fixture::guarded;\n\n#[test]\nfn guard_is_enforced() { assert!(!guarded(false)); }\n";
const REGISTRY_PATH: &str = "mutations/remove-guard.toml";

fn strings(values: &[&str]) -> Vec<String> {
    values.iter().map(|value| value.to_string()).collect()
}

fn reserved() -> Vec<String> {
    strings(&[".proofbound", "target"])
}

fn registry_text() -> String {
    format!(
        "schema = \"proofbound-mutation-registry/2\"\nsubject = \"rust:mutation-fixture::guarded\"\n\n[mutation]\nid = \"remove-guard\"\nguard = \"false values must be rejected\"\ntarget_path = \"src/lib.rs\"\ntarget_preimage_sha256 = \"{}\"\nmutant_path = \"mutations/mutants/remove-guard/lib.rs\"\nmutant_sha256 = \"{}\"\nwitness = \"witness::guard_is_enforced\"\nwitness_path = \"tests/witness.rs\"\nwitness_sha256 = \"{}\"\naffected_claims = [\"CLAIM-ONE\"]\n",
        sha256_bytes(TARGET),
        sha256_bytes(MUTANT),
        sha256_bytes(WITNESS),
    )
}

fn field(table: &toml::Value, key: &str) -> String {
    table.get(key).and_then(toml::Value::as_str).unwrap().to_owned()
}

/// The typed registry of a TOML document, built field by field.
fn typed(text: &str) -> MutationRegistry {
    let value: toml::Value = toml::from_str(text).unwrap();
    let m = value.get("mutation").unwrap();
    MutationRegistry {
        schema: field(&value, "schema"),
        subject: field(&value, "subject"),
        mutation: MutationEntry {
            id: field(m, "id"),
            guard: field(m, "guard"),
            target_path: field(m, "target_path"),
            target_preimage_sha256: field(m, "target_preimage_sha256"),
            mutant_path: field(m, "mutant_path"),
            mutant_sha256: field(m, "mutant_sha256"),
            witness: field(m, "witness"),
            witness_path: field(m, "witness_path"),
            witness_sha256: field(m, "witness_sha256"),
            affected_claims: m
                .get("affected_claims")
                .and_then(toml::Value::as_array)
                .unwrap()
                .iter()
                .map(|v| v.as_str().unwrap().to_owned())
                .collect(),
        },
    }
}

fn unit() -> TestUnit {
    TestUnit {
        schema: "proofbound-evidence-unit/3".to_owned(),
        id: "remove-guard".to_owned(),
        adapter: AdapterKind::RustTest,
        kind: EvidenceKind::MutationWitness,
        operation: TestOperation {
            kind: OperationKind::CargoTest,
            checker: None,
            arguments: Vec::new(),
            paths: Vec::new(),
            targets: Vec::new(),
            manifest: Some("Cargo.toml".to_owned()),
            package: Some("mutation-fixture".to_owned()),
            inventory: None,
        },
        claims: strings(&["CLAIM-ONE"]),
        expected_inventory: strings(&["remove-guard"]),
        inputs: strings(&[
            "mutations/mutants/remove-guard/lib.rs",
            "mutations/remove-guard.toml",
            "src/lib.rs",
            "tests/witness.rs",
        ]),
        outputs: Vec::new(),
        environment_allowlist: strings(&["CARGO_HOME", "PATH", "RUSTUP_HOME"]),
        resource_budget: ResourceBudget { time_seconds: 60, disk_bytes: 536870912, memory_bytes: 1073741824 },
        evaluation_mode: None,
        binding_mode: None,
        theorem: None,
        refinement_theorem: None,
        premises: Vec::new(),
        assumptions: Vec::new(),
        has_bounded_domain: false,
        transcription: None,
        mutation: Some(MutationConfig {
            schema: MutationReplaySchema::Version1,
            registry: REGISTRY_PATH.to_owned(),
        }),
    }
}

fn check_text(path: &str, text: &str, registry: Result<MutationRegistry, String>) -> Result<(), AdapterError> {
    check_mutation_registry(path, text.as_bytes(), &registry, &unit(), &Vec::new(), &reserved())
}

fn unit_message(result: Result<(), AdapterError>) -> String {
    match result {
        Err(AdapterError::Unit(m)) => m,
        other => panic!("expected a unit failure, got {other:?}"),
    }
}

#[test]
fn mutation_registry_is_strict_and_binds_witnesses() {
    let text = r#"
schema = "proofbound-mutation-registry/2"
subject = "rust:crate::f"
[mutation]
id = "remove-guard"
guard = "guard"
target_path = "src/lib.rs"
target_preimage_sha256 = "sha256:aaaaaaaaaaaaaaaaaaaaaaaaaaaaaaaaaaaaaaaaaaaaaaaaaaaaaaaaaaaaaaaa"
mutant_path = "mutants/lib.rs"
mutant_sha256 = "sha256:bbbbbbbbbbbbbbbbbbbbbbbbbbbbbbbbbbbbbbbbbbbbbbbbbbbbbbbbbbbbbbbb"
witness = "crate::tests::detects_guard"
witness_path = "tests/guard.rs"
witness_sha256 = "sha256:cccccccccccccccccccccccccccccccccccccccccccccccccccccccccccccccc"
affected_claims = ["CLAIM-ONE"]
"#;
    let registry = typed(text);
    assert_eq!(registry.mutation.witness, "crate::tests::detects_guard");
    let refused = check_text(REGISTRY_PATH, text, Err("unknown field `extra`".to_owned()));
    assert_eq!(unit_message(refused), "unknown field `extra`");
}

#[test]
fn a_registry_that_matches_its_unit_is_accepted() {
    let text = registry_text();
    assert!(check_text(REGISTRY_PATH, &text, Ok(typed(&text))).is_ok());
}

#[test]
fn registries_are_refused_with_the_reason() {
    let text = registry_text();
    assert_eq!(
        unit_message(check_text("mutations/remove-guard.json", &text, Ok(typed(&text)))),
        "mutation registry must be a .toml file"
    );
    assert!(matches!(
        check_text("../remove-guard.toml", &text, Ok(typed(&text))),
        Err(AdapterError::UnsafePath(p)) if p == "../remove-guard.toml"
    ));
    let legacy = text.replace("proofbound-mutation-registry/2", "proofbound-mutation-registry/1");
    assert_eq!(
        unit_message(check_text(REGISTRY_PATH, &legacy, Ok(typed(&legacy)))),
        "direct/manual mutation evidence is unsupported; use proofbound-mutation-registry/2 replay"
    );
    assert!(unit_message(check_text(REGISTRY_PATH, "schema = [", Err("x".to_owned())))
        .starts_with("invalid mutation registry: "));
    let bad_digest = text.replace(&sha256_bytes(WITNESS), "sha256:zz");
    assert_eq!(
        unit_message(check_text(REGISTRY_PATH, &bad_digest, Ok(typed(&bad_digest)))),
        "invalid mutation replay entry `remove-guard`"
    );
    let same_paths = text.replace("tests/witness.rs", "src/lib.rs");
    assert_eq!(
        unit_message(check_text(REGISTRY_PATH, &same_paths, Ok(typed(&same_paths)))),
        "mutation registry, target, mutant, and witness paths must be distinct"
    );
    let not_utf8 = check_mutation_registry(
        REGISTRY_PATH,
        &[0xff, 0xfe],
        &Err("x".to_owned()),
        &unit(),
        &Vec::new(),
        &reserved(),
    );
    assert!(unit_message(not_utf8).starts_with("mutation registry is not UTF-8: "));
}

#[test]
fn a_replay_begins_only_for_replaying_operations_with_a_registry() {
    let text = registry_text();
    let begin = |op: &str, unit: &TestUnit, bytes: Result<Vec<u8>, AdapterError>| {
        begin_replay(op, unit, bytes, Ok(typed(&text)), &Vec::new(), &reserved(), 60_000)
    };
    assert!(matches!(
        begin("update", &unit(), Ok(text.as_bytes().to_vec())),
        Err(AdapterError::Request(m)) if m == "mutation replay executes only for inventory, check, or reproduce"
    ));
    let mut bare = unit();
    bare.mutation = None;
    assert!(matches!(
        begin("check", &bare, Ok(text.as_bytes().to_vec())),
        Err(AdapterError::Unit(m)) if m == "mutation replay configuration is missing"
    ));
    assert!(matches!(
        begin("check", &unit(), Err(AdapterError::Io("gone".to_owned()))),
        Err(AdapterError::Io(m)) if m == "gone"
    ));
    let run = begin("check", &unit(), Ok(text.as_bytes().to_vec())).unwrap();
    assert_eq!(run.mutation.id, "remove-guard");
    assert_eq!(run.budget_ms, 60_000);
}

fn run(operation: &str) -> MutationRun {
    MutationRun { operation: operation.to_owned(), mutation: typed(&registry_text()).mutation, budget_ms: 60_000 }
}

fn files() -> ReplayFiles {
    ReplayFiles {
        registry: registry_text().into_bytes(),
        target: TARGET.to_vec(),
        mutant: MUTANT.to_vec(),
        witness: WITNESS.to_vec(),
    }
}

fn tree(target: &[u8], unrelated: &[u8]) -> Vec<(String, Option<Vec<u8>>)> {
    vec![
        ("Cargo.toml".to_owned(), Some(b"[package]\n".to_vec())),
        ("mutations".to_owned(), None),
        ("mutations/remove-guard.toml".to_owned(), Some(registry_text().into_bytes())),
        ("src".to_owned(), None),
        ("src/lib.rs".to_owned(), Some(target.to_vec())),
        ("src/unrelated.rs".to_owned(), Some(unrelated.to_vec())),
    ]
}

const REVIEWED: &[u8] = b"pub const REVIEWED: bool = true;\n";

fn collected(root: &str) -> Vec<(String, String, String)> {
    vec![
        (
            "witness::guard_is_enforced".to_owned(),
            format!("{root}/target/debug/deps/witness-1"),
            "guard_is_enforced".to_owned(),
        ),
        ("lib::tests::other".to_owned(), format!("{root}/target/debug/deps/lib-1"), "tests::other".to_owned()),
    ]
}

fn output(status: i32, stdout: &str) -> ReplayEvent {
    ReplayEvent::Ran(Ok(ProcessOutput {
        status: Some(status),
        stdout: stdout.as_bytes().to_vec(),
        stderr: Vec::new(),
        truncated: false,
        duration_ms: 1,
    }))
}

const PASSED: &str = "\nrunning 1 test\ntest guard_is_enforced ... ok\n\ntest result: ok. 1 passed; 0 failed; 0 ignored; 0 measured; 1 filtered out; finished in 0.00s\n";
const FAILED: &str = "\nrunning 1 test\ntest guard_is_enforced ... FAILED\n\ntest result: FAILED. 0 passed; 1 failed; 0 ignored; 0 measured; 1 filtered out; finished in 0.00s\n";

fn step(c: &MutationRun, s: ReplayState, e: Option<ReplayEvent>) -> (ReplayState, ReplayAction) {
    mutation_replay_step(c, 0, s, e)
}

fn inputs() -> ReplayEvent {
    ReplayEvent::Inputs(Ok(ReplayInputs {
        original: files(),
        baseline: files(),
        mutant: files(),
        baseline_tree: tree(TARGET, REVIEWED),
        mutant_tree: tree(TARGET, REVIEWED),
    }))
}

/// Drives a `check` replay up to the mutant witness run.
fn up_to_mutant_run(c: &MutationRun) -> ReplayState {
    let (s, a) = step(c, ReplayState::start(), None);
    assert!(matches!(a, ReplayAction::ReadInputs));
    let (s, a) = step(c, s, Some(inputs()));
    assert!(matches!(a, ReplayAction::Collect { mutant: false }));
    let (s, a) = step(c, s, Some(ReplayEvent::Collected(Ok(collected("/b")))));
    match a {
        ReplayAction::Run { spec, timeout_ms, mutant } => {
            assert_eq!(spec.program, "/b/target/debug/deps/witness-1");
            assert_eq!(spec.args, ["guard_is_enforced", "--exact"]);
            assert_eq!(timeout_ms, 60_000);
            assert!(!mutant);
        }
        _ => panic!("the witness runs in the baseline"),
    }
    let (s, a) = step(c, s, Some(output(0, PASSED)));
    assert!(matches!(a, ReplayAction::ListBaseline));
    assert!(s.baseline_passed);
    let (s, a) = step(c, s, Some(ReplayEvent::Tree(Ok(tree(TARGET, REVIEWED)))));
    assert!(matches!(a, ReplayAction::ApplyMutant));
    let (s, a) = step(c, s, Some(ReplayEvent::Applied(Ok((MUTANT.to_vec(), tree(MUTANT, REVIEWED))))));
    assert!(matches!(a, ReplayAction::Collect { mutant: true }));
    let (s, a) = step(c, s, Some(ReplayEvent::Collected(Ok(collected("/m")))));
    match a {
        ReplayAction::Run { spec, mutant, .. } => {
            assert_eq!(spec.program, "/m/target/debug/deps/witness-1");
            assert!(mutant);
        }
        _ => panic!("the witness runs in the mutant"),
    }
    s
}

fn final_reading(original: ReplayFiles) -> ReplayEvent {
    let mut mutant = files();
    mutant.target = MUTANT.to_vec();
    ReplayEvent::Final(Ok(ReplayFinal { mutant, tree: tree(MUTANT, REVIEWED), original }))
}

fn failure(a: ReplayAction) -> AdapterError {
    match a {
        ReplayAction::Respond(Err(e)) => e,
        _ => panic!("expected the replay to fail"),
    }
}

#[test]
fn registered_mutation_replays_in_two_shadows_and_preserves_root() {
    let c = run("check");
    let s = up_to_mutant_run(&c);
    let (s, a) = step(&c, s, Some(output(101, FAILED)));
    assert!(matches!(a, ReplayAction::ReadFinal));
    assert!(s.mutant_failed);
    let (s, a) = step(&c, s, Some(final_reading(files())));
    assert_eq!(s.phase, ReplayPhase::Done);
    match a {
        ReplayAction::Respond(Ok(answer)) => {
            assert_eq!(answer.inventory, ["remove-guard"]);
            assert!(answer.witness_replayed);
            assert_eq!(answer.postimage_sha256, sha256_bytes(MUTANT));
        }
        _ => panic!("the replay succeeds"),
    }
}

#[test]
fn an_inventory_replay_collects_without_running_the_witness() {
    let c = run("inventory");
    let (s, _) = step(&c, ReplayState::start(), None);
    let (s, _) = step(&c, s, Some(inputs()));
    let (s, a) = step(&c, s, Some(ReplayEvent::Collected(Ok(collected("/b")))));
    assert!(matches!(a, ReplayAction::ListBaseline));
    let (s, _) = step(&c, s, Some(ReplayEvent::Tree(Ok(tree(TARGET, REVIEWED)))));
    let (s, _) = step(&c, s, Some(ReplayEvent::Applied(Ok((MUTANT.to_vec(), tree(MUTANT, REVIEWED))))));
    let (s, a) = step(&c, s, Some(ReplayEvent::Collected(Ok(collected("/m")))));
    assert!(matches!(a, ReplayAction::ReadFinal));
    let (_, a) = step(&c, s, Some(final_reading(files())));
    match a {
        ReplayAction::Respond(Ok(answer)) => assert!(!answer.witness_replayed),
        _ => panic!("the replay succeeds"),
    }
    let (_, a) = step(&run("update"), ReplayState::start(), None);
    assert!(matches!(failure(a), AdapterError::Request(_)));
}

#[test]
fn mutation_replay_rejects_unrelated_reviewed_shadow_changes() {
    let c = run("check");
    let (s, _) = step(&c, ReplayState::start(), None);
    let (s, _) = step(&c, s, Some(inputs()));
    let (s, _) = step(&c, s, Some(ReplayEvent::Collected(Ok(collected("/b")))));
    let (s, _) = step(&c, s, Some(output(0, PASSED)));
    let changed = tree(TARGET, b"pub const REVIEWED: bool = false;\n");
    let (_, a) = step(&c, s, Some(ReplayEvent::Tree(Ok(changed))));
    let e = failure(a);
    assert!(matches!(&e, AdapterError::ToolFailed(m) if m.contains("baseline mutation witness")));
    assert!(matches!(&e, AdapterError::ToolFailed(m)
        if m == "baseline mutation witness changed files outside its adapter-owned output directory"));
}

#[test]
fn a_mutant_that_changes_another_reviewed_path_is_refused() {
    let c = run("check");
    let (s, _) = step(&c, ReplayState::start(), None);
    let (s, _) = step(&c, s, Some(inputs()));
    let (s, _) = step(&c, s, Some(ReplayEvent::Collected(Ok(collected("/b")))));
    let (s, _) = step(&c, s, Some(output(0, PASSED)));
    let (s, _) = step(&c, s, Some(ReplayEvent::Tree(Ok(tree(TARGET, REVIEWED)))));
    let other = tree(MUTANT, b"changed\n");
    let (_, a) = step(&c, s, Some(ReplayEvent::Applied(Ok((MUTANT.to_vec(), other)))));
    assert!(matches!(failure(a), AdapterError::ToolFailed(m)
        if m == "mutant replay changed a reviewed path other than its registered target"));
}

#[test]
fn inputs_that_do_not_match_the_registration_are_refused() {
    let c = run("check");
    let (s, _) = step(&c, ReplayState::start(), None);
    let mut baseline = files();
    baseline.target = b"fn other() {}\n".to_vec();
    let event = ReplayEvent::Inputs(Ok(ReplayInputs {
        original: files(),
        baseline,
        mutant: files(),
        baseline_tree: tree(TARGET, REVIEWED),
        mutant_tree: tree(TARGET, REVIEWED),
    }));
    let (_, a) = step(&c, s, Some(event));
    assert!(matches!(failure(a), AdapterError::Unit(m)
        if m == "mutation target preimage digest does not match its registration"));

    let (s, _) = step(&c, ReplayState::start(), None);
    let event = ReplayEvent::Inputs(Ok(ReplayInputs {
        original: files(),
        baseline: files(),
        mutant: files(),
        baseline_tree: tree(TARGET, REVIEWED),
        mutant_tree: tree(TARGET, b"other\n"),
    }));
    let (_, a) = step(&c, s, Some(event));
    assert!(matches!(failure(a), AdapterError::ToolFailed(m)
        if m == "fresh baseline and mutant shadows have different reviewed trees"));
}

#[test]
fn a_witness_that_still_passes_on_the_mutant_is_refused() {
    let c = run("check");
    let s = up_to_mutant_run(&c);
    let (_, a) = step(&c, s, Some(output(0, PASSED)));
    assert!(matches!(failure(a), AdapterError::ToolFailed(m)
        if m == "mutant witness exited Some(0); exact Rust libtest exit 101 is required"));
}

#[test]
fn a_mutant_that_changes_the_collected_inventory_is_refused() {
    let c = run("check");
    let (s, _) = step(&c, ReplayState::start(), None);
    let (s, _) = step(&c, s, Some(inputs()));
    let (s, _) = step(&c, s, Some(ReplayEvent::Collected(Ok(collected("/b")))));
    let (s, _) = step(&c, s, Some(output(0, PASSED)));
    let (s, _) = step(&c, s, Some(ReplayEvent::Tree(Ok(tree(TARGET, REVIEWED)))));
    let (s, _) = step(&c, s, Some(ReplayEvent::Applied(Ok((MUTANT.to_vec(), tree(MUTANT, REVIEWED))))));
    let mut fewer = collected("/m");
    fewer.pop();
    let (_, a) = step(&c, s, Some(ReplayEvent::Collected(Ok(fewer))));
    assert!(matches!(failure(a), AdapterError::Inventory(m)
        if m == "mutant changed the exact collected Rust test inventory"));
}

#[test]
fn a_replay_that_changed_the_reviewed_root_is_refused() {
    let c = run("check");
    let s = up_to_mutant_run(&c);
    let (s, _) = step(&c, s, Some(output(101, FAILED)));
    let mut original = files();
    original.registry.extend_from_slice(b"# edited\n");
    let (_, a) = step(&c, s, Some(final_reading(original)));
    assert!(matches!(failure(a), AdapterError::ToolFailed(m)
        if m == "mutation replay changed a registered file in the reviewed root"));
}
