use proofbound_adapter::cargo::RustTestBinary;
use proofbound_adapter::process::ProcessOutput;
use proofbound_adapter::rust_session::{rust_run_step, RustAction, RustEvent, RustPhase, RustRunState, RustTestRun};
use proofbound_adapter::testing::AdapterError;

fn config(operation: &str) -> RustTestRun {
    RustTestRun {
        operation: operation.to_owned(),
        manifest: Some("/shadow/project/Cargo.toml".to_owned()),
        package: Some("demo".to_owned()),
        targets: vec!["--lib".to_owned()],
        arguments: Vec::new(),
        expected_inventory: vec!["demo::tests::one".to_owned()],
        mutation_witness: false,
        mutant_shadow: false,
        collect_only: false,
        budget_ms: 60_000,
    }
}

fn ran(stdout: &[u8]) -> RustEvent {
    RustEvent::Ran(Ok(ProcessOutput {
        status: Some(0),
        stdout: stdout.to_vec(),
        stderr: Vec::new(),
        truncated: false,
        duration_ms: 1,
    }))
}

fn command(action: &RustAction) -> (String, Vec<String>) {
    match action {
        RustAction::Run { spec, .. } => (spec.program.clone(), spec.args.clone()),
        _ => panic!("expected a command"),
    }
}

fn binaries() -> RustEvent {
    RustEvent::Binaries(Ok(vec![RustTestBinary {
        target: "demo".to_owned(),
        executable: "/shadow/project/target/debug/deps/demo-1".to_owned(),
    }]))
}

#[test]
fn check_builds_lists_and_runs_each_configured_test_alone() {
    let c = config("check");
    let (s, a) = rust_run_step(&c, 0, RustRunState::start(), None);
    let (program, args) = command(&a);
    assert_eq!(program, "cargo");
    assert_eq!(
        args,
        [
            "test",
            "--no-run",
            "--message-format=json",
            "--manifest-path",
            "/shadow/project/Cargo.toml",
            "--package",
            "demo",
            "--lib"
        ]
    );
    let (s, a) = rust_run_step(&c, 0, s, Some(ran(b"{}")));
    assert!(matches!(a, RustAction::ResolveBinaries(_)));
    let (s, a) = rust_run_step(&c, 0, s, Some(binaries()));
    assert_eq!(command(&a).1, ["--list", "--format", "terse"]);
    let (s, a) = rust_run_step(&c, 0, s, Some(ran(b"tests::one: test\ntests::two: test\n")));
    assert_eq!(command(&a), ("/shadow/project/target/debug/deps/demo-1".to_owned(), vec!["tests::one".to_owned(), "--exact".to_owned()]));
    assert_eq!(s.phase, RustPhase::Exec(0));
    let report = b"running 1 test\ntest tests::one ... ok\n\ntest result: ok. 1 passed; 0 failed; 0 ignored; 0 measured; 1 filtered out; finished in 0.00s\n";
    let (s, a) = rust_run_step(&c, 0, s, Some(ran(report)));
    match a {
        RustAction::Respond(Ok(inventory)) => assert_eq!(inventory, ["demo::tests::one"]),
        _ => panic!("expected success"),
    }
    assert_eq!(s.phase, RustPhase::Done);
}

#[test]
fn inventory_answers_without_running_tests_and_missing_tests_fail() {
    let c = config("inventory");
    let (s, _) = rust_run_step(&c, 0, RustRunState::start(), None);
    let (s, _) = rust_run_step(&c, 0, s, Some(ran(b"{}")));
    let (s, _) = rust_run_step(&c, 0, s, Some(binaries()));
    let (_, a) = rust_run_step(&c, 0, s, Some(ran(b"tests::one: test\n")));
    assert!(matches!(a, RustAction::Respond(Ok(_))));

    let mut missing = config("check");
    missing.expected_inventory = vec!["demo::tests::gone".to_owned()];
    let (s, _) = rust_run_step(&missing, 0, RustRunState::start(), None);
    let (s, _) = rust_run_step(&missing, 0, s, Some(ran(b"{}")));
    let (s, _) = rust_run_step(&missing, 0, s, Some(binaries()));
    let (_, a) = rust_run_step(&missing, 0, s, Some(ran(b"tests::one: test\n")));
    match a {
        RustAction::Respond(Err(AdapterError::Inventory(m))) => {
            assert_eq!(m, "configured Rust test `demo::tests::gone` was not collected")
        }
        _ => panic!("expected a missing test"),
    }
}

#[test]
fn unit_checks_come_before_any_command() {
    let mut c = config("check");
    c.manifest = Some("/shadow/project/other.toml".to_owned());
    let (_, a) = rust_run_step(&c, 0, RustRunState::start(), None);
    assert!(matches!(a, RustAction::Respond(Err(AdapterError::Unit(m))) if m == "cargo-test manifest must be named Cargo.toml"));

    let mut c = config("check");
    c.targets = vec!["--manifest-path=/x".to_owned()];
    let (_, a) = rust_run_step(&c, 0, RustRunState::start(), None);
    assert!(matches!(a, RustAction::Respond(Err(AdapterError::Unit(m))) if m == "unsupported Cargo target selector `--manifest-path=/x`"));

    let mut c = config("check");
    c.targets = vec!["named_test".to_owned()];
    let (_, a) = rust_run_step(&c, 0, RustRunState::start(), None);
    assert!(matches!(a, RustAction::Respond(Err(AdapterError::Unit(_)))));

    c.mutation_witness = true;
    let (_, a) = rust_run_step(&c, 0, RustRunState::start(), None);
    assert!(matches!(a, RustAction::Respond(Err(AdapterError::Internal(m))) if m == "mutation replay has no independent mutant shadow"));
    c.mutant_shadow = true;
    let (_, a) = rust_run_step(&c, 0, RustRunState::start(), None);
    match a {
        RustAction::ReplayMutation { selectors, named } => {
            assert!(selectors.is_empty());
            assert_eq!(named, ["named_test"]);
        }
        _ => panic!("mutation witnesses replay their mutation"),
    }

    let c = config("check");
    let (_, a) = rust_run_step(&c, 60_000, RustRunState::start(), None);
    assert!(matches!(a, RustAction::Respond(Err(AdapterError::Timeout(60_000)))));
}

#[test]
fn a_test_that_did_not_pass_alone_fails_the_run() {
    let c = config("reproduce");
    let (s, _) = rust_run_step(&c, 0, RustRunState::start(), None);
    let (s, _) = rust_run_step(&c, 0, s, Some(ran(b"{}")));
    let (s, _) = rust_run_step(&c, 0, s, Some(binaries()));
    let (s, _) = rust_run_step(&c, 0, s, Some(ran(b"tests::one: test\n")));
    let (_, a) = rust_run_step(&c, 0, s, Some(ran(b"running 0 tests\n")));
    assert!(matches!(a, RustAction::Respond(Err(AdapterError::Inventory(m))) if m == "Rust test `tests::one` did not report exactly one passing test"));
}
