use proofbound_adapter::process::ProcessOutput;
use proofbound_adapter::pytest_session::{
    pytest_run_step, PytestAction, PytestEvent, PytestPhase, PytestRun, PytestState,
};
use proofbound_adapter::testing::AdapterError;

fn config(operation: &str) -> PytestRun {
    PytestRun {
        operation: operation.to_owned(),
        manifest: Some("pyproject.toml".to_owned()),
        shadow_manifest: Ok(("/shadow".to_owned(), "pyproject.toml".to_owned())),
        paths: vec![Ok("/shadow/tests".to_owned())],
        arguments: Vec::new(),
        targets: vec!["test_two".to_owned()],
        expected_inventory: vec!["test_sample::test_two".to_owned()],
        shadow_root: "/shadow".to_owned(),
        budget_ms: 60_000,
    }
}

fn ran(status: i32, stdout: &[u8]) -> PytestEvent {
    PytestEvent::Ran(Ok(ProcessOutput {
        status: Some(status),
        stdout: stdout.to_vec(),
        stderr: Vec::new(),
        truncated: false,
        duration_ms: 1,
    }))
}

const COLLECTED: &[u8] = b"test_sample.py::test_one\ntest_sample.py::test_two\n\n2 tests collected in 0.01s\n";

fn resolved(files: &[String]) -> PytestEvent {
    PytestEvent::Resolved(files.iter().map(|_| Ok("/shadow/test_sample.py".to_owned())).collect())
}

fn collected(c: &PytestRun) -> (PytestState, PytestAction) {
    let (s, a) = pytest_run_step(c, 0, PytestState::start(), None);
    match &a {
        PytestAction::Run { spec, timeout_ms } => {
            assert_eq!(spec.program, "python3");
            assert_eq!(
                spec.args,
                ["-m", "pytest", "--collect-only", "-q", "-p", "no:cacheprovider", "--rootdir", "/shadow", "/shadow/tests"]
            );
            assert_eq!(*timeout_ms, 60_000);
        }
        _ => panic!("the run starts with the collection"),
    }
    let (s, a) = pytest_run_step(c, 0, s, Some(ran(0, COLLECTED)));
    let files = match a {
        PytestAction::ResolveFiles(files) => files,
        _ => panic!("the collected files are resolved"),
    };
    assert_eq!(files, ["test_sample.py", "test_sample.py"]);
    pytest_run_step(c, 0, s, Some(resolved(&files)))
}

#[test]
fn a_pytest_check_runs_each_selected_node_alone() {
    let c = config("check");
    let (s, a) = collected(&c);
    match a {
        PytestAction::Run { spec, .. } => assert_eq!(
            spec.args,
            ["-m", "pytest", "-q", "-p", "no:cacheprovider", "--rootdir", "/shadow", "/shadow/test_sample.py::test_two"]
        ),
        _ => panic!("the selected node runs alone"),
    }
    assert_eq!(s.phase, PytestPhase::Exec(0));
    let (s, a) = pytest_run_step(&c, 0, s, Some(ran(0, b"1 passed in 0.01s\n")));
    assert_eq!(s.phase, PytestPhase::Done);
    assert!(matches!(a, PytestAction::Respond(Ok(inventory)) if inventory == ["test_sample::test_two"]));
}

#[test]
fn a_pytest_inventory_answers_after_the_selection() {
    let (_, a) = collected(&config("inventory"));
    assert!(matches!(a, PytestAction::Respond(Ok(inventory)) if inventory == ["test_sample::test_two"]));
}

#[test]
fn a_pytest_node_that_did_not_pass_alone_fails_the_run() {
    let c = config("reproduce");
    let (s, _) = collected(&c);
    let (_, a) = pytest_run_step(&c, 0, s, Some(ran(0, b"2 passed in 0.01s\n")));
    assert!(matches!(a, PytestAction::Respond(Err(AdapterError::Inventory(m)))
        if m == "pytest node `test_sample::test_two` did not report exactly one passing test"));
}

#[test]
fn a_pytest_run_needs_a_pyproject_manifest_and_paths() {
    let mut c = config("check");
    c.manifest = None;
    let (_, a) = pytest_run_step(&c, 0, PytestState::start(), None);
    assert!(matches!(a, PytestAction::Respond(Err(AdapterError::Unit(m))) if m == "pytest operation requires a manifest"));
    let mut c = config("check");
    c.shadow_manifest = Ok(("/shadow".to_owned(), "setup.cfg".to_owned()));
    let (_, a) = pytest_run_step(&c, 0, PytestState::start(), None);
    assert!(matches!(a, PytestAction::Respond(Err(AdapterError::Unit(m))) if m == "pytest manifest must be pyproject.toml"));
    let mut c = config("check");
    c.paths = Vec::new();
    let (_, a) = pytest_run_step(&c, 0, PytestState::start(), None);
    assert!(matches!(a, PytestAction::Respond(Err(AdapterError::Unit(m)))
        if m == "pytest operation requires at least one collection path"));
    let mut c = config("check");
    c.paths.push(Err(AdapterError::UnsafePath("../elsewhere".to_owned())));
    let (_, a) = pytest_run_step(&c, 0, PytestState::start(), None);
    assert!(matches!(a, PytestAction::Respond(Err(AdapterError::UnsafePath(p))) if p == "../elsewhere"));
    let (_, a) = pytest_run_step(&config("check"), 60_000, PytestState::start(), None);
    assert!(matches!(a, PytestAction::Respond(Err(AdapterError::Timeout(60_000)))));
}

#[test]
fn a_resolution_that_does_not_answer_the_files_is_refused() {
    let c = config("check");
    let (s, _) = pytest_run_step(&c, 0, PytestState::start(), None);
    let (s, _) = pytest_run_step(&c, 0, s, Some(ran(0, COLLECTED)));
    let (_, a) = pytest_run_step(&c, 0, s, Some(PytestEvent::Resolved(Vec::new())));
    assert!(matches!(a, PytestAction::Respond(Err(AdapterError::Internal(m)))
        if m == "pytest file resolution does not match the collected nodes"));
}
