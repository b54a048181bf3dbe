use proofbound_adapter::aeneas::{AdapterError, ImportMapping, ImportMappingMode, TranslationUnit};
use proofbound_adapter::audit::ResourceBudget;
use proofbound_adapter::files::FileMap;
use proofbound_adapter::process::ProcessOutput;
use proofbound_adapter::session::{
    translation_step, Place, ToolEvent, TranslationAction, TranslationPhase, TranslationState,
};
use proofbound_adapter::translation::{ReportFile, ToolchainLock, TranslationFunction, TranslationReport};

fn unit() -> TranslationUnit {
    TranslationUnit {
        schema: "proofbound-translation-unit/1".to_owned(),
        adapter: "charon-aeneas".to_owned(),
        packages: vec!["demo-kernel".to_owned()],
        start_from: vec!["demo_kernel::decide".to_owned()],
        opaque: Vec::new(),
        included: Vec::new(),
        claims: vec!["DEMO-ONE".to_owned()],
        generated_dir: "lean/Generated/Demo".to_owned(),
        handwritten_refinement: "lean/Demo/Refinement.lean".to_owned(),
        determinism_runs: 2,
        determinism_normalization: "pretty-printed-llbc/1".to_owned(),
        forbid_generated_axioms: true,
        external_bridges: Vec::new(),
        template_axioms: Vec::new(),
        warning_inventory: Vec::new(),
        import_mapping: Some(ImportMapping {
            mode: ImportMappingMode::ExternalSourceRoot,
            source_roots: vec!["lean".to_owned()],
            rewrite_digest: None,
        }),
        resource_budget: ResourceBudget { time_seconds: 60, disk_bytes: 1000000, memory_bytes: 1000000 },
    }
}

fn lock() -> ToolchainLock {
    ToolchainLock {
        schema: "proofbound-translation-toolchain/1".to_owned(),
        charon_revision: "abc123".to_owned(),
        aeneas_revision: "def456".to_owned(),
        rust_toolchain: "1.94.0".to_owned(),
        lean_toolchain: "v4.33.0".to_owned(),
    }
}

fn ok(stdout: &[u8]) -> ToolEvent {
    ToolEvent::Ran(
        Ok(ProcessOutput { status: Some(0), stdout: stdout.to_vec(), stderr: Vec::new(), truncated: false, duration_ms: 1 }),
        true,
    )
}

fn reports() -> Vec<ReportFile> {
    vec![(
        "translation.json".to_owned(),
        Ok(TranslationReport {
            aeneas_version: "def456".to_owned(),
            charon_version: "abc123".to_owned(),
            crate_name: "demo_kernel".to_owned(),
            functions: vec![TranslationFunction {
                rust_name: "demo_kernel::decide".to_owned(),
                is_local: true,
                is_opaque: false,
            }],
        }),
    )]
}

fn generated(text: &str) -> FileMap {
    let mut files = FileMap::new();
    files.insert("Funs.lean", text.as_bytes().to_vec());
    files
}

struct Session {
    operation: &'static str,
    state: Option<TranslationState>,
}

impl Session {
    fn step(&mut self, event: Option<ToolEvent>, elapsed: u64) -> TranslationAction {
        let state = self.state.take().unwrap();
        let (next, action) = translation_step(self.operation, &unit(), &lock(), "/work", elapsed, state, event);
        self.state = Some(next);
        action
    }

    fn phase(&self) -> TranslationPhase {
        self.state.as_ref().unwrap().phase
    }
}

fn program(action: &TranslationAction) -> (String, Vec<String>, Place) {
    match action {
        TranslationAction::Run { spec, place, .. } => (spec.program.clone(), spec.args.clone(), *place),
        _ => panic!("expected a tool run"),
    }
}

/// Drives a translation up to the second run's collection.
fn through_both_runs(session: &mut Session, second_pretty: &[u8]) -> TranslationAction {
    let a = session.step(None, 0);
    assert_eq!(program(&a), ("charon".to_owned(), vec!["--version".to_owned()], Place::Project));
    let a = session.step(Some(ok(b"charon abc123\n")), 0);
    assert_eq!(program(&a), ("aeneas".to_owned(), vec!["--version".to_owned()], Place::Project));
    let a = session.step(Some(ok(b"aeneas def456")), 0);
    let (name, args, place) = program(&a);
    assert_eq!((name.as_str(), place), ("cargo", Place::Shadow));
    assert_eq!(args, ["metadata", "--format-version", "1", "--no-deps"]);
    assert!(matches!(session.step(Some(ok(b"{}")), 0), TranslationAction::ResolvePackages(_)));
    let listed = vec![("demo-kernel".to_owned(), "/work/project/Cargo.toml".to_owned())];
    let mut action = session.step(Some(ToolEvent::Packages(Ok(listed))), 0);
    for (run, pretty) in [(1u64, b"pretty llbc  \n".as_slice()), (2u64, second_pretty)] {
        let (name, args, place) = program(&action);
        assert_eq!((name.as_str(), place), ("charon", Place::Shadow));
        let llbc = format!("/work/run-{run}/llbc/demo_kernel.llbc");
        assert!(args.contains(&llbc));
        assert!(args.contains(&"/work/project/Cargo.toml".to_owned()));
        let a = session.step(Some(ok(b"")), 0);
        assert_eq!(program(&a).1, ["pretty-print".to_owned(), llbc.clone()]);
        let a = session.step(Some(ok(pretty)), 0);
        let (name, args, _) = program(&a);
        assert_eq!(name, "aeneas");
        assert!(args.contains(&format!("/work/run-{run}/generated")));
        assert!(matches!(session.step(Some(ok(b"")), 0), TranslationAction::Collect(n) if n == run));
        action = session.step(Some(ToolEvent::Collected(Ok((generated("def decide := 1\n"), reports())))), 0);
    }
    action
}

#[test]
fn check_translates_twice_in_the_shadow_and_reads_the_committed_tree() {
    let mut session = Session { operation: "check", state: Some(TranslationState::start()) };
    let action = through_both_runs(&mut session, b"pretty llbc\n");
    assert!(matches!(action, TranslationAction::ReadCommitted));
    assert_eq!(session.phase(), TranslationPhase::ReadCommitted);
    let answer = session.step(Some(ToolEvent::Committed(Ok(generated("def decide := 1\n")))), 0);
    match answer {
        TranslationAction::Respond(Ok(answer)) => {
            assert_eq!(answer.inventory, ["demo_kernel::decide"]);
            assert_eq!(answer.tool_version, "charon abc123; aeneas def456");
        }
        _ => panic!("expected success"),
    }
    assert_eq!(session.phase(), TranslationPhase::Done);
}

#[test]
fn runs_that_differ_are_rejected_with_the_first_difference() {
    let mut session = Session { operation: "check", state: Some(TranslationState::start()) };
    let action = through_both_runs(&mut session, b"other llbc\n");
    match action {
        TranslationAction::Respond(Err(AdapterError::Determinism(m))) => {
            assert_eq!(m, "two normalized runs differ at artifact `llbc/demo_kernel.llbc.pretty` byte 0")
        }
        _ => panic!("expected a determinism failure"),
    }
}

#[test]
fn only_update_writes_the_generated_tree() {
    let mut session = Session { operation: "update", state: Some(TranslationState::start()) };
    let action = through_both_runs(&mut session, b"pretty llbc\n");
    match action {
        TranslationAction::WriteGenerated(files) => assert_eq!(files.len(), 1),
        _ => panic!("expected the generated tree to be written"),
    }
    let answer = session.step(Some(ToolEvent::Written(Ok(()))), 0);
    assert!(matches!(answer, TranslationAction::Respond(Ok(_))));
}

#[test]
fn committed_drift_unpinned_tools_and_timeouts_fail() {
    let mut session = Session { operation: "check", state: Some(TranslationState::start()) };
    through_both_runs(&mut session, b"pretty llbc\n");
    let answer = session.step(Some(ToolEvent::Committed(Ok(generated("def decide := 2\n")))), 0);
    assert!(matches!(answer, TranslationAction::Respond(Err(AdapterError::Generated(_)))));

    let mut session = Session { operation: "check", state: Some(TranslationState::start()) };
    session.step(None, 0);
    match session.step(Some(ok(b"charon 999\n")), 0) {
        TranslationAction::Respond(Err(AdapterError::Toolchain(m))) => {
            assert_eq!(m, "charon version `charon 999` does not contain pinned revision `abc123`")
        }
        _ => panic!("expected a toolchain failure"),
    }

    let mut session = Session { operation: "check", state: Some(TranslationState::start()) };
    session.step(None, 0);
    session.step(Some(ok(b"charon abc123")), 0);
    let late = session.step(Some(ok(b"aeneas def456")), 60_000);
    assert!(matches!(late, TranslationAction::Respond(Err(AdapterError::Timeout(60_000)))));

    let mut session = Session { operation: "doctor", state: Some(TranslationState::start()) };
    session.step(None, 0);
    session.step(Some(ok(b"charon abc123")), 0);
    match session.step(Some(ok(b"aeneas def456")), 0) {
        TranslationAction::Respond(Ok(answer)) => {
            assert!(answer.inventory.is_empty());
            assert_eq!(answer.tool_version, "charon abc123; aeneas def456");
        }
        _ => panic!("doctor answers after the version probes"),
    }

    let mut session = Session { operation: "check", state: Some(TranslationState::start()) };
    let answer = session.step(Some(ToolEvent::Written(Ok(()))), 0);
    assert!(matches!(answer, TranslationAction::Respond(Err(AdapterError::Internal(_)))));
}

#[test]
fn fake_tools_must_report_both_pinned_revisions() {
    let mut session = Session { operation: "doctor", state: Some(TranslationState::start()) };
    let a = session.step(None, 0);
    assert_eq!(program(&a).0, "charon");
    let a = session.step(Some(ok(b"charon abc123\n")), 0);
    assert_eq!(program(&a).0, "aeneas");
    match session.step(Some(ok(b"aeneas def456\n")), 0) {
        TranslationAction::Respond(Ok(answer)) => {
            assert!(answer.tool_version.contains("abc123"));
            assert!(answer.tool_version.contains("def456"));
        }
        _ => panic!("expected the tool identity"),
    }

    let mut session = Session { operation: "doctor", state: Some(TranslationState::start()) };
    session.step(None, 0);
    let answer = session.step(Some(ok(b"charon wrong\n")), 0);
    assert!(matches!(answer, TranslationAction::Respond(Err(AdapterError::Toolchain(_)))));
}
