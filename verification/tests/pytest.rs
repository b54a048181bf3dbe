use proofbound_adapter::pytest::plan_checker_run;
use proofbound_adapter::pytest::{parse_pytest_inventory, pytest_node_files, resolve_python_targets, PythonTestNode};
use proofbound_adapter::testing::AdapterError;

fn node(canonical: &str) -> PythonTestNode {
    let suffix = canonical.split_once("::").unwrap().1;
    PythonTestNode { canonical: canonical.to_owned(), node_id: format!("/shadow/test_sample.py::{suffix}") }
}

fn strings(values: &[&str]) -> Vec<String> {
    values.iter().map(|value| value.to_string()).collect()
}

#[test]
fn pytest_targets_select_exactly_the_expected_nodes() {
    let nodes = vec![node("test_sample::test_one"), node("test_sample::test_two")];
    let selected =
        resolve_python_targets(&strings(&["test_two"]), &strings(&["test_sample::test_two"]), &nodes).unwrap();
    assert_eq!(selected, [node("test_sample::test_two")]);
    assert_eq!(
        resolve_python_targets(&strings(&["missing"]), &strings(&["test_sample::missing"]), &nodes),
        Err(AdapterError::Inventory("pytest target `missing` resolved to 0 nodes".to_owned()))
    );
}

#[test]
fn pytest_selection_is_ordered_by_canonical_name() {
    let nodes = vec![node("b::test_z"), node("a::test_y"), node("c::Suite::test_x")];
    let selected = resolve_python_targets(
        &strings(&["test_x", "test_z", "test_y"]),
        &strings(&["a::test_y", "b::test_z", "c::Suite::test_x"]),
        &nodes,
    )
    .unwrap();
    assert_eq!(selected, [node("a::test_y"), node("b::test_z"), node("c::Suite::test_x")]);
}

#[test]
fn pytest_targets_fail_closed() {
    let nodes = vec![node("a::test_x"), node("b::test_x")];
    assert_eq!(
        resolve_python_targets(&strings(&["test_x"]), &strings(&["a::test_x"]), &nodes),
        Err(AdapterError::Inventory("pytest target `test_x` resolved to 2 nodes".to_owned()))
    );
    assert_eq!(
        resolve_python_targets(&strings(&["bad target"]), &strings(&["a::test_x"]), &nodes),
        Err(AdapterError::Unit("invalid pytest target `bad target`".to_owned()))
    );
    assert_eq!(
        resolve_python_targets(&Vec::new(), &strings(&["a::test_x"]), &nodes),
        Err(AdapterError::Inventory("pytest targets and expected_inventory must be non-empty".to_owned()))
    );
    let single = vec![node("a::test_x"), node("b::test_y")];
    assert_eq!(
        resolve_python_targets(&strings(&["test_x"]), &strings(&["b::test_y"]), &single),
        Err(AdapterError::Inventory(
            "pytest inventory mismatch; missing=[\"b::test_y\"], extra=[\"a::test_x\"]".to_owned()
        ))
    );
    assert_eq!(
        resolve_python_targets(&strings(&["test_x", "test_x"]), &strings(&["a::test_x"]), &single),
        Err(AdapterError::Inventory("pytest inventory contains duplicates".to_owned()))
    );
}

/// Every node file here resolves to the one sample file in the shadow.
fn resolve_all(bytes: &[u8]) -> Vec<Result<String, AdapterError>> {
    pytest_node_files(bytes).into_iter().map(|_| Ok("/shadow/test_sample.py".to_owned())).collect()
}

#[test]
fn pytest_collection_is_normalized_and_exact() {
    let bytes = b"test_sample.py::test_one\ntest_sample.py::test_two\n";
    let nodes = parse_pytest_inventory(bytes, resolve_all(bytes), "/shadow").unwrap();
    let selected =
        resolve_python_targets(&strings(&["test_two"]), &strings(&["test_sample::test_two"]), &nodes).unwrap();
    assert_eq!(selected[0].canonical, "test_sample::test_two");
    assert!(resolve_python_targets(&strings(&["missing"]), &strings(&["test_sample::missing"]), &nodes).is_err());
}

#[test]
fn pytest_collection_accepts_singular_summary() {
    let bytes = b"test_sample.py::test_one\n1 test collected in 0.01s\n";
    let nodes = parse_pytest_inventory(bytes, resolve_all(bytes), "/shadow").unwrap();
    assert_eq!(nodes.len(), 1);
    assert_eq!(nodes[0].canonical, "test_sample::test_one");
    assert_eq!(nodes[0].node_id, "/shadow/test_sample.py::test_one");
}

#[test]
fn pytest_collection_rejects_what_it_cannot_place() {
    let bytes = b"  test_sample.py::test_b  \n\n===== 2 tests collected in 0.01s =====\ntest_sample.py::test_a\n";
    let nodes = parse_pytest_inventory(bytes, resolve_all(bytes), "/shadow").unwrap();
    assert_eq!(
        nodes.iter().map(|node| node.canonical.as_str()).collect::<Vec<_>>(),
        ["test_sample::test_a", "test_sample::test_b"]
    );
    assert_eq!(
        parse_pytest_inventory(b"some noise\n", Vec::new(), "/shadow"),
        Err(AdapterError::Inventory("unrecognized pytest collection line `some noise`".to_owned()))
    );
    assert_eq!(
        parse_pytest_inventory(b"x.py::test\n", vec![Ok("/elsewhere/x.py".to_owned())], "/shadow"),
        Err(AdapterError::Inventory("pytest node escaped shadow project: `x.py::test`".to_owned()))
    );
    assert_eq!(
        parse_pytest_inventory(b"x.txt::test\n", vec![Ok("/shadow/x.txt".to_owned())], "/shadow"),
        Err(AdapterError::Inventory("pytest node escaped shadow project: `x.txt::test`".to_owned()))
    );
    assert_eq!(
        parse_pytest_inventory(b"x-y.py::test\n", vec![Ok("/shadow/-y.py".to_owned())], "/shadow"),
        Err(AdapterError::Inventory("invalid pytest node `x-y.py::test`".to_owned()))
    );
    let twice = b"a/t.py::test_x\nb/t.py::test_x\n";
    assert_eq!(
        parse_pytest_inventory(twice, vec![Ok("/shadow/a/t.py".to_owned()), Ok("/shadow/b/t.py".to_owned())], "/shadow"),
        Err(AdapterError::Inventory(
            "duplicate normalized pytest node (file stems must be unique per unit)".to_owned()
        ))
    );
    let failure = AdapterError::Io("No such file or directory (os error 2)".to_owned());
    assert_eq!(parse_pytest_inventory(b"gone.py::test\n", vec![Err(failure.clone())], "/shadow"), Err(failure));
    assert!(matches!(parse_pytest_inventory(&[0xff], Vec::new(), "/shadow"), Err(AdapterError::Inventory(_))));
}

fn checker_run(operation: &str) -> proofbound_adapter::pytest::CheckerRun {
    proofbound_adapter::pytest::CheckerRun {
        operation: operation.to_owned(),
        checker: Some("checker.py".to_owned()),
        shadow_checker: Ok(("/shadow/project/checker.py".to_owned(), true)),
        arguments: vec!["artifact.bin".to_owned()],
        argument_kinds: vec![Ok(true)],
        path_checks: vec![Ok(())],
    }
}

#[test]
fn a_checker_runs_with_its_exact_registered_arguments() {
    let spec = plan_checker_run(checker_run("check")).unwrap();
    assert_eq!(spec.program, "python3");
    assert_eq!(spec.args, ["/shadow/project/checker.py", "artifact.bin"]);

    let mut missing = checker_run("check");
    missing.checker = None;
    assert!(matches!(plan_checker_run(missing), Err(AdapterError::Unit(m)) if m == "checker operation requires a checker"));
    let mut not_python = checker_run("check");
    not_python.shadow_checker = Ok(("/shadow/project/checker.sh".to_owned(), true));
    assert!(matches!(plan_checker_run(not_python), Err(AdapterError::UnsafePath(p)) if p == "checker.py"));
    let mut outside = checker_run("check");
    outside.argument_kinds = vec![Err(AdapterError::UnsafePath("../artifact.bin".to_owned()))];
    assert!(matches!(plan_checker_run(outside), Err(AdapterError::UnsafePath(p)) if p == "../artifact.bin"));
    let mut absent = checker_run("check");
    absent.argument_kinds = vec![Ok(false)];
    assert!(matches!(plan_checker_run(absent), Err(AdapterError::UnsafePath(p)) if p == "artifact.bin"));
    let mut stray = checker_run("check");
    stray.path_checks = vec![Ok(()), Err(AdapterError::UnsafePath("/etc".to_owned()))];
    assert!(matches!(plan_checker_run(stray), Err(AdapterError::UnsafePath(p)) if p == "/etc"));
    assert!(matches!(
        plan_checker_run(checker_run("update")),
        Err(AdapterError::Request(m)) if m == "checker executes only for inventory, check, or reproduce"
    ));
}
