use proofbound_adapter::generator_changes::{check_generator_changes, finish_generator_run, plan_generator_run};
use proofbound_adapter::process::{ProcessOutput, ProcessSpec};
use proofbound_adapter::testing::AdapterError;

type Listing = Vec<(String, Option<Vec<u8>>)>;

fn dir(path: &str) -> (String, Option<Vec<u8>>) {
    (path.to_owned(), None)
}

fn file(path: &str, bytes: &[u8]) -> (String, Option<Vec<u8>>) {
    (path.to_owned(), Some(bytes.to_vec()))
}

fn before() -> Listing {
    vec![
        dir("generator-candidate"),
        dir("generator-candidate/fixture-generator"),
        file("generator-candidate/fixture-generator/generate.py", b"print('x')\n"),
        dir("project"),
        file("project/generate.py", b"print('x')\n"),
    ]
}

fn outputs() -> Vec<String> {
    vec!["fixtures/generated.bin".to_owned()]
}

fn check(after: &Listing) -> Result<(), AdapterError> {
    check_generator_changes("generator-candidate/fixture-generator", &outputs(), &before(), after)
}

#[test]
fn a_generator_may_add_exactly_its_outputs() {
    let mut after = before();
    after.insert(2, dir("generator-candidate/fixture-generator/fixtures"));
    after.insert(3, file("generator-candidate/fixture-generator/fixtures/generated.bin", b"\x00\x01"));
    assert_eq!(check(&after), Ok(()));
    assert_eq!(check(&before()), Ok(()));
}

#[test]
fn a_generator_that_touches_a_seed_is_refused() {
    let mut after = before();
    after[4] = file("project/generate.py", b"print('y')\n");
    assert_eq!(
        check(&after),
        Err(AdapterError::ToolFailed("generator changed or removed a registered seed or sealed project file".to_owned()))
    );
    let mut removed = before();
    removed.remove(2);
    assert!(matches!(check(&removed), Err(AdapterError::ToolFailed(_))));
}

#[test]
fn a_generator_that_emits_undeclared_paths_is_refused() {
    let mut after = before();
    after.push(file("generator-candidate/fixture-generator/extra.txt", b"x"));
    assert_eq!(
        check(&after),
        Err(AdapterError::Inventory(
            "generator emitted undeclared path `generator-candidate/fixture-generator/extra.txt`".to_owned()
        ))
    );
    let mut as_directory = before();
    as_directory.push(dir("generator-candidate/fixture-generator/fixtures"));
    as_directory.push(dir("generator-candidate/fixture-generator/fixtures/generated.bin"));
    assert_eq!(
        check(&as_directory),
        Err(AdapterError::Inventory(
            "generator emitted undeclared path `generator-candidate/fixture-generator/fixtures/generated.bin`".to_owned()
        ))
    );
    let mut as_file = before();
    as_file.push(file("generator-candidate/fixture-generator/fixtures", b""));
    assert!(matches!(check(&as_file), Err(AdapterError::Inventory(_))));
}

#[test]
fn a_generator_runs_its_python_checker_with_update() {
    let checker = Some("generate.py".to_owned());
    let spec = plan_generator_run("check", &checker, Ok(("/work/candidate/generate.py".to_owned(), true))).unwrap();
    assert_eq!(spec.program, "python3");
    assert_eq!(spec.args, ["/work/candidate/generate.py", "--update"]);
    assert!(matches!(
        plan_generator_run("check", &None, Ok(("/x.py".to_owned(), true))),
        Err(AdapterError::Unit(m)) if m == "generator operation requires a checker"
    ));
    assert!(matches!(
        plan_generator_run("verify", &checker, Ok(("/x.py".to_owned(), true))),
        Err(AdapterError::Request(m)) if m == "generator executes only for inventory, check, reproduce, or update"
    ));
    assert!(matches!(
        plan_generator_run("update", &checker, Ok(("/work/generate.sh".to_owned(), true))),
        Err(AdapterError::UnsafePath(p)) if p == "generate.py"
    ));
}

fn succeeded() -> ProcessOutput {
    ProcessOutput { status: Some(0), stdout: Vec::new(), stderr: Vec::new(), truncated: false, duration_ms: 1 }
}

#[test]
fn generated_outputs_must_match_the_committed_ones() {
    let spec = ProcessSpec { program: "python3".to_owned(), args: vec!["g.py".to_owned(), "--update".to_owned()] };
    let generated = vec![("b.bin".to_owned(), vec![2]), ("a.bin".to_owned(), vec![1])];
    let committed = Some(vec![("a.bin".to_owned(), vec![1]), ("b.bin".to_owned(), vec![2])]);
    assert_eq!(finish_generator_run(&spec, &succeeded(), Ok(()), &generated, &committed).unwrap(), ["a.bin", "b.bin"]);
    assert_eq!(finish_generator_run(&spec, &succeeded(), Ok(()), &generated, &None).unwrap(), ["a.bin", "b.bin"]);
    let stale = Some(vec![("a.bin".to_owned(), vec![1]), ("b.bin".to_owned(), vec![3])]);
    assert_eq!(
        finish_generator_run(&spec, &succeeded(), Ok(()), &generated, &stale),
        Err(AdapterError::ToolFailed(
            "freshly generated output bytes differ from the committed exact output inventory".to_owned()
        ))
    );
    let twice = vec![("a.bin".to_owned(), vec![1]), ("a.bin".to_owned(), vec![1])];
    assert_eq!(
        finish_generator_run(&spec, &succeeded(), Ok(()), &twice, &None),
        Err(AdapterError::Unit("generator output allowlist contains duplicates".to_owned()))
    );
    let refused = AdapterError::Inventory("generator emitted undeclared path `x`".to_owned());
    assert_eq!(finish_generator_run(&spec, &succeeded(), Err(refused.clone()), &generated, &None), Err(refused));
    let mut crashed = succeeded();
    crashed.status = Some(1);
    assert!(matches!(
        finish_generator_run(&spec, &crashed, Ok(()), &generated, &None),
        Err(AdapterError::ToolFailed(_))
    ));
}
