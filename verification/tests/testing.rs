use proofbound_adapter::process::{ProcessOutput, ProcessSpec};
use proofbound_adapter::testing::{
    ensure_one_python_test_ran, ensure_one_rust_test_failed, ensure_one_rust_test_ran,
    ensure_silent_success, ensure_success, exact_set, normalize_timing_line,
    parse_libtest_inventory, should_exclude, sorted_unique, validate_arguments,
    validate_cargo_selector, validate_relative_path, AdapterError, TestFlavor,
};

fn output(status: Option<i32>, stdout: &[u8]) -> ProcessOutput {
    ProcessOutput {
        status,
        stdout: stdout.to_vec(),
        stderr: Vec::new(),
        truncated: false,
        duration_ms: 1,
    }
}

fn strings(items: &[&str]) -> Vec<String> {
    items.iter().map(|s| (*s).to_owned()).collect()
}

#[test]
fn runner_summaries_require_exactly_one_selected_test() {
    let rust = output(
        Some(0),
        b"running 1 test\ntest module::one ... ok\n\ntest result: ok. 1 passed; 0 failed; 0 ignored; 0 measured; 2 filtered out; finished in 0.00s\n",
    );
    assert!(ensure_one_rust_test_ran("module::one", &rust).is_ok());
    let mut eleven = rust.clone();
    eleven.stdout = b"running 11 tests\ntest module::one ... ok\n\ntest result: ok. 11 passed; 0 failed; 0 ignored; 0 measured; 0 filtered out; finished in 0.00s\n".to_vec();
    assert!(ensure_one_rust_test_ran("module::one", &eleven).is_err());

    let failed = output(
        Some(101),
        b"running 1 test\ntest module::one ... FAILED\n\nfailures:\n\ntest result: FAILED. 0 passed; 1 failed; 0 ignored; 0 measured; 2 filtered out; finished in 0.00s\n",
    );
    assert!(ensure_one_rust_test_failed("module::one", &failed).is_ok());
    let mut wrong_exit = failed.clone();
    wrong_exit.status = Some(1);
    assert!(ensure_one_rust_test_failed("module::one", &wrong_exit).is_err());
    let mut forged_pass = failed;
    forged_pass.stdout = rust.stdout.clone();
    assert!(ensure_one_rust_test_failed("module::one", &forged_pass).is_err());

    let python = output(
        Some(0),
        b".                                                                        [100%]\n1 passed in 0.01s\n",
    );
    assert!(ensure_one_python_test_ran("test_sample::test_one", &python).is_ok());
    let mut eleven = python.clone();
    eleven.stdout = b"...........                                                              [100%]\n11 passed in 0.01s\n".to_vec();
    assert!(ensure_one_python_test_ran("test_sample::test_one", &eleven).is_err());
}

#[test]
fn dangerous_arguments_and_paths_fail_closed() {
    assert!(validate_arguments(TestFlavor::Rust, &strings(&["--target-dir=/outside"])).is_err());
    assert!(validate_arguments(TestFlavor::Python, &strings(&["-p", "evil"])).is_err());
    assert!(validate_relative_path("../outside").is_err());
    assert!(validate_cargo_selector("--manifest-path=/outside").is_err());
    assert!(validate_arguments(TestFlavor::IndependentCheck, &strings(&["../outside"])).is_err());
    assert!(should_exclude(".venv/bin/python"));
    assert!(should_exclude(".proofbound/evidence/receipt.json"));
}

#[test]
fn safe_arguments_and_selectors_pass() {
    assert!(validate_arguments(TestFlavor::Rust, &strings(&["--release"])).is_ok());
    assert!(validate_arguments(TestFlavor::Python, &strings(&["-q"])).is_ok());
    assert!(validate_cargo_selector("--lib").is_ok());
    assert!(validate_relative_path("tests/test_sample.py").is_ok());
    assert!(!should_exclude("src/lib.rs"));
}

#[test]
fn libtest_inventory_is_sorted_and_exact() {
    assert_eq!(
        parse_libtest_inventory(b"module::one: test\nmodule::two: test\n").unwrap(),
        ["module::one", "module::two"]
    );
    assert_eq!(
        parse_libtest_inventory(b"b::two: test\na::one: test\n").unwrap(),
        ["a::one", "b::two"]
    );
    assert!(parse_libtest_inventory(b"dup: test\ndup: test\n").is_err());
}

#[test]
fn sets_and_uniqueness() {
    assert_eq!(sorted_unique(strings(&["b", "a"]), "items").unwrap(), ["a", "b"]);
    assert!(matches!(
        sorted_unique(strings(&["a", "a"]), "items"),
        Err(AdapterError::Inventory(_))
    ));
    assert!(exact_set("tests", &strings(&["a", "b"]), &strings(&["b", "a"])).is_ok());
    assert!(exact_set("tests", &strings(&["a"]), &strings(&["b"])).is_err());
}

#[test]
fn success_requires_exit_zero() {
    let spec = ProcessSpec { program: "cargo".to_owned(), args: strings(&["test"]) };
    assert!(ensure_success(&spec, &output(Some(0), b"")).is_ok());
    assert!(matches!(
        ensure_success(&spec, &output(Some(2), b"boom")),
        Err(AdapterError::ToolFailed(_))
    ));
    assert!(ensure_success(&spec, &output(None, b"")).is_err());
    assert!(ensure_silent_success(&spec, &output(Some(0), b"")).is_ok());
}

#[test]
fn timing_lines_lose_their_durations() {
    assert_eq!(normalize_timing_line("plain line"), "plain line");
}

#[test]
fn test_adapter_error_codes_are_stable() {
    assert!(AdapterError::Internal("x".to_owned()).code().starts_with("PB-TEST-"));
}
