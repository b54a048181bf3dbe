use proofbound_adapter::audit::ResourceBudget;
use proofbound_adapter::kani::{
    build_check_args, validate_evidence_unit, validate_model_unit, BoundedDomain, KaniEvidence, exact_inventory, normalize_output, normalize_timing_line, parse_kani_inventory,
    parse_version, safe_symbol, should_exclude, validate_metadata_path, validate_relative_path,
    AdapterError, KaniList, KaniTotals, ModelCheck,
};

fn kani_metadata(harnesses: &[&str]) -> KaniList {
    KaniList {
        kani_version: "0.67.0".to_owned(),
        file_version: "0.1".to_owned(),
        standard_harnesses: vec![(
            "src/lib.rs".to_owned(),
            harnesses.iter().map(|h| (*h).to_owned()).collect(),
        )],
        contract_harnesses: Vec::new(),
        contracts: Vec::new(),
        totals: KaniTotals {
            standard_harnesses: harnesses.len(),
            contract_harnesses: 0,
            functions_under_contract: 0,
        },
    }
}

fn strings(items: &[&str]) -> Vec<String> {
    items.iter().map(|s| (*s).to_owned()).collect()
}

fn budget() -> ResourceBudget {
    ResourceBudget { time_seconds: 1, disk_bytes: 1, memory_bytes: 1 }
}

fn domain() -> BoundedDomain {
    BoundedDomain {
        id: "domain".to_owned(),
        description: "d".to_owned(),
        cardinality: 2,
        ordering_key: vec![0],
    }
}

fn model_unit(package: &str, harnesses: &[&str], solver: &str, unwind: u64) -> ModelCheck {
    ModelCheck {
        schema: "proofbound-model-check-unit/1".to_owned(),
        adapter: "kani".to_owned(),
        id: "unit".to_owned(),
        package: package.to_owned(),
        harnesses: strings(harnesses),
        claims: strings(&["TEST-ONE"]),
        domain: domain(),
        solver: solver.to_owned(),
        unwind,
        resource_budget: budget(),
    }
}

fn evidence_unit() -> KaniEvidence {
    KaniEvidence {
        schema: "proofbound-evidence-unit/1".to_owned(),
        id: "unit".to_owned(),
        adapter: "kani".to_owned(),
        kind: "bounded-check".to_owned(),
        operation_kind: "kani".to_owned(),
        package: Some("safe-package".to_owned()),
        targets: strings(&["crate::one", "crate::two"]),
        expected_inventory: strings(&["crate::one", "crate::two"]),
        claims: strings(&["TEST-ONE"]),
        inputs: strings(&["model.toml"]),
        environment_allowlist: strings(&["PATH"]),
        bounded_domain: Some(domain()),
        resource_budget: budget(),
    }
}

#[test]
fn parses_exact_json_metadata_without_source_scanning() {
    let (inventory, version) =
        parse_kani_inventory(&kani_metadata(&["crate::h2", "crate::h1"])).unwrap();
    assert_eq!(inventory, ["crate::h1", "crate::h2"]);
    assert_eq!(version, "0.67.0");
}

#[test]
fn rejects_unknown_or_inconsistent_metadata() {
    let mut value = kani_metadata(&["crate::h"]);
    value.totals.standard_harnesses = 2;
    assert!(parse_kani_inventory(&value).is_err());
}

#[test]
fn inventory_comparison_reports_missing_and_extra() {
    let error = exact_inventory(&strings(&["crate::wanted"]), &strings(&["crate::extra"])).unwrap_err();
    let message = error.message();
    assert!(message.contains("wanted"));
    assert!(message.contains("extra"));
    assert!(exact_inventory(&strings(&["crate::wanted"]), &Vec::new()).is_err());
}

#[test]
fn argv_is_typed_and_manifest_driven() {
    let model = model_unit("safe-package", &["crate::one", "crate::two"], "cadical", 7);
    let args = build_check_args(&model, "/tmp/run");
    assert_eq!(&args[..4], ["kani", "--package", "safe-package", "--exact"]);
    assert!(args.windows(2).any(|pair| pair == ["--harness", "crate::one"]));
    assert!(args.windows(2).any(|pair| pair == ["--solver", "cadical"]));
    assert!(!args.iter().any(|arg| arg.contains(';') || arg.contains("$(")));
}

#[test]
fn check_args_are_exact() {
    let model = model_unit("p", &["crate::a"], "kissat", 12);
    assert_eq!(
        build_check_args(&model, "/run/"),
        [
            "kani", "--package", "p", "--exact", "--harness", "crate::a", "--solver", "kissat",
            "--unwind", "12", "--target-dir", "/run/kani-target"
        ]
    );
}

#[test]
fn normalization_removes_paths_timing_and_ansi() {
    let normalized = normalize_output(
        b"\x1b[31mresult\x1b[0m /tmp/shadow\r\n",
        b"Finished `dev` profile in 0.42s\n",
        "/tmp/shadow",
        "/real/project",
    );
    assert_eq!(String::from_utf8(normalized).unwrap(), "result $PROJECT");
}

#[test]
fn fake_tool_reports_typed_version_without_a_shell() {
    assert_eq!(parse_version(b"Kani Rust Verifier 0.67.0\n", b"").unwrap(), "0.67.0");
}

#[test]
fn version_falls_back_to_stderr_and_rejects_odd_tokens() {
    assert_eq!(parse_version(b"", b"kani 1.2\n").unwrap(), "1.2");
    assert!(matches!(
        parse_version(b"no version here", b""),
        Err(AdapterError::ToolOutput(_))
    ));
    let error = parse_version(b"kani 1.2-beta", b"").unwrap_err();
    assert_eq!(error.message(), "tool output was invalid: unsupported Kani version token `1.2-beta`");
    assert!(parse_version(&[0xff, 0xfe], b"").is_err());
}

#[test]
fn metadata_rejects_contracts_versions_and_bad_harnesses() {
    let mut wrong_version = kani_metadata(&["crate::h"]);
    wrong_version.file_version = "0.2".to_owned();
    assert!(parse_kani_inventory(&wrong_version).is_err());
    let mut contracts = kani_metadata(&["crate::h"]);
    contracts.totals.contract_harnesses = 1;
    assert!(parse_kani_inventory(&contracts).is_err());
    assert!(parse_kani_inventory(&kani_metadata(&["crate::h", "crate::h"])).is_err());
    assert!(parse_kani_inventory(&kani_metadata(&["bad name"])).is_err());
    let mut unsafe_source = kani_metadata(&["crate::h"]);
    unsafe_source.standard_harnesses[0].0 = "../lib.rs".to_owned();
    assert!(parse_kani_inventory(&unsafe_source).is_err());
}

#[test]
fn paths_symbols_and_exclusions() {
    assert!(validate_relative_path("../secret").is_err());
    assert!(validate_relative_path("/absolute").is_err());
    assert!(validate_relative_path("src/lib.rs").is_ok());
    assert!(validate_metadata_path("./src/lib.rs").is_ok());
    assert!(safe_symbol("crate::module::harness"));
    assert!(!safe_symbol("crate::h;rm"));
    assert!(should_exclude("target"));
    assert!(should_exclude("node_modules"));
    assert!(!should_exclude("src"));
}

#[test]
fn timing_lines_are_normalized() {
    assert_eq!(
        normalize_timing_line("test result: ok; finished in 0.42s"),
        "test result: ok; finished in <TIME>"
    );
    assert_eq!(normalize_timing_line("Verification Time: 1.5s"), "Verification Time: <TIME>");
    assert_eq!(normalize_timing_line("VERIFICATION:- SUCCESSFUL"), "VERIFICATION:- SUCCESSFUL");
}

#[test]
fn kani_error_codes_are_stable() {
    assert_eq!(AdapterError::Request("x".to_owned()).code(), "PB-KANI-1003");
    assert_eq!(AdapterError::Timeout(5).code(), "PB-KANI-1002");
    assert_eq!(AdapterError::Internal("x".to_owned()).diagnostic().code, "PB-KANI-1099");
}

#[test]
fn kani_rejects_evidence_kind_relabeling() {
    let mut unit = evidence_unit();
    assert!(validate_evidence_unit(&unit).is_ok());
    unit.kind = "source-refinement".to_owned();
    assert!(validate_evidence_unit(&unit).is_err());
}

#[test]
fn evidence_units_need_unique_lists_and_budgets() {
    let mut repeated = evidence_unit();
    repeated.claims = strings(&["A-ONE", "A-ONE"]);
    assert_eq!(
        validate_evidence_unit(&repeated).unwrap_err(),
        AdapterError::Unit("claims contains duplicates".to_owned())
    );
    let mut no_time = evidence_unit();
    no_time.resource_budget.time_seconds = 0;
    assert_eq!(
        validate_evidence_unit(&no_time).unwrap_err(),
        AdapterError::Unit("resource budgets must all be non-zero".to_owned())
    );
}

#[test]
fn model_units_must_agree_with_their_evidence() {
    let model = model_unit("safe-package", &["crate::one", "crate::two"], "cadical", 7);
    assert!(validate_model_unit(&evidence_unit(), &model).is_ok());
    let mut other_package = evidence_unit();
    other_package.package = Some("other".to_owned());
    assert!(validate_model_unit(&other_package, &model).is_err());
    let mut other_domain = evidence_unit();
    other_domain.bounded_domain = Some(BoundedDomain { cardinality: 3, ..domain() });
    assert!(validate_model_unit(&other_domain, &model).is_err());
    let zero = model_unit("safe-package", &["crate::one", "crate::two"], "cadical", 0);
    assert_eq!(
        validate_model_unit(&evidence_unit(), &zero).unwrap_err(),
        AdapterError::Unit("package, solver, and unwind are invalid".to_owned())
    );
    let mut bad = evidence_unit();
    bad.targets = strings(&["bad name"]);
    bad.expected_inventory = strings(&["bad name"]);
    let bad_model = model_unit("safe-package", &["bad name"], "cadical", 1);
    assert_eq!(
        validate_model_unit(&bad, &bad_model).unwrap_err(),
        AdapterError::Unit("invalid harness name `bad name`".to_owned())
    );
}
