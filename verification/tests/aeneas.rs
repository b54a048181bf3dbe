use proofbound_adapter::audit::ResourceBudget;
use proofbound_adapter::translation::{
    translation_report_inventory, TranslationFunction, TranslationReport, validate_evidence_unit, validate_toolchain_lock, validate_toolchain_pins, validate_translation_unit,
    ToolchainLock, TranslationEvidence,
};
use proofbound_adapter::aeneas::{
    build_aeneas_args, build_charon_args, group_start_symbols, ImportMapping, ImportMappingMode,
    TranslationUnit, exact_set, logicalize_temp_path, normalize_process_output,
    normalize_timing_line, sorted_unique, validate_relative_path, AdapterError,
};
use proofbound_adapter::files::{first_difference, Difference, FileMap};
use proofbound_adapter::lean_scan::lean_token_locations;
use proofbound_adapter::normalize::normalize_text_bytes;

#[test]
fn normalization_is_deterministic_and_reports_first_difference() {
    assert_eq!(normalize_text_bytes(b"a  \r\n\r\n"), b"a\n");
    let mut left = FileMap::new();
    left.insert("x", b"one".to_vec());
    let mut right = FileMap::new();
    right.insert("x", b"two".to_vec());
    assert!(first_difference(&left, &right).message().contains("byte 0"));
}

#[test]
fn lean_scanner_ignores_comments_and_strings() {
    let source = "-- axiom hidden\n/- sorry nested /- axiom -/ -/\n#check \"sorry\"\naxiom real : True\nby sorry\n";
    assert_eq!(lean_token_locations(source, "axiom"), [4]);
    assert_eq!(lean_token_locations(source, "sorry"), [5]);
}

#[test]
fn first_difference_names_missing_paths_in_path_order() {
    let mut left = FileMap::new();
    left.insert("b", b"same".to_vec());
    left.insert("a", b"same".to_vec());
    let mut right = FileMap::new();
    right.insert("b", b"same".to_vec());
    assert_eq!(
        first_difference(&left, &right),
        Difference::MissingSecond("a".chars().collect())
    );
    assert_eq!(
        first_difference(&right, &left).message(),
        "missing first-run artifact `a`"
    );
    assert_eq!(first_difference(&left, &left), Difference::Unknown);
    assert_eq!(first_difference(&left, &left).message(), "unknown location");
}

#[test]
fn first_difference_reports_the_first_differing_byte() {
    let mut left = FileMap::new();
    left.insert("x", b"abcd".to_vec());
    let mut right = FileMap::new();
    right.insert("x", b"abXd".to_vec());
    assert_eq!(first_difference(&left, &right).message(), "artifact `x` byte 2");
    let mut prefix = FileMap::new();
    prefix.insert("x", b"ab".to_vec());
    assert_eq!(first_difference(&left, &prefix).message(), "artifact `x` byte 2");
}

#[test]
fn file_map_insert_replaces_existing_paths() {
    let mut map = FileMap::new();
    map.insert("x", b"one".to_vec());
    map.insert("x", b"two".to_vec());
    assert_eq!(map.len(), 1);
    let mut other = FileMap::new();
    other.insert("x", b"two".to_vec());
    assert_eq!(first_difference(&map, &other), Difference::Unknown);
}

#[test]
fn text_normalization_trims_lines_and_keeps_one_final_newline() {
    assert_eq!(normalize_text_bytes(b""), b"");
    assert_eq!(normalize_text_bytes(b"\n\n  \n"), b"");
    assert_eq!(normalize_text_bytes(b"x \t\ny\r\n"), b"x\ny\n");
    assert_eq!(normalize_text_bytes(b"\nx"), b"\nx\n");
}

#[test]
fn scanner_counts_lines_inside_strings_and_ignores_escapes() {
    let source = "\"a\\\"axiom\nb\" axiom\naxiomatic axiom";
    assert_eq!(lean_token_locations(source, "axiom"), [2, 3]);
    assert!(lean_token_locations("", "axiom").is_empty());
}

#[test]
fn aeneas_timing_and_temp_paths_are_logicalized() {
    assert_eq!(
        normalize_timing_line("translation completed in 3.2s"),
        "translation completed in <TIME>"
    );
    assert_eq!(normalize_timing_line("plain"), "plain");
    assert_eq!(
        logicalize_temp_path("/tmp/proofbound-aeneas-abc/workspace/project/src/lib.rs"),
        "$PROJECT/src/lib.rs"
    );
    assert_eq!(
        logicalize_temp_path("/tmp/proofbound-aeneas-abc/workspace/run-1/llbc"),
        "$PROOFBOUND_WORK/run-1/llbc"
    );
    assert_eq!(logicalize_temp_path("/tmp/proofbound-aeneas-abc"), "$PROOFBOUND_WORK");
    assert_eq!(logicalize_temp_path("/usr/bin/charon"), "/usr/bin/charon");
}

#[test]
fn aeneas_process_output_drops_progress_and_roots() {
    let normalized = normalize_process_output(
        b"/shadow/src ok\nFinished `dev` profile in 1.0s\n",
        b"",
        "/shadow",
        "/project",
    );
    assert_eq!(String::from_utf8(normalized).unwrap(), "$PROJECT/src ok");
}

#[test]
fn sorted_unique_sorts_and_rejects_duplicates() {
    let sorted = sorted_unique(vec!["b".to_owned(), "a".to_owned()], "symbols").unwrap();
    assert_eq!(sorted, ["a", "b"]);
    let error = sorted_unique(vec!["a".to_owned(), "a".to_owned()], "symbols").unwrap_err();
    assert_eq!(error, AdapterError::Inventory("symbols contains duplicates".to_owned()));
    assert_eq!(error.diagnostic().code, "PB-AENEAS-1007");
}

#[test]
fn exact_set_reports_missing_and_extra() {
    let error = exact_set(
        "translated start symbols",
        &vec!["k::a".to_owned(), "k::b".to_owned()],
        &vec!["k::b".to_owned(), "k::c".to_owned()],
    )
    .unwrap_err();
    assert_eq!(
        error.message(),
        "translation inventory is invalid: translated start symbols mismatch; missing=[\"k::a\"], extra=[\"k::c\"]"
    );
    assert!(exact_set("x", &vec!["a".to_owned()], &vec!["a".to_owned()]).is_ok());
}

#[test]
fn aeneas_unsafe_paths_carry_their_path() {
    let error = validate_relative_path("../x").unwrap_err();
    let diagnostic = error.diagnostic();
    assert_eq!(diagnostic.code, "PB-AENEAS-1006");
    assert_eq!(diagnostic.path.as_deref(), Some("../x"));
    assert_eq!(diagnostic.message, "unsafe path `../x`");
    assert!(validate_relative_path("lean/Generated/Demo").is_ok());
    assert!(validate_relative_path("./lean").is_err());
    assert!(validate_relative_path("/abs").is_err());
    assert!(validate_relative_path("").is_err());
    assert!(validate_relative_path("a//b/./c/").is_ok());
}

#[test]
fn aeneas_arguments_are_typed() {
    assert_eq!(
        build_aeneas_args("/run/demo.llbc", "/run/generated"),
        [
            "-backend",
            "lean",
            "-split-files",
            "-emit-json",
            "-warnings-as-errors",
            "-dest",
            "/run/generated",
            "/run/demo.llbc"
        ]
    );
}

fn budget() -> ResourceBudget {
    ResourceBudget { time_seconds: 60, disk_bytes: 1000000, memory_bytes: 1000000 }
}

fn sample_translation() -> TranslationUnit {
    TranslationUnit {
        schema: "proofbound-translation-unit/1".to_owned(),
        adapter: "charon-aeneas".to_owned(),
        packages: vec!["demo-kernel".to_owned()],
        start_from: vec!["demo_kernel::decide".to_owned()],
        opaque: vec!["external_crate".to_owned()],
        included: vec!["external_crate::Type".to_owned()],
        claims: vec!["DEMO-ONE".to_owned()],
        generated_dir: "lean/Generated/Demo".to_owned(),
        handwritten_refinement: "lean/Demo/Refinement.lean".to_owned(),
        determinism_runs: 2,
        determinism_normalization: "pretty-printed-llbc/1".to_owned(),
        forbid_generated_axioms: true,
        external_bridges: Vec::new(),
        template_axioms: Vec::new(),
        warning_inventory: Vec::new(),
        import_mapping: Some(ImportMapping {
            mode: ImportMappingMode::ExternalSourceRoot,
            source_roots: vec!["lean".to_owned()],
            rewrite_digest: None,
        }),
        resource_budget: budget(),
    }
}

fn sample_evidence() -> TranslationEvidence {
    TranslationEvidence {
        schema: "proofbound-evidence-unit/1".to_owned(),
        adapter: "charon-aeneas".to_owned(),
        operation_kind: "translation".to_owned(),
        claims: vec!["DEMO-ONE".to_owned()],
        targets: vec!["demo_kernel::decide".to_owned()],
        inputs: vec!["Cargo.toml".to_owned()],
        outputs: Vec::new(),
        environment_allowlist: vec!["PATH".to_owned()],
        refinement_theorem: Some("Demo.refines".to_owned()),
        resource_budget: budget(),
    }
}

fn lock() -> ToolchainLock {
    ToolchainLock {
        schema: "proofbound-translation-toolchain/1".to_owned(),
        charon_revision: "abc123".to_owned(),
        aeneas_revision: "def456".to_owned(),
        rust_toolchain: "1.94.0".to_owned(),
        lean_toolchain: "v4.33.0".to_owned(),
    }
}

#[test]
fn translation_manifests_validate_and_name_required_paths() {
    assert!(validate_evidence_unit(&sample_evidence()).is_ok());
    assert_eq!(
        validate_translation_unit(&sample_evidence(), &sample_translation()).unwrap(),
        ["lean/Demo/Refinement.lean", "lean"]
    );
    let mut rewrite = sample_translation();
    rewrite.import_mapping = Some(ImportMapping {
        mode: ImportMappingMode::AuditedRewrite,
        source_roots: vec!["lean".to_owned()],
        rewrite_digest: Some(format!("sha256:{}", "a".repeat(64))),
    });
    assert_eq!(
        validate_translation_unit(&sample_evidence(), &rewrite).unwrap(),
        ["lean/Demo/Refinement.lean"]
    );
}

#[test]
fn translation_manifests_reject_each_rule() {
    let mut outputs = sample_evidence();
    outputs.outputs = vec!["x".to_owned()];
    assert_eq!(
        validate_evidence_unit(&outputs).unwrap_err(),
        AdapterError::Unit("translation outputs are owned by the translation manifest, not the evidence unit".to_owned())
    );
    let mut disagree = sample_translation();
    disagree.claims = vec!["OTHER-ONE".to_owned()];
    assert_eq!(
        validate_translation_unit(&sample_evidence(), &disagree).unwrap_err(),
        AdapterError::Unit("evidence and translation manifests disagree on targets, claims, or budget".to_owned())
    );
    let mut top = sample_translation();
    top.generated_dir = "lean".to_owned();
    top.handwritten_refinement = "other/Refinement.lean".to_owned();
    assert_eq!(
        validate_translation_unit(&sample_evidence(), &top).unwrap_err(),
        AdapterError::Unit("generated_dir must not be a top-level project path".to_owned())
    );
    let mut inside = sample_translation();
    inside.handwritten_refinement = "lean/Generated/Demo/Refinement.lean".to_owned();
    assert_eq!(
        validate_translation_unit(&sample_evidence(), &inside).unwrap_err(),
        AdapterError::Unit("handwritten refinement must remain outside generated_dir".to_owned())
    );
    let mut escape = sample_translation();
    escape.generated_dir = "../out".to_owned();
    assert_eq!(
        validate_translation_unit(&sample_evidence(), &escape).unwrap_err(),
        AdapterError::UnsafePath("../out".to_owned())
    );
    let mut symbol = sample_translation();
    symbol.opaque = vec!["bad symbol".to_owned()];
    assert_eq!(
        validate_translation_unit(&sample_evidence(), &symbol).unwrap_err(),
        AdapterError::Unit("invalid translation symbol `bad symbol`".to_owned())
    );
    let mut unmapped = sample_translation();
    unmapped.import_mapping = None;
    assert_eq!(
        validate_translation_unit(&sample_evidence(), &unmapped).unwrap_err(),
        AdapterError::Unit("translation unit requires an explicit import_mapping".to_owned())
    );
}

#[test]
fn unavailable_lock_fails_explicitly() {
    let mut unavailable = lock();
    unavailable.charon_revision = "unavailable-until-pinned-update".to_owned();
    let error = validate_toolchain_pins(&unavailable).unwrap_err();
    assert!(matches!(error, AdapterError::Toolchain(_)));
    assert_eq!(error.diagnostic().code, "PB-AENEAS-1002");
    assert_eq!(
        error,
        AdapterError::Toolchain("Charon revision `unavailable-until-pinned-update` is not a concrete pin".to_owned())
    );
}

#[test]
fn toolchain_files_must_match_the_lock() {
    let rust = b"[toolchain]\nchannel = \"1.94.0\"\n";
    assert!(validate_toolchain_lock(&lock(), rust, b"v4.33.0\n").is_ok());
    assert_eq!(
        validate_toolchain_lock(&lock(), rust, b"v4.0.0\n").unwrap_err(),
        AdapterError::Toolchain("toolchain lock expects Rust `1.94.0` / Lean `v4.33.0`, found `1.94.0` / `v4.0.0`".to_owned())
    );
    assert_eq!(
        validate_toolchain_lock(&lock(), b"[other]\n", b"v4.33.0").unwrap_err(),
        AdapterError::Toolchain("rust-toolchain.toml has no toolchain.channel".to_owned())
    );
    assert!(matches!(
        validate_toolchain_lock(&lock(), b"not = = toml", b"v4.33.0"),
        Err(AdapterError::Toolchain(_))
    ));
    assert!(validate_toolchain_lock(&lock(), &[0xff], b"v4.33.0").is_err());
}

#[test]
fn typed_argv_is_manifest_driven_and_has_no_shell() {
    let unit = sample_translation();
    let args = build_charon_args(&unit, &unit.start_from, "/run/demo.llbc", "/shadow/Cargo.toml");
    assert_eq!(&args[..5], ["cargo", "--preset", "aeneas", "--start-from", "demo_kernel::decide"]);
    assert!(args.windows(2).any(|pair| pair == ["--opaque", "external_crate"]));
    assert!(args.windows(2).any(|pair| pair == ["--manifest-path", "/shadow/Cargo.toml"]));
    assert!(!args.iter().any(|arg| arg.contains(';') || arg.contains("$(")));
}

#[test]
fn charon_arguments_are_exact() {
    let unit = sample_translation();
    let starts = vec!["a::x".to_owned(), "b::y".to_owned()];
    assert_eq!(
        build_charon_args(&unit, &starts, "/d.llbc", "/m/Cargo.toml"),
        [
            "cargo", "--preset", "aeneas", "--start-from", "a::x,b::y", "--error-on-warnings",
            "--dest-file", "/d.llbc", "--format", "json", "--opaque", "external_crate",
            "--include", "external_crate::Type", "--", "--manifest-path", "/m/Cargo.toml"
        ]
    );
}

#[test]
fn start_symbols_group_by_package_in_name_order() {
    let packages = vec!["z-pkg".to_owned(), "a-pkg".to_owned()];
    let starts = vec!["z_pkg::one".to_owned(), "a_pkg::two".to_owned(), "z_pkg::three".to_owned()];
    let groups = group_start_symbols(&packages, &starts).unwrap();
    assert_eq!(
        groups,
        vec![
            ("a-pkg".to_owned(), vec!["a_pkg::two".to_owned()]),
            ("z-pkg".to_owned(), vec!["z_pkg::one".to_owned(), "z_pkg::three".to_owned()]),
        ]
    );
}

#[test]
fn start_symbols_must_name_exactly_one_package() {
    let packages = vec!["demo".to_owned()];
    let error = group_start_symbols(&packages, &vec!["other::f".to_owned()]).unwrap_err();
    assert_eq!(
        error,
        AdapterError::Unit("start symbol `other::f` maps to 0 configured packages".to_owned())
    );
    let twice = vec!["a-b".to_owned(), "a_b".to_owned()];
    let error = group_start_symbols(&twice, &vec!["a_b::f".to_owned()]).unwrap_err();
    assert_eq!(
        error,
        AdapterError::Unit("start symbol `a_b::f` maps to 2 configured packages".to_owned())
    );
    let idle = vec!["demo".to_owned(), "unused".to_owned()];
    let error = group_start_symbols(&idle, &vec!["demo::f".to_owned()]).unwrap_err();
    assert_eq!(
        error,
        AdapterError::Unit("package `unused` has no start_from symbol".to_owned())
    );
    assert_eq!(error.diagnostic().code, "PB-AENEAS-1005");
}

fn report(crate_name: &str, functions: Vec<(&str, bool, bool)>) -> TranslationReport {
    TranslationReport {
        aeneas_version: "def456".to_owned(),
        charon_version: "abc123".to_owned(),
        crate_name: crate_name.to_owned(),
        functions: functions
            .into_iter()
            .map(|(name, is_local, is_opaque)| TranslationFunction {
                rust_name: name.to_owned(),
                is_local,
                is_opaque,
            })
            .collect(),
    }
}

#[test]
fn translation_reports_yield_the_start_symbols() {
    let unit = sample_translation();
    let files = vec![(
        "demo/translation.json".to_owned(),
        Ok(report(
            "demo_kernel",
            vec![("demo_kernel::decide", true, false), ("external_crate", true, true), ("core::x", false, true)],
        )),
    )];
    assert_eq!(translation_report_inventory(&files, &unit, &lock()).unwrap(), ["demo_kernel::decide"]);
}

#[test]
fn translation_reports_reject_each_rule() {
    let unit = sample_translation();
    let parse = vec![("a/translation.json".to_owned(), Err("expected value".to_owned()))];
    assert_eq!(
        translation_report_inventory(&parse, &unit, &lock()).unwrap_err(),
        AdapterError::Inventory("a/translation.json: expected value".to_owned())
    );
    let mut old = report("demo_kernel", vec![]);
    old.aeneas_version = "000".to_owned();
    let stale = vec![("a/translation.json".to_owned(), Ok(old))];
    assert_eq!(
        translation_report_inventory(&stale, &unit, &lock()).unwrap_err(),
        AdapterError::Toolchain("normalized translation report `a/translation.json` has unpinned tool versions".to_owned())
    );
    let stranger = vec![("a/translation.json".to_owned(), Ok(report("other", vec![])))];
    assert_eq!(
        translation_report_inventory(&stranger, &unit, &lock()).unwrap_err(),
        AdapterError::Inventory("translation report names unexpected crate `other`".to_owned())
    );
    assert_eq!(
        translation_report_inventory(&Vec::new(), &unit, &lock()).unwrap_err(),
        AdapterError::Inventory("expected 1 translation reports, found 0".to_owned())
    );
    let hidden = vec![(
        "a/translation.json".to_owned(),
        Ok(report("demo-kernel", vec![("demo_kernel::secret", true, true)])),
    )];
    assert_eq!(
        translation_report_inventory(&hidden, &unit, &lock()).unwrap_err(),
        AdapterError::Inventory("unregistered opaque local function `demo_kernel::secret`".to_owned())
    );
    let absent = vec![(
        "a/translation.json".to_owned(),
        Ok(report("demo_kernel", vec![("demo_kernel::other", true, false)])),
    )];
    assert_eq!(
        translation_report_inventory(&absent, &unit, &lock()).unwrap_err(),
        AdapterError::Inventory("start_from symbol `demo_kernel::decide` is absent or opaque in translation reports".to_owned())
    );
}

#[test]
fn normalizing_twice_changes_nothing() {
    for input in [&b"a  \r\n\r\nb\t\n\n\n"[..], b"", b"\n\n", b"x\r\r\ny", b"\xff tail  "] {
        let once = normalize_text_bytes(input);
        assert_eq!(normalize_text_bytes(&once), once);
        assert!(once.is_empty() || (once.ends_with(b"\n") && !once.ends_with(b"\n\n")));
    }
}

#[test]
fn token_lines_come_in_source_order() {
    let lines = lean_token_locations("axiom a\n-- axiom\n\"axiom\" axiom b axiom\n/- axiom -/\naxiom", "axiom");
    assert_eq!(lines, [1, 3, 3, 5]);
}
