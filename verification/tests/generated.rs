use proofbound_adapter::aeneas::{AdapterError, ImportMapping, ImportMappingMode, TranslationUnit};
use proofbound_adapter::audit::ResourceBudget;
use proofbound_adapter::digest::sha256_bytes;
use proofbound_adapter::files::FileMap;
use proofbound_adapter::generated::{
    audit_generated_inventory, committed_file_bytes, compare_committed_generated, validate_bridge, validate_external_boundaries, validate_template_declaration,
    ExternalBridge, TemplateAxiom, WarningInventory,
};

fn sample_translation() -> TranslationUnit {
    TranslationUnit {
        schema: "proofbound-translation-unit/1".to_owned(),
        adapter: "charon-aeneas".to_owned(),
        packages: vec!["demo-kernel".to_owned()],
        start_from: vec!["demo_kernel::decide".to_owned()],
        opaque: vec!["external_crate".to_owned()],
        included: vec!["external_crate::Type".to_owned()],
        claims: vec!["DEMO-ONE".to_owned()],
        generated_dir: "lean/Generated/Demo".to_owned(),
        handwritten_refinement: "lean/Demo/Refinement.lean".to_owned(),
        determinism_runs: 2,
        determinism_normalization: "pretty-printed-llbc/1".to_owned(),
        forbid_generated_axioms: true,
        external_bridges: Vec::new(),
        template_axioms: Vec::new(),
        warning_inventory: Vec::new(),
        import_mapping: Some(ImportMapping {
            mode: ImportMappingMode::ExternalSourceRoot,
            source_roots: vec!["lean".to_owned()],
            rewrite_digest: None,
        }),
        resource_budget: ResourceBudget { time_seconds: 60, disk_bytes: 1000000, memory_bytes: 1000000 },
    }
}

fn generated_message(result: Result<(), AdapterError>) -> String {
    match result {
        Err(AdapterError::Generated(message)) => message,
        other => panic!("expected a generated-artifact failure, got {other:?}"),
    }
}

fn unit_message(result: Result<(), AdapterError>) -> String {
    match result {
        Err(AdapterError::Unit(message)) => message,
        other => panic!("expected a translation-unit failure, got {other:?}"),
    }
}

#[test]
fn generated_audit_enforces_axioms_templates_and_warnings() {
    let mut unit = sample_translation();
    unit.template_axioms.push(TemplateAxiom {
        file: "lean/Generated/Demo/Templates.lean".to_owned(),
        count: 1,
        compiled: false,
    });
    unit.warning_inventory.push(WarningInventory {
        artifact: "lean/Generated/Demo/Funs.lean".to_owned(),
        line: 1,
        kind: "upstream-sorry".to_owned(),
    });
    let mut generated = FileMap::new();
    generated.insert("Templates.lean", b"axiom placeholder : True\n".to_vec());
    generated.insert("Funs.lean", b"by sorry\n".to_vec());
    assert!(audit_generated_inventory(&generated, &unit).is_ok());
    let mut bad = FileMap::new();
    bad.insert("Funs.lean", b"axiom surprise : True\n".to_vec());
    assert!(audit_generated_inventory(&bad, &sample_translation()).is_err());
}

#[test]
fn bridge_must_be_outside_generator_and_byte_pinned() {
    let digest = sha256_bytes(b"def b := true\n");
    let bridge = ExternalBridge {
        file: "lean/Bridges/B.lean".to_owned(),
        module: Some("Bridges.B".to_owned()),
        reviewed_sha256: digest,
    };
    assert!(validate_bridge("lean/Generated", &bridge, Ok(b"def b := true\n".to_vec())).is_ok());
    let inside = ExternalBridge { file: "lean/Generated/B.lean".to_owned(), ..bridge };
    assert!(validate_bridge("lean/Generated", &inside, Ok(b"def b := true\n".to_vec())).is_err());
}

#[test]
fn sha256_bytes_is_the_prefixed_lowercase_digest() {
    assert_eq!(
        sha256_bytes(b"abc"),
        "sha256:ba7816bf8f01cfea414140de5dae2223b00361a396177a9cb410ff61f20015ad"
    );
}

#[test]
fn unregistered_axioms_are_counted() {
    let mut generated = FileMap::new();
    generated.insert("Funs.lean", b"axiom a : True\naxiom b : True\n".to_vec());
    assert_eq!(
        generated_message(audit_generated_inventory(&generated, &sample_translation())),
        "generated Lean `Funs.lean` contains 2 unregistered axiom declarations"
    );
}

#[test]
fn template_axiom_counts_must_match() {
    let mut unit = sample_translation();
    unit.template_axioms.push(TemplateAxiom {
        file: "lean/Generated/Demo/T.lean".to_owned(),
        count: 2,
        compiled: false,
    });
    let mut generated = FileMap::new();
    generated.insert("T.lean", b"axiom a : True\n".to_vec());
    assert_eq!(
        generated_message(audit_generated_inventory(&generated, &unit)),
        "template `T.lean` axiom count is 1, expected 2"
    );
}

#[test]
fn the_least_missing_template_is_named() {
    let mut unit = sample_translation();
    for file in ["lean/Generated/Demo/Z.lean", "lean/Generated/Demo/B.lean", "lean/Generated/Demo/A.lean"] {
        unit.template_axioms.push(TemplateAxiom { file: file.to_owned(), count: 0, compiled: false });
    }
    let mut generated = FileMap::new();
    generated.insert("A.lean", b"def a := 1\n".to_vec());
    assert_eq!(
        generated_message(audit_generated_inventory(&generated, &unit)),
        "declared template `B.lean` was not generated"
    );
}

#[test]
fn warning_inventory_differences_are_listed_in_order() {
    let mut unit = sample_translation();
    unit.warning_inventory.push(WarningInventory {
        artifact: "lean/Generated/Demo/Funs.lean".to_owned(),
        line: 2,
        kind: "upstream-sorry".to_owned(),
    });
    let mut generated = FileMap::new();
    generated.insert("Funs.lean", b"by sorry\nsorryAx\n".to_vec());
    generated.insert("Notes.txt", b"sorry axiom\n".to_vec());
    assert_eq!(
        generated_message(audit_generated_inventory(&generated, &unit)),
        "warning inventory mismatch; missing=[(\"Funs.lean\", 2, \"upstream-sorry\")], extra=[(\"Funs.lean\", 1, \"upstream-sorry\"), (\"Funs.lean\", 2, \"upstream-sorry-ax\")]"
    );
}

#[test]
fn generated_lean_must_be_utf8() {
    let mut generated = FileMap::new();
    generated.insert("Bad.lean", vec![0xff, 0x00]);
    let message = generated_message(audit_generated_inventory(&generated, &sample_translation()));
    assert!(message.starts_with("generated Lean `Bad.lean` is not UTF-8: "));
}

#[test]
fn an_unsafe_generated_directory_is_named() {
    let mut unit = sample_translation();
    unit.generated_dir = "../escape".to_owned();
    let generated = FileMap::new();
    assert_eq!(
        audit_generated_inventory(&generated, &unit),
        Err(AdapterError::UnsafePath("../escape".to_owned()))
    );
}

fn pinned_bridge(file: &str, module: Option<&str>, bytes: &[u8]) -> ExternalBridge {
    ExternalBridge {
        file: file.to_owned(),
        module: module.map(str::to_owned),
        reviewed_sha256: sha256_bytes(bytes),
    }
}

#[test]
fn boundaries_accept_sound_declarations() {
    let mut unit = sample_translation();
    unit.external_bridges.push(pinned_bridge("lean/Bridges/A.lean", Some("Bridges.A"), b"a"));
    unit.template_axioms.push(TemplateAxiom {
        file: "lean/Generated/Demo/T.lean".to_owned(),
        count: 1,
        compiled: false,
    });
    unit.warning_inventory.push(WarningInventory {
        artifact: "lean/Generated/Demo/F.lean".to_owned(),
        line: 3,
        kind: "upstream-sorry".to_owned(),
    });
    assert!(validate_external_boundaries(&unit, vec![Ok(b"a".to_vec())]).is_ok());
}

#[test]
fn boundaries_reject_repeated_and_unpinned_bridges() {
    let mut unit = sample_translation();
    unit.external_bridges.push(pinned_bridge("lean/Bridges/A.lean", None, b"a"));
    unit.external_bridges.push(pinned_bridge("lean/Bridges/A.lean", None, b"a"));
    assert_eq!(
        unit_message(validate_external_boundaries(&unit, vec![Ok(b"a".to_vec()), Ok(b"a".to_vec())])),
        "duplicate external bridge `lean/Bridges/A.lean`"
    );

    let mut unit = sample_translation();
    unit.external_bridges.push(pinned_bridge("lean/Bridges/A.lean", Some("M"), b"a"));
    unit.external_bridges.push(pinned_bridge("lean/Bridges/B.lean", Some("M"), b"b"));
    assert_eq!(
        unit_message(validate_external_boundaries(&unit, vec![Ok(b"a".to_vec()), Ok(b"b".to_vec())])),
        "invalid or duplicate bridge module `M`"
    );

    let mut unit = sample_translation();
    unit.external_bridges.push(pinned_bridge("lean/Bridges/A.lean", Some("bad module"), b"a"));
    assert_eq!(
        unit_message(validate_external_boundaries(&unit, vec![Ok(b"a".to_vec())])),
        "invalid or duplicate bridge module `bad module`"
    );

    let mut unit = sample_translation();
    unit.external_bridges.push(ExternalBridge {
        file: "lean/Bridges/A.lean".to_owned(),
        module: None,
        reviewed_sha256: "sha256:abc".to_owned(),
    });
    assert_eq!(
        unit_message(validate_external_boundaries(&unit, vec![Ok(b"a".to_vec())])),
        "bridge `lean/Bridges/A.lean` has an invalid digest"
    );

    let mut unit = sample_translation();
    unit.external_bridges.push(pinned_bridge("lean/Bridges/A.lean", None, b"a"));
    let found = sha256_bytes(b"b");
    assert_eq!(
        generated_message(validate_external_boundaries(&unit, vec![Ok(b"b".to_vec())])),
        format!("bridge `lean/Bridges/A.lean` digest mismatch: expected {}, found {found}", sha256_bytes(b"a"))
    );

    let mut unit = sample_translation();
    unit.external_bridges.push(pinned_bridge("lean/Bridges/A.lean", None, b"a"));
    let failure = AdapterError::Io("missing".to_owned());
    assert_eq!(validate_external_boundaries(&unit, vec![Err(failure.clone())]), Err(failure));
}

#[test]
fn boundaries_reject_misplaced_templates_and_malformed_warnings() {
    let template = TemplateAxiom { file: "lean/Other/T.lean".to_owned(), count: 1, compiled: false };
    assert_eq!(
        unit_message(validate_template_declaration("lean/Generated/Demo", &template)),
        "template `lean/Other/T.lean` must be uncompiled and inside generated_dir"
    );
    let compiled = TemplateAxiom { file: "lean/Generated/Demo/T.lean".to_owned(), count: 1, compiled: true };
    assert!(validate_template_declaration("lean/Generated/Demo", &compiled).is_err());

    let mut unit = sample_translation();
    for _ in 0..2 {
        unit.template_axioms.push(TemplateAxiom {
            file: "lean/Generated/Demo/T.lean".to_owned(),
            count: 1,
            compiled: false,
        });
    }
    assert_eq!(
        unit_message(validate_external_boundaries(&unit, Vec::new())),
        "duplicate template axiom file `lean/Generated/Demo/T.lean`"
    );

    let mut unit = sample_translation();
    unit.warning_inventory.push(WarningInventory {
        artifact: "lean/Generated/Demo/F.lean".to_owned(),
        line: 0,
        kind: "upstream-sorry".to_owned(),
    });
    assert_eq!(
        unit_message(validate_external_boundaries(&unit, Vec::new())),
        "warning `lean/Generated/Demo/F.lean` is outside generated_dir or malformed"
    );

    let mut unit = sample_translation();
    for _ in 0..2 {
        unit.warning_inventory.push(WarningInventory {
            artifact: "lean/Generated/Demo/F.lean".to_owned(),
            line: 1,
            kind: "upstream-sorry".to_owned(),
        });
    }
    assert_eq!(
        unit_message(validate_external_boundaries(&unit, Vec::new())),
        "duplicate warning inventory entry"
    );

    let mut unit = sample_translation();
    unit.warning_inventory.push(WarningInventory {
        artifact: "/abs/F.lean".to_owned(),
        line: 1,
        kind: "upstream-sorry".to_owned(),
    });
    assert_eq!(
        validate_external_boundaries(&unit, Vec::new()),
        Err(AdapterError::UnsafePath("/abs/F.lean".to_owned()))
    );
}

#[test]
fn committed_generated_drift_is_named_by_path() {
    let mut produced = FileMap::new();
    produced.insert("A.lean", b"a".to_vec());
    produced.insert("B.lean", b"b".to_vec());
    produced.insert("C.lean", b"c".to_vec());
    let mut committed = FileMap::new();
    committed.insert("C.lean", b"c".to_vec());
    committed.insert("B.lean", b"old".to_vec());
    committed.insert("Z.lean", b"z".to_vec());
    assert_eq!(
        generated_message(compare_committed_generated(&committed, &produced)),
        "committed generated tree drifted; missing=[\"A.lean\"], extra=[\"Z.lean\"], changed=[\"B.lean\"]"
    );
    let mut same = FileMap::new();
    same.insert("C.lean", b"c".to_vec());
    same.insert("A.lean", b"a".to_vec());
    same.insert("B.lean", b"b".to_vec());
    assert!(compare_committed_generated(&same, &produced).is_ok());
}

#[test]
fn committed_json_is_compared_verbatim_and_text_is_normalized() {
    assert_eq!(committed_file_bytes("out/report.json", b"{ }  \r\n\n".to_vec()), b"{ }  \r\n\n");
    assert_eq!(committed_file_bytes("out/Funs.lean", b"def x := 1  \r\n\n".to_vec()), b"def x := 1\n");
    assert_eq!(committed_file_bytes("out/.json", b"x  \n".to_vec()), b"x\n");
}
