use proofbound_adapter::audit::{
    actual_inventory, expected_inventory, observe_audit, validate_output, validate_unit,
    verify_audit, verify_claim, AuditClaim, AuditOutput, EvaluationMode, LeanAdapterUnit,
    LeanEvidenceUnit, ResourceBudget,
};
use proofbound_adapter::json::{JsonNumber, JsonValue};
use proofbound_adapter::lean::{
    AuditExemption, DeclarationKind, ExpectedClaim, AUDIT_OUTPUT, AXIOM, CONFIGURATION, DECLARATION,
    EXPR_WIRE, INVENTORY, LEAN_ADAPTER_UNIT_SCHEMA, LEAN_AUDIT_SCHEMA, STATEMENT_DRIFT,
};
use proofbound_adapter::wire::{statement_digest, STATEMENT_ENCODING};

fn n(value: u64) -> JsonValue {
    JsonValue::Number(JsonNumber::PosInt(value))
}

fn arr(items: Vec<JsonValue>) -> JsonValue {
    JsonValue::Array(items)
}

fn wire() -> JsonValue {
    arr(vec![
        JsonValue::String(STATEMENT_ENCODING.to_owned()),
        arr(vec![n(5), n(0), arr(vec![n(1), arr(vec![n(0)])]), arr(vec![n(1), arr(vec![n(0)])])]),
    ])
}

fn evidence() -> LeanEvidenceUnit {
    LeanEvidenceUnit {
        schema: "proofbound-evidence-unit/1".to_owned(),
        id: "demo-theorem".to_owned(),
        adapter: "lean".to_owned(),
        kind: "theorem".to_owned(),
        operation_kind: "lean-audit".to_owned(),
        claims: vec!["DEMO-CLAIM-001".to_owned()],
        tier: 2,
        evaluation_mode: Some(EvaluationMode::Kernel),
        theorem: Some("Demo.claim".to_owned()),
        has_binding_mode: false,
        has_refinement_theorem: false,
        has_bounded_domain: false,
        has_package: false,
        has_manifest: false,
        has_inventory: false,
        has_checker: false,
        arguments: Vec::new(),
        targets: vec!["Demo.claim".to_owned()],
        paths: vec!["lean/Demo.lean".to_owned()],
        resource_budget: ResourceBudget { time_seconds: 10, disk_bytes: 1024, memory_bytes: 1024 },
        expected_inventory: vec!["Demo.claim".to_owned()],
        inputs: vec!["lean/Demo.lean".to_owned()],
        outputs: Vec::new(),
        assumptions: Vec::new(),
        premises: Vec::new(),
        environment_allowlist: Vec::new(),
    }
}

fn registered(expected_digest: Option<String>) -> ExpectedClaim {
    ExpectedClaim {
        claim_id: "DEMO-CLAIM-001".to_owned(),
        declaration: "Demo.claim".to_owned(),
        declaration_kind: DeclarationKind::Theorem,
        statement_sha256: expected_digest,
        foundational_axioms: Vec::new(),
        project_axioms: Vec::new(),
    }
}

fn unit(expected_digest: Option<String>) -> LeanAdapterUnit {
    LeanAdapterUnit {
        schema: LEAN_ADAPTER_UNIT_SCHEMA.to_owned(),
        evidence_unit: evidence(),
        claim_inventory: vec![registered(expected_digest)],
    }
}

fn claim() -> AuditClaim {
    AuditClaim {
        axioms: Vec::new(),
        claim_id: "DEMO-CLAIM-001".to_owned(),
        declaration: "Demo.claim".to_owned(),
        expr_wire: wire(),
        kind: DeclarationKind::Theorem,
        module: "Demo".to_owned(),
    }
}

fn output() -> AuditOutput {
    AuditOutput {
        schema: LEAN_AUDIT_SCHEMA.to_owned(),
        statement_encoding: STATEMENT_ENCODING.to_owned(),
        claims: vec![claim()],
        exemptions: vec![AuditExemption {
            declaration: "Demo.helper".to_owned(),
            module: "Demo".to_owned(),
            reason: "internal helper".to_owned(),
        }],
    }
}

/// The pin of a statement other than the audited one.
fn wrong() -> String {
    proofbound_adapter::digest::sha256_bytes(b"wrong")
}

#[test]
fn complete_inventory_and_digest_match_pass() {
    let audit = output();
    let digest = statement_digest(&audit.claims[0].expr_wire).unwrap();
    let pinned = format!("sha256:{}", digest.as_str());
    let verified = verify_audit(&unit(Some(pinned)), &audit, true).unwrap();
    assert_eq!(audit.claims[verified.target].declaration, "Demo.claim");
    assert_eq!(verified.statement_sha256, digest);
    assert_eq!(verified.inventory, ["Demo.claim"]);
    assert!(verified.bound_artifacts.is_empty());
}

#[test]
fn expected_inventory_is_nonempty_and_exact_before_audit_execution() {
    let mut empty = unit(None);
    empty.evidence_unit.expected_inventory.clear();
    assert_eq!(validate_unit(&empty).unwrap_err().code, INVENTORY);

    let mut wrong = unit(None);
    wrong.evidence_unit.expected_inventory = vec!["Demo.other".to_owned()];
    let error = validate_unit(&wrong).unwrap_err();
    assert_eq!(error.code, INVENTORY);
    assert_eq!(
        error.message,
        "evidence_unit.expected_inventory must be nonempty and exactly equal the registered Lean declarations; configured={\"Demo.other\"}, registered={\"Demo.claim\"}"
    );
}

#[test]
fn digest_drift_fails_closed() {
    let error = verify_audit(&unit(Some(wrong())), &output(), true).unwrap_err();
    assert_eq!(error.code, STATEMENT_DRIFT);
    assert!(error.message.starts_with(&format!("statement digest drift for 'DEMO-CLAIM-001': expected {}", wrong())));
}

#[test]
fn unknown_duplicate_and_missing_attributions_fail() {
    let mut unknown = output();
    unknown.claims[0].claim_id = "UNKNOWN-CLAIM-001".to_owned();
    assert_eq!(verify_audit(&unit(None), &unknown, false).unwrap_err().code, INVENTORY);

    let mut duplicate = output();
    duplicate.claims.push(claim());
    assert_eq!(verify_audit(&unit(None), &duplicate, false).unwrap_err().code, AUDIT_OUTPUT);

    let mut missing = output();
    missing.claims.clear();
    assert_eq!(verify_audit(&unit(None), &missing, false).unwrap_err().code, INVENTORY);
}

#[test]
fn exact_kind_and_axiom_classification_are_enforced() {
    let mut wrong_kind = output();
    wrong_kind.claims[0].kind = DeclarationKind::Opaque;
    let error = verify_audit(&unit(None), &wrong_kind, false).unwrap_err();
    assert_eq!(error.code, DECLARATION);
    assert_eq!(
        error.message,
        "compiled declaration identity drift for 'DEMO-CLAIM-001': expected 'Demo.claim' (Theorem), found 'Demo.claim' (Opaque)"
    );

    let mut unknown = output();
    unknown.claims[0].axioms = vec!["Demo.axiom".to_owned()];
    let error = verify_audit(&unit(None), &unknown, false).unwrap_err();
    assert_eq!(error.code, AXIOM);
    assert_eq!(
        error.message,
        "exact transitive axiom inventory differs for 'Demo.claim'; missing=[], unknown=[\"Demo.axiom\"]"
    );
    assert!(error.remediation.is_some());
}

#[test]
fn native_evaluation_requires_an_explicit_non_project_premise() {
    let mut native = unit(None);
    native.evidence_unit.evaluation_mode = Some(EvaluationMode::Native);
    assert_eq!(verify_audit(&native, &output(), false).unwrap_err().code, AXIOM);

    native.evidence_unit.assumptions.push("DEMO-NATIVE-EVALUATION-001".to_owned());
    verify_audit(&native, &output(), false).unwrap();

    let mut kernel_with_unused_assumption = unit(None);
    kernel_with_unused_assumption
        .evidence_unit
        .assumptions
        .push("DEMO-NATIVE-EVALUATION-001".to_owned());
    let error = verify_audit(&kernel_with_unused_assumption, &output(), false).unwrap_err();
    assert_eq!(error.code, AXIOM);
    assert!(error.message.ends_with(
        "configured={\"DEMO-NATIVE-EVALUATION-001\"}, audited_project_axioms={}, evaluation_mode=Some(Kernel)"
    ));
}

#[test]
fn unpinned_target_fails_only_when_a_pin_is_required() {
    let error = verify_audit(&unit(None), &output(), true).unwrap_err();
    assert_eq!(error.code, STATEMENT_DRIFT);
    assert_eq!(error.message, "registered target claim 'DEMO-CLAIM-001' has no statement_sha256");
    assert!(verify_audit(&unit(None), &output(), false).is_ok());
    assert!(observe_audit(&unit(Some(wrong())), &output()).is_ok());
}

#[test]
fn sorry_and_bad_wires_are_refused() {
    let mut sorry = claim();
    sorry.axioms = vec!["Mathlib.sorryAx".to_owned()];
    let error = verify_claim(&registered(None), &sorry).unwrap_err();
    assert_eq!(error.code, AXIOM);
    assert_eq!(error.message, "'Demo.claim' transitively depends on sorryAx");

    let mut bad = claim();
    bad.expr_wire = arr(vec![JsonValue::String(STATEMENT_ENCODING.to_owned()), arr(vec![n(99)])]);
    let error = verify_claim(&registered(None), &bad).unwrap_err();
    assert_eq!(error.code, EXPR_WIRE);
    assert!(error.message.starts_with("invalid ExprWire for 'Demo.claim': "));
}

#[test]
fn audit_output_shape_is_checked() {
    assert!(validate_output(&output()).is_ok());
    let mut schema = output();
    schema.schema = "other".to_owned();
    assert_eq!(
        validate_output(&schema).unwrap_err().message,
        "unsupported Lean audit schema/encoding 'other'/ 'lean-expr-cbor/1'"
    );
    let mut both = output();
    both.exemptions[0].declaration = "Demo.claim".to_owned();
    assert_eq!(
        validate_output(&both).unwrap_err().message,
        "declaration 'Demo.claim' is both attributed and exempt"
    );
    let mut blank = output();
    blank.exemptions[0].reason = "   ".to_owned();
    assert_eq!(
        validate_output(&blank).unwrap_err().message,
        "exemption 'Demo.helper' has an empty or oversized reason"
    );
}

#[test]
fn inventories_are_sorted_and_checked() {
    assert_eq!(actual_inventory(&output()).unwrap(), ["DEMO-CLAIM-001"]);
    let claims = vec![registered(None)];
    assert_eq!(expected_inventory(&claims).unwrap(), ["DEMO-CLAIM-001"]);
    let mut bad_pin = registered(Some("sha1:abc".to_owned()));
    bad_pin.claim_id = "DEMO-CLAIM-001".to_owned();
    let error = expected_inventory(&vec![bad_pin]).unwrap_err();
    assert_eq!(error.code, CONFIGURATION);
    assert_eq!(error.path.as_deref(), Some("claim_inventory[DEMO-CLAIM-001].statement_sha256"));
    let mut classified_twice = registered(None);
    classified_twice.foundational_axioms = vec!["Classical.choice".to_owned()];
    classified_twice.project_axioms = vec![("Classical.choice".to_owned(), "DEMO-ASSUMPTION-001".to_owned())];
    assert_eq!(
        expected_inventory(&vec![classified_twice]).unwrap_err().message,
        "axiom 'Classical.choice' has two classifications"
    );
}

#[test]
fn unit_rules_reject_wrong_shapes() {
    assert!(validate_unit(&unit(None)).is_ok());
    let mut tier = unit(None);
    tier.evidence_unit.tier = 4;
    assert_eq!(
        validate_unit(&tier).unwrap_err().message,
        "Lean theorem evidence requires project tier 2 or 3"
    );
    let mut uncovered = unit(None);
    uncovered.evidence_unit.theorem = Some("Other.claim".to_owned());
    assert_eq!(
        validate_unit(&uncovered).unwrap_err().message,
        "configured theorem 'Other.claim' is not covered by operation.targets"
    );
    let mut namespaced = unit(None);
    namespaced.evidence_unit.targets = vec!["Demo".to_owned()];
    assert!(validate_unit(&namespaced).is_ok());
    let mut env = unit(None);
    env.evidence_unit.environment_allowlist = vec!["lower".to_owned()];
    assert_eq!(validate_unit(&env).unwrap_err().message, "invalid environment allowlist name 'lower'");
    let mut unsorted = unit(None);
    unsorted.evidence_unit.inputs = vec!["b.lean".to_owned(), "a.lean".to_owned()];
    assert_eq!(
        validate_unit(&unsorted).unwrap_err().message,
        "inputs must be strictly sorted and duplicate-free"
    );
}
