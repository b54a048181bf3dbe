use proofbound_adapter::audit::ResourceBudget;
use proofbound_adapter::lean::{check_resource_usage, parse_lake_version, RESOURCE, TOOL};
use proofbound_adapter::bounded::{drain_bounded, read_limited};
use proofbound_adapter::json::{JsonNumber, JsonValue};
use proofbound_adapter::lean::{
    validate_captured_execution,
    module_from_target, require_sorted_unique, validate_claim_id, validate_local_id,
    validate_name, validate_relative_file, AdapterError, AUDIT_OUTPUT, CONFIGURATION, DECLARATION,
};
use proofbound_adapter::wire::{encode_statement, statement_digest, WireError, STATEMENT_ENCODING};

fn s(text: &str) -> JsonValue {
    JsonValue::String(text.to_owned())
}

fn n(value: u64) -> JsonValue {
    JsonValue::Number(JsonNumber::PosInt(value))
}

fn a(items: Vec<JsonValue>) -> JsonValue {
    JsonValue::Array(items)
}

fn statement(expr: JsonValue) -> JsonValue {
    a(vec![s(STATEMENT_ENCODING), expr])
}

#[test]
fn module_derives_from_exact_declaration_or_module_target() {
    assert_eq!(
        module_from_target(
            "ProofboundDemo.Claims.Transfer.accept_conserves",
            "ProofboundDemo.Claims.Transfer.accept_conserves"
        )
        .unwrap(),
        "ProofboundDemo.Claims.Transfer"
    );
    assert_eq!(
        module_from_target("ProofboundArtifactDemo.Claims", "ProofboundArtifactDemo.Claims.publishedTotal")
            .unwrap(),
        "ProofboundArtifactDemo.Claims"
    );
    assert!(module_from_target("Other", "Demo.claim").is_err());
}

#[test]
fn bounded_reader_marks_oversize_without_blocking_the_pipe() {
    let data = vec![7_u8; 100];
    let output = read_limited(data.as_slice(), 10);
    assert_eq!(output.len(), 11);
}

#[test]
fn bounded_reader_keeps_small_inputs_whole() {
    let data = vec![1_u8, 2, 3];
    assert_eq!(read_limited(&data, 10), data);
    assert_eq!(read_limited(&data, 3), data);
    assert_eq!(read_limited(&data, 2), data);
    assert_eq!(read_limited(&data, 1), vec![1, 2]);
}

#[test]
fn drain_keeps_a_prefix_and_reports_truncation() {
    let data: Vec<u8> = (0..200u8).collect();
    let (kept, truncated) = drain_bounded(&data, 50);
    assert_eq!(kept, data[..50].to_vec());
    assert!(truncated);
    let (all, cut) = drain_bounded(&data, 200);
    assert_eq!(all, data);
    assert!(!cut);
}

#[test]
fn alpha_equivalent_binders_have_one_name_free_encoding() {
    let body = || a(vec![n(4), n(0), a(vec![n(2), s("Nat"), a(vec![])]), a(vec![n(0), s("0")])]);
    let left = statement(body());
    let right = statement(body());
    assert_eq!(encode_statement(&left).unwrap(), encode_statement(&right).unwrap());
    assert_eq!(statement_digest(&left).unwrap(), statement_digest(&right).unwrap());

    let named = statement(a(vec![
        n(4),
        s("x"),
        n(0),
        a(vec![n(2), s("Nat"), a(vec![])]),
        a(vec![n(0), s("0")]),
    ]));
    assert!(matches!(encode_statement(&named), Err(WireError::Length { .. })));
}

#[test]
fn universe_levels_use_explicit_canonical_tags() {
    let levels = a(vec![
        a(vec![n(1), a(vec![n(4), s("u")])]),
        a(vec![n(2), a(vec![n(0)]), a(vec![n(3), a(vec![n(0)]), a(vec![n(0)])])]),
    ]);
    let value = statement(a(vec![n(2), s("Demo.poly"), levels]));
    let bytes = encode_statement(&value).unwrap();
    assert!(!bytes.is_empty());

    let mvar = statement(a(vec![n(1), a(vec![n(5), JsonValue::Null])]));
    assert!(matches!(encode_statement(&mvar), Err(WireError::UnknownTag { tag: 5, .. })));
}

#[test]
fn literals_and_projections_preserve_values() {
    let nat = statement(a(vec![n(7), a(vec![n(0), s("18446744073709551615")])]));
    let string = statement(a(vec![n(7), a(vec![n(1), s("λ\u{0}proof")])]));
    let projection = statement(a(vec![
        n(9),
        s("Demo.Pair"),
        s("24"),
        a(vec![n(3), a(vec![n(7), a(vec![n(1), s("x")])]), a(vec![n(7), a(vec![n(0), s("1")])])]),
    ]));
    assert_ne!(statement_digest(&nat).unwrap(), statement_digest(&string).unwrap());
    assert!(!encode_statement(&projection).unwrap().is_empty());
}

#[test]
fn shortest_cbor_integer_forms_are_stable() {
    let bytes_23 = encode_statement(&statement(a(vec![n(0), s("23")]))).unwrap();
    let bytes_24 = encode_statement(&statement(a(vec![n(0), s("24")]))).unwrap();
    assert!(bytes_23.ends_with(&[0x82, 0x00, 0x17]));
    assert!(bytes_24.ends_with(&[0x82, 0x00, 0x18, 0x18]));
}

#[test]
fn malformed_and_ambiguous_wire_fails_closed() {
    let values = vec![
        statement(a(vec![n(0), n(0)])),
        statement(a(vec![n(0), s("00")])),
        statement(a(vec![n(4), n(4), a(vec![n(1), a(vec![n(0)])]), a(vec![n(0), s("0")])])),
        statement(a(vec![n(99)])),
        a(vec![s("lean-expr-cbor/2"), a(vec![n(0), s("0")])]),
    ];
    for value in &values {
        assert!(encode_statement(value).is_err(), "accepted {value:?}");
    }
}

#[test]
fn statement_drift_changes_domain_separated_digest() {
    let before = statement(a(vec![n(7), a(vec![n(0), s("41")])]));
    let after = statement(a(vec![n(7), a(vec![n(0), s("42")])]));
    assert_ne!(statement_digest(&before).unwrap(), statement_digest(&after).unwrap());
}

#[test]
fn digests_are_lowercase_hex_of_fixed_length() {
    let digest = statement_digest(&statement(a(vec![n(0), s("0")]))).unwrap();
    assert_eq!(digest.as_str().len(), 64);
    assert!(digest.as_str().chars().all(|c| c.is_ascii_digit() || ('a'..='f').contains(&c)));
}

#[test]
fn names_ids_and_files_are_validated() {
    assert!(validate_name("Demo.Claims.theorem", "theorem").is_ok());
    let error = validate_name("", "theorem").unwrap_err();
    assert_eq!(error.code, AUDIT_OUTPUT);
    assert_eq!(error.message, "theorem is empty, oversized, or contains NUL");
    assert!(validate_claim_id("DEMO-ONE").is_ok());
    assert!(validate_claim_id("demo one").is_err());
    assert_eq!(validate_claim_id("NODASH").unwrap_err().code, CONFIGURATION);
    assert!(validate_local_id("unit-1").is_ok());
    assert!(validate_local_id("../unit").is_err());
    assert!(validate_relative_file("Demo/Claims.lean").is_ok());
    assert!(validate_relative_file("../Claims.lean").is_err());
    assert!(validate_relative_file("/abs.lean").is_err());
    let sorted = vec!["a".to_owned(), "b".to_owned()];
    assert!(require_sorted_unique("claims", &sorted).is_ok());
    let unsorted = vec!["b".to_owned(), "a".to_owned()];
    assert!(require_sorted_unique("claims", &unsorted).is_err());
}

#[test]
fn errors_carry_path_and_remediation() {
    let error = AdapterError::new(DECLARATION, "missing").at("Demo.lean").remediate("fix it");
    let diagnostic = error.diagnostic();
    assert_eq!(diagnostic.code, DECLARATION);
    assert_eq!(diagnostic.message, "missing");
    assert_eq!(diagnostic.path.as_deref(), Some("Demo.lean"));
    assert_eq!(diagnostic.remediation.as_deref(), Some("fix it"));
}

fn captured(time_ms: u64) -> proofbound_adapter::lean::CapturedExecution {
    proofbound_adapter::lean::CapturedExecution {
        tool: proofbound_adapter::lean::CapturedTool {
            name: "fixture-proofbound_lean_audit".to_owned(),
            version: "fixture/1".to_owned(),
            identity_sha256: "sha256:00".to_owned(),
        },
        command: proofbound_adapter::lean::CapturedCommand {
            program: "/fixture/proofbound_lean_audit".to_owned(),
            args: vec!["Fixture".to_owned()],
        },
        started_unix_ms: 1_000,
        completed_unix_ms: 1_005,
        time_ms,
    }
}

#[test]
fn captured_executions_need_identity_order_and_budget() {
    assert!(validate_captured_execution(&captured(5), 10).is_ok());
    let over = validate_captured_execution(&captured(50), 10).unwrap_err();
    assert_eq!(over.code, "PB-LEAN-0011");
    assert_eq!(over.message, "captured audit used 50 ms, exceeding declared budget 10 ms");
    let mut blank = captured(5);
    blank.tool.version = "  ".to_owned();
    assert_eq!(
        validate_captured_execution(&blank, 10).unwrap_err().message,
        "captured audit execution has an incomplete tool or command identity"
    );
    let mut backwards = captured(5);
    backwards.completed_unix_ms = 999;
    let error = validate_captured_execution(&backwards, 10).unwrap_err();
    assert_eq!(error.code, "PB-LEAN-0003");
    assert_eq!(error.message, "captured audit completion precedes its start");
}

#[test]
fn recorded_usage_is_held_to_the_budget() {
    let budget = ResourceBudget { time_seconds: 2, disk_bytes: 100, memory_bytes: 50 };
    assert_eq!(check_resource_usage(&budget, 2000, 100, Some(50)).unwrap(), 2000);
    assert_eq!(check_resource_usage(&budget, 0, 0, None).unwrap(), 2000);
    for (time, disk, memory) in [(2001, 0, None), (0, 101, None), (0, 0, Some(51))] {
        let error = check_resource_usage(&budget, time, disk, memory).unwrap_err();
        assert_eq!(error.code, RESOURCE);
        assert_eq!(error.message, "Lean audit exceeded its declared time, disk, or memory budget");
    }
    let endless = ResourceBudget { time_seconds: u64::MAX, disk_bytes: 1, memory_bytes: 1 };
    let error = check_resource_usage(&endless, 0, 0, None).unwrap_err();
    assert_eq!(error.message, "time budget overflows milliseconds");
}

#[test]
fn lake_version_is_the_trimmed_query_output() {
    assert_eq!(
        parse_lake_version(true, b"Lake version 5.0.0 (Lean version 4.20.0)\n").unwrap(),
        "Lake version 5.0.0 (Lean version 4.20.0)"
    );
    let failed = parse_lake_version(false, b"Lake version 5.0.0\n").unwrap_err();
    assert_eq!(failed.code, TOOL);
    assert_eq!(failed.message, "Lake/Lean version query failed or produced oversized output");
    assert!(parse_lake_version(true, &[b'a'; 4097]).is_err());
    assert!(parse_lake_version(true, &[0xff]).unwrap_err().message.starts_with("Lake version is not UTF-8: "));
    assert_eq!(parse_lake_version(true, b"  \n").unwrap_err().message, "Lake version is empty");
}
