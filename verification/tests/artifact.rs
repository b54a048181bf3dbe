use proofbound_adapter::artifact::{
    validate_digest_binding_v1, DIGEST_BINDING_MEMBER_CTOR_V1, DIGEST_BINDING_MEMBER_V1,
    DIGEST_BINDING_SET_V1, DIGEST_BINDING_V1, LIST_CONS, LIST_NIL,
};
use proofbound_adapter::json::{JsonNumber, JsonValue};
use proofbound_adapter::lean::ARTIFACT_BINDING;
use proofbound_adapter::wire::STATEMENT_ENCODING;

const CLAIM_ID: &str = "FIXTURE-CLAIM-001";
const DIGEST: &str = "sha256:0123456789abcdef0123456789abcdef0123456789abcdef0123456789abcdef";
const OTHER_DIGEST: &str = "sha256:abcdef0123456789abcdef0123456789abcdef0123456789abcdef0123456789";

fn n(value: u64) -> JsonValue {
    JsonValue::Number(JsonNumber::PosInt(value))
}

fn text(value: &str) -> JsonValue {
    JsonValue::String(value.to_owned())
}

fn arr(items: Vec<JsonValue>) -> JsonValue {
    JsonValue::Array(items)
}

fn string(value: &str) -> JsonValue {
    arr(vec![n(7), arr(vec![n(1), text(value)])])
}

fn constant(name: &str, levels: Vec<JsonValue>) -> JsonValue {
    arr(vec![n(2), text(name), arr(levels)])
}

fn apply(function: JsonValue, argument: JsonValue) -> JsonValue {
    arr(vec![n(3), function, argument])
}

fn statement(expression: JsonValue) -> JsonValue {
    arr(vec![text(STATEMENT_ENCODING), expression])
}

fn binding_expression(arguments: Vec<JsonValue>) -> JsonValue {
    let mut expression = constant(DIGEST_BINDING_V1, vec![]);
    for argument in arguments {
        expression = apply(expression, argument);
    }
    expression
}

fn binding(arguments: Vec<JsonValue>) -> JsonValue {
    statement(binding_expression(arguments))
}

fn exact_arguments() -> Vec<JsonValue> {
    vec![
        string(CLAIM_ID),
        string("proofbound-example/1"),
        string("published/example.json"),
        string(DIGEST),
        constant("publishedBytes", vec![]),
        constant("meaning", vec![]),
    ]
}

fn member_with_identity(name: JsonValue, digest: JsonValue, bytes: &str) -> JsonValue {
    let mut expression = constant(DIGEST_BINDING_MEMBER_CTOR_V1, vec![]);
    for argument in [name, digest, constant(bytes, vec![])] {
        expression = apply(expression, argument);
    }
    expression
}

fn member(name: &str, digest: &str, bytes: &str) -> JsonValue {
    member_with_identity(string(name), string(digest), bytes)
}

fn zero_level() -> Vec<JsonValue> {
    vec![arr(vec![n(0)])]
}

fn binding_set_members(members: Vec<JsonValue>) -> JsonValue {
    let member_type = || constant(DIGEST_BINDING_MEMBER_V1, vec![]);
    let mut list = apply(constant(LIST_NIL, zero_level()), member_type());
    for member in members.into_iter().rev() {
        let mut cons = constant(LIST_CONS, zero_level());
        for argument in [member_type(), member, list] {
            cons = apply(cons, argument);
        }
        list = cons;
    }
    let mut expression = constant(DIGEST_BINDING_SET_V1, vec![]);
    for argument in [
        string(CLAIM_ID),
        string("proofbound-example/1"),
        list,
        constant("meaning", vec![]),
    ] {
        expression = apply(expression, argument);
    }
    statement(expression)
}

fn binding_set(members: Vec<(&str, &str, &str)>) -> JsonValue {
    binding_set_members(
        members
            .into_iter()
            .map(|(name, digest, bytes)| member(name, digest, bytes))
            .collect(),
    )
}

#[test]
fn accepts_plain_theorem_and_exact_root_binding() {
    let plain = statement(constant("True", vec![]));
    assert!(validate_digest_binding_v1(&plain, CLAIM_ID).unwrap().is_empty());
    assert_eq!(
        validate_digest_binding_v1(&binding(exact_arguments()), CLAIM_ID).unwrap(),
        ["published/example.json"]
    );
    assert_eq!(
        validate_digest_binding_v1(
            &binding_set(vec![
                ("dist/aarch64/tool", DIGEST, "armBytes"),
                ("dist/x86_64/tool", OTHER_DIGEST, "x86Bytes"),
            ]),
            CLAIM_ID,
        )
        .unwrap(),
        ["dist/aarch64/tool", "dist/x86_64/tool"]
    );
}

#[test]
fn rejects_wrong_arity() {
    let mut arguments = exact_arguments();
    arguments.pop();
    let error = validate_digest_binding_v1(&binding(arguments), CLAIM_ID).unwrap_err();
    assert_eq!(error.code, ARTIFACT_BINDING);
    assert!(error.message.contains("exactly 6"));
    assert_eq!(
        error.message,
        "DigestBindingV1 requires exactly 6 explicit arguments, found 5"
    );
    assert_eq!(
        error.remediation.as_deref(),
        Some("use an exact Proofbound artifact-binding root statement with literal metadata")
    );
}

#[test]
fn rejects_nonliteral_metadata_and_noncanonical_digest() {
    let mut nonliteral = exact_arguments();
    nonliteral[1] = constant("schemaFromElsewhere", vec![]);
    assert!(validate_digest_binding_v1(&binding(nonliteral), CLAIM_ID)
        .unwrap_err()
        .message
        .contains("string literal"));

    let mut uppercase = exact_arguments();
    uppercase[3] = string("sha256:0123456789ABCDEF0123456789abcdef0123456789abcdef0123456789abcdef");
    assert!(validate_digest_binding_v1(&binding(uppercase), CLAIM_ID)
        .unwrap_err()
        .message
        .contains("lowercase"));
}

#[test]
fn rejects_nested_marker() {
    let nested = statement(apply(constant("Not", vec![]), binding_expression(exact_arguments())));
    let error = validate_digest_binding_v1(&nested, CLAIM_ID).unwrap_err();
    assert_eq!(error.code, ARTIFACT_BINDING);
    assert!(error.message.contains("below the statement root"));
}

#[test]
fn rejects_claim_literal_mismatch() {
    let mut arguments = exact_arguments();
    arguments[0] = string("OTHER-CLAIM-001");
    let error = validate_digest_binding_v1(&binding(arguments), CLAIM_ID).unwrap_err();
    assert_eq!(error.code, ARTIFACT_BINDING);
    assert!(error.message.contains("differs from attributed claim"));
}

#[test]
fn rejects_empty_duplicate_and_reordered_binding_sets() {
    for value in [
        binding_set(vec![]),
        binding_set(vec![("dist/a", DIGEST, "firstBytes"), ("dist/b", DIGEST, "secondBytes")]),
        binding_set(vec![("dist/b", OTHER_DIGEST, "secondBytes"), ("dist/a", DIGEST, "firstBytes")]),
    ] {
        let error = validate_digest_binding_v1(&value, CLAIM_ID).unwrap_err();
        assert_eq!(error.code, ARTIFACT_BINDING);
    }
}

#[test]
fn binding_set_errors_name_the_rule() {
    let empty = validate_digest_binding_v1(&binding_set(vec![]), CLAIM_ID).unwrap_err();
    assert_eq!(empty.message, "artifact-binding member list must be nonempty");
    let duplicate = validate_digest_binding_v1(
        &binding_set(vec![("dist/a", DIGEST, "firstBytes"), ("dist/b", DIGEST, "secondBytes")]),
        CLAIM_ID,
    )
    .unwrap_err();
    assert_eq!(duplicate.message, "artifact-binding member digests must be unique");
    let computed = binding_set_members(vec![member_with_identity(
        constant("Demo.computedName", vec![]),
        string(DIGEST),
        "computedBytes",
    )]);
    let error = validate_digest_binding_v1(&computed, CLAIM_ID).unwrap_err();
    assert_eq!(error.code, ARTIFACT_BINDING);
    assert_eq!(error.message, "artifactLogicalName must be an exact string literal");
}

#[test]
fn twice_marked_and_malformed_envelopes_fail() {
    let twice = statement(apply(
        binding_expression(exact_arguments()),
        constant(DIGEST_BINDING_V1, vec![]),
    ));
    assert!(validate_digest_binding_v1(&twice, CLAIM_ID).is_err());
    let not_array = text("x");
    assert_eq!(
        validate_digest_binding_v1(&not_array, CLAIM_ID).unwrap_err().message,
        "statement wire is not an array"
    );
    let wrong_envelope = arr(vec![text("lean-expr-cbor/2"), constant("True", vec![])]);
    assert_eq!(
        validate_digest_binding_v1(&wrong_envelope, CLAIM_ID).unwrap_err().message,
        "statement wire has no canonical encoding envelope"
    );
}
