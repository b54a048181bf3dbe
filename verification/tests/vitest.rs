use proofbound_adapter::json::{JsonNumber, JsonValue};
use proofbound_adapter::node::{NodeError, VitestNode};
use proofbound_adapter::process::ProcessOutput;
use proofbound_adapter::vitest::{report_test_names, validate_vitest_report};

fn from_serde(value: &serde_json::Value) -> JsonValue {
    match value {
        serde_json::Value::Null => JsonValue::Null,
        serde_json::Value::Bool(b) => JsonValue::Bool(*b),
        serde_json::Value::Number(n) => JsonValue::Number(match (n.as_u64(), n.as_i64()) {
            (Some(u), _) => JsonNumber::PosInt(u),
            (None, Some(i)) => JsonNumber::NegInt(i),
            _ => JsonNumber::Float,
        }),
        serde_json::Value::String(text) => JsonValue::String(text.clone()),
        serde_json::Value::Array(items) => JsonValue::Array(items.iter().map(from_serde).collect()),
        serde_json::Value::Object(map) => {
            JsonValue::Object(map.iter().map(|(key, value)| (key.clone(), from_serde(value))).collect())
        }
    }
}

fn parsed(text: &str) -> Result<JsonValue, String> {
    serde_json::from_str::<serde_json::Value>(text).map(|value| from_serde(&value)).map_err(|error| error.to_string())
}

fn output() -> ProcessOutput {
    ProcessOutput { status: Some(0), stdout: Vec::new(), stderr: Vec::new(), truncated: false, duration_ms: 1 }
}

fn expected() -> VitestNode {
    VitestNode { file: "src/a.test.ts".to_owned(), name: "suite > exact".to_owned() }
}

/// The test file of every report here resolves to `src/a.test.ts`.
fn resolved(report: &Result<JsonValue, String>) -> Vec<Result<String, NodeError>> {
    match report {
        Ok(value) => report_test_names(value).into_iter().map(|_| Ok("src/a.test.ts".to_owned())).collect(),
        Err(_) => Vec::new(),
    }
}

fn check(text: &str, expect_pass: bool) -> Result<(), NodeError> {
    let report = parsed(text);
    validate_vitest_report(&output(), &report, resolved(&report), &expected(), expect_pass)
}

const REPORT: &str = r#"{
    "numTotalTests": 1,
    "numPassedTests": 1,
    "numFailedTests": 0,
    "testResults": [{
        "name": "/root/src/a.test.ts",
        "assertionResults": [{
            "ancestorTitles": ["suite"],
            "fullName": "suite exact",
            "status": "passed",
            "title": "exact"
        }]
    }]
}"#;

const FILTERED: &str = r#"{
    "numTotalTests": 2,
    "numPassedTests": 1,
    "numFailedTests": 0,
    "numPendingTests": 1,
    "testResults": [{
        "name": "/root/src/a.test.ts",
        "assertionResults": [
            {"ancestorTitles": ["suite"], "fullName": "suite exact", "status": "passed", "title": "exact"},
            {"ancestorTitles": ["suite"], "fullName": "suite other", "status": "skipped", "title": "other"}
        ]
    }]
}"#;

#[test]
fn vitest_report_requires_exactly_the_registered_assertion() {
    check(REPORT, true).unwrap();
    check(FILTERED, true).unwrap();
    let unselected = FILTERED.replace(r#""status": "skipped""#, r#""status": "passed""#);
    assert!(check(&unselected, true).is_err());
    let extra = REPORT.replace(r#""numTotalTests": 1"#, r#""numTotalTests": 2"#);
    assert!(check(&extra, true).is_err());
}

#[test]
fn vitest_report_failures_are_named() {
    let unselected = FILTERED.replace(r#""status": "skipped""#, r#""status": "passed""#);
    assert_eq!(
        check(&unselected, true),
        Err(NodeError::Inventory(
            "vitest executed unselected assertion `src/a.test.ts::suite > other` with status Some(\"passed\")".to_owned()
        ))
    );
    let extra = REPORT.replace(r#""numTotalTests": 1"#, r#""numTotalTests": 2"#);
    assert_eq!(
        check(&extra, true),
        Err(NodeError::Inventory("vitest report selected [\"src/a.test.ts::suite > exact\"], expected `src/a.test.ts::suite > exact`".to_owned()))
    );
    assert_eq!(
        check(REPORT, false),
        Err(NodeError::Inventory(
            "vitest executed total=Some(1), selected-outcome=Some(0); expected one selected assertion".to_owned()
        ))
    );
    let renamed = REPORT.replace(r#""fullName": "suite exact""#, r#""fullName": "suite  exact""#);
    assert_eq!(check(&renamed, true), Err(NodeError::Inventory("vitest assertion name fields disagree".to_owned())));
    let failed = REPORT.replace(r#""status": "passed""#, r#""status": "failed""#);
    assert_eq!(
        check(&failed, true),
        Err(NodeError::Inventory("vitest assertion did not report `passed`".to_owned()))
    );
    assert_eq!(
        check(r#"{"numPassedTests": 1}"#, true),
        Err(NodeError::Inventory("vitest report omits testResults".to_owned()))
    );
    assert_eq!(
        check(r#"{"numPassedTests": 1, "testResults": [{}]}"#, true),
        Err(NodeError::Inventory("vitest test result omits file name".to_owned()))
    );
    assert_eq!(
        check("[]", true),
        Err(NodeError::Inventory(
            "vitest executed total=None, selected-outcome=None; expected one selected assertion".to_owned()
        ))
    );
    let truncated = ProcessOutput { truncated: true, ..output() };
    let report = parsed(REPORT);
    assert_eq!(
        validate_vitest_report(&truncated, &report, resolved(&report), &expected(), true),
        Err(NodeError::Inventory("vitest execution report was truncated".to_owned()))
    );
}

#[test]
fn an_unresolvable_test_file_fails_the_report() {
    let report = parsed(REPORT);
    let failure = NodeError::UnsafePath("/elsewhere/a.test.ts".to_owned());
    assert_eq!(
        validate_vitest_report(&output(), &report, vec![Err(failure.clone())], &expected(), true),
        Err(failure)
    );
}
