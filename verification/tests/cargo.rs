use proofbound_adapter::cargo::{cargo_test_executables, parse_cargo_test_binaries};
use proofbound_adapter::json::{JsonNumber, JsonValue};
use proofbound_adapter::testing::{parse_libtest_inventory, AdapterError};

fn from_serde(value: &serde_json::Value) -> JsonValue {
    match value {
        serde_json::Value::Null => JsonValue::Null,
        serde_json::Value::Bool(b) => JsonValue::Bool(*b),
        serde_json::Value::Number(n) => JsonValue::Number(match (n.as_u64(), n.as_i64()) {
            (Some(u), _) => JsonNumber::PosInt(u),
            (None, Some(i)) => JsonNumber::NegInt(i),
            _ => JsonNumber::Float,
        }),
        serde_json::Value::String(text) => JsonValue::String(text.clone()),
        serde_json::Value::Array(items) => JsonValue::Array(items.iter().map(from_serde).collect()),
        serde_json::Value::Object(map) => {
            JsonValue::Object(map.iter().map(|(key, value)| (key.clone(), from_serde(value))).collect())
        }
    }
}

/// One parsed value per line of `text`, nothing for an empty line.
fn lines(text: &str) -> Vec<Option<Result<JsonValue, String>>> {
    text.split('\n')
        .map(|line| {
            if line.is_empty() {
                None
            } else {
                Some(
                    serde_json::from_str::<serde_json::Value>(line)
                        .map(|value| from_serde(&value))
                        .map_err(|error| error.to_string()),
                )
            }
        })
        .collect()
}

fn artifact(target: &str, executable: &str) -> String {
    serde_json::to_string(&serde_json::Value::Object(
        [
            ("reason".to_owned(), serde_json::Value::String("compiler-artifact".to_owned())),
            (
                "target".to_owned(),
                serde_json::Value::Object(
                    [("name".to_owned(), serde_json::Value::String(target.to_owned()))].into_iter().collect(),
                ),
            ),
            (
                "profile".to_owned(),
                serde_json::Value::Object([("test".to_owned(), serde_json::Value::Bool(true))].into_iter().collect()),
            ),
            ("executable".to_owned(), serde_json::Value::String(executable.to_owned())),
        ]
        .into_iter()
        .collect(),
    ))
    .unwrap()
}

const FINISH: &str = "{\"reason\":\"build-finished\",\"success\":true}";

fn inventory_message(result: Result<Vec<proofbound_adapter::cargo::RustTestBinary>, AdapterError>) -> String {
    match result {
        Err(AdapterError::Inventory(message)) => message,
        other => panic!("expected an inventory error, got {other:?}"),
    }
}

#[test]
fn parses_cargo_metadata_and_libtest_inventory() {
    // The shadow project is `/shadow`; its test executable `test-bin`
    // resolves to itself and is a regular file.
    let root = "/shadow";
    let executable = format!("{root}/test-bin");
    let bytes = format!("{}\n{}\n", artifact("crate_name", &executable), FINISH);
    let parsed = lines(&bytes);
    let named = cargo_test_executables(&parsed);
    assert_eq!(named, [executable.clone()]);
    let resolved = named.into_iter().map(|path| Ok((path, true))).collect();
    let binaries = parse_cargo_test_binaries(&parsed, resolved, root).unwrap();
    assert_eq!(binaries[0].target, "crate_name");
    assert_eq!(
        parse_libtest_inventory(b"module::one: test\nmodule::two: test\n").unwrap(),
        ["module::one", "module::two"]
    );
}

#[test]
fn cargo_binaries_come_out_ordered_by_target() {
    let text = format!("{}\n{}\n{}\n", artifact("zeta", "/shadow/target/z"), artifact("alpha", "/shadow/target/a"), FINISH);
    let parsed = lines(&text);
    let resolved = vec![Ok(("/shadow/target/z".to_owned(), true)), Ok(("/shadow/target/a".to_owned(), true))];
    let binaries = parse_cargo_test_binaries(&parsed, resolved, "/shadow").unwrap();
    assert_eq!(binaries.len(), 2);
    assert_eq!(binaries[0].target, "alpha");
    assert_eq!(binaries[0].executable, "/shadow/target/a");
    assert_eq!(binaries[1].target, "zeta");
}

#[test]
fn cargo_messages_are_rejected_with_their_reason() {
    let parsed = lines("not json\n");
    assert!(inventory_message(parse_cargo_test_binaries(&parsed, Vec::new(), "/shadow")).starts_with("cargo JSON line 1: "));
    let parsed = lines("{\"target\":1}\n");
    assert_eq!(inventory_message(parse_cargo_test_binaries(&parsed, Vec::new(), "/shadow")), "cargo message has no reason");
    let parsed = lines("{\"reason\":\"build-finished\",\"success\":false}\n");
    assert_eq!(
        inventory_message(parse_cargo_test_binaries(&parsed, Vec::new(), "/shadow")),
        "Cargo reported an unsuccessful build"
    );
    let parsed = lines("{\"reason\":\"mystery\"}\n");
    assert_eq!(
        inventory_message(parse_cargo_test_binaries(&parsed, Vec::new(), "/shadow")),
        "unsupported Cargo JSON reason `mystery`"
    );
    let parsed = lines(&artifact("bad name", "/shadow/x"));
    assert!(cargo_test_executables(&parsed).is_empty());
    assert_eq!(
        inventory_message(parse_cargo_test_binaries(&parsed, Vec::new(), "/shadow")),
        "unsafe Cargo target `bad name`"
    );
}

#[test]
fn cargo_executables_must_stay_inside_the_shadow_project_and_be_unique() {
    let parsed = lines(&artifact("crate_name", "/elsewhere/x"));
    assert_eq!(
        inventory_message(parse_cargo_test_binaries(&parsed, vec![Ok(("/elsewhere/x".to_owned(), true))], "/shadow")),
        "Cargo test executable escaped the shadow project"
    );
    assert_eq!(
        inventory_message(parse_cargo_test_binaries(&parsed, vec![Ok(("/shadow/x".to_owned(), false))], "/shadow")),
        "Cargo test executable escaped the shadow project"
    );
    assert!(matches!(
        parse_cargo_test_binaries(&parsed, vec![Err(AdapterError::Io("gone".to_owned()))], "/shadow"),
        Err(AdapterError::Io(message)) if message == "gone"
    ));
    let text = format!("{}\n{}\n", artifact("same", "/shadow/a"), artifact("same", "/shadow/b"));
    let parsed = lines(&text);
    let resolved = vec![Ok(("/shadow/a".to_owned(), true)), Ok(("/shadow/b".to_owned(), true))];
    assert_eq!(
        inventory_message(parse_cargo_test_binaries(&parsed, resolved, "/shadow")),
        "duplicate Cargo test target `same`"
    );
}
