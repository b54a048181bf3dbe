use proofbound_adapter::json::{JsonNumber, JsonValue};
use proofbound_adapter::node::NodeError;
use proofbound_adapter::npm::{
    bundled_entry_is_bound, validate_node_metadata, validate_package_json, validate_package_lock,
    validate_tsc_configuration, pack_report, compare_pack_members,
};
use proofbound_adapter::process::ProcessOutput;

fn s(text: &str) -> JsonValue {
    JsonValue::String(text.to_owned())
}

fn obj(members: Vec<(&str, JsonValue)>) -> JsonValue {
    JsonValue::Object(members.into_iter().map(|(k, v)| (k.to_owned(), v)).collect())
}

fn members(value: JsonValue) -> Vec<(String, JsonValue)> {
    match value {
        JsonValue::Object(ms) => ms,
        _ => panic!("not an object"),
    }
}

fn metadata(dependency: &str, integrity: Option<&str>) -> (JsonValue, JsonValue) {
    let package = obj(vec![
        ("name", s("fixture")),
        ("version", s("1.0.0")),
        ("devDependencies", obj(vec![("vitest", s(dependency))])),
    ]);
    let mut locked = vec![("version", s("2.1.0"))];
    if let Some(integrity) = integrity {
        locked.push(("integrity", s(integrity)));
    }
    let lock = obj(vec![
        ("lockfileVersion", JsonValue::Number(JsonNumber::PosInt(3))),
        ("packages", obj(vec![("", obj(vec![])), ("node_modules/vitest", obj(locked))])),
    ]);
    (package, lock)
}

#[test]
fn lockfile_validation_requires_integrity_and_rejects_local_dependencies() {
    let (package, lock) = metadata("2.1.0", Some("sha512-Zml4dHVyZQ=="));
    validate_node_metadata(&package, &lock).unwrap();

    let (package, lock) = metadata("2.1.0", None);
    assert!(matches!(
        validate_node_metadata(&package, &lock),
        Err(NodeError::Unsupported(message)) if message.contains("integrity")
    ));

    let (package, lock) = metadata("file:../vitest", Some("sha512-Zml4dHVyZQ=="));
    assert!(matches!(
        validate_node_metadata(&package, &lock),
        Err(NodeError::Unsupported(message)) if message.contains("unsupported dependency")
    ));

    let packages = members(obj(vec![
        ("node_modules/npm", obj(vec![("integrity", s("sha512-parent"))])),
        ("node_modules/npm/node_modules/child", obj(vec![("inBundle", JsonValue::Bool(true))])),
    ]));
    let child = members(obj(vec![("inBundle", JsonValue::Bool(true))]));
    assert!(bundled_entry_is_bound("node_modules/npm/node_modules/child", &child, &packages));
}

#[test]
fn package_json_rules() {
    assert_eq!(
        validate_package_json(&s("x")).unwrap_err(),
        NodeError::Unsupported("package.json must be a JSON object".to_owned())
    );
    assert_eq!(
        validate_package_json(&obj(vec![("workspaces", obj(vec![]))])).unwrap_err(),
        NodeError::Unsupported("npm workspaces are not admitted in this version".to_owned())
    );
    assert_eq!(
        validate_package_json(&obj(vec![("packageManager", s("pnpm@9"))])).unwrap_err(),
        NodeError::Unsupported("package manager `pnpm@9` is not npm".to_owned())
    );
    assert!(validate_package_json(&obj(vec![("packageManager", s("npm@10.9.0"))])).is_ok());
    assert_eq!(
        validate_package_json(&obj(vec![("dependencies", obj(vec![("x", JsonValue::Null)]))])).unwrap_err(),
        NodeError::Unsupported("dependencies.x must be a string dependency specification".to_owned())
    );
}

#[test]
fn package_lock_rules() {
    let version = |n: u64| ("lockfileVersion", JsonValue::Number(JsonNumber::PosInt(n)));
    assert_eq!(
        validate_package_lock(&obj(vec![version(2)])).unwrap_err(),
        NodeError::Unsupported("package-lock lockfileVersion 2 is below 3".to_owned())
    );
    assert_eq!(
        validate_package_lock(&obj(vec![version(3)])).unwrap_err(),
        NodeError::Unsupported("package-lock.json omits the packages map".to_owned())
    );
    assert_eq!(
        validate_package_lock(&obj(vec![version(3), ("packages", obj(vec![]))])).unwrap_err(),
        NodeError::Unsupported("package-lock.json omits the root package entry".to_owned())
    );
    let local = obj(vec![version(3), ("packages", obj(vec![("", obj(vec![])), ("packages/a", obj(vec![]))]))]);
    assert_eq!(
        validate_package_lock(&local).unwrap_err(),
        NodeError::Unsupported("lockfile package entry `packages/a` is a workspace or local package".to_owned())
    );
    let escape = obj(vec![version(3), ("packages", obj(vec![("", obj(vec![])), ("../node_modules/a", obj(vec![]))]))]);
    assert_eq!(
        validate_package_lock(&escape).unwrap_err(),
        NodeError::UnsafePath("../node_modules/a".to_owned())
    );
    let linked = obj(vec![
        version(3),
        ("packages", obj(vec![("", obj(vec![])), ("node_modules/a", obj(vec![("link", JsonValue::Bool(true))]))])),
    ]);
    assert_eq!(
        validate_package_lock(&linked).unwrap_err(),
        NodeError::Unsupported("lockfile package entry `node_modules/a` is a link".to_owned())
    );
    let git = obj(vec![
        version(3),
        (
            "packages",
            obj(vec![
                ("", obj(vec![])),
                ("node_modules/a", obj(vec![("integrity", s("sha512-x")), ("resolved", s("git+https://x"))])),
            ]),
        ),
    ]);
    assert_eq!(
        validate_package_lock(&git).unwrap_err(),
        NodeError::Unsupported("lockfile package entry `node_modules/a` resolves through unsupported `git+https://x`".to_owned())
    );
}

fn from_serde(value: &serde_json::Value) -> JsonValue {
    match value {
        serde_json::Value::Null => JsonValue::Null,
        serde_json::Value::Bool(b) => JsonValue::Bool(*b),
        serde_json::Value::Number(n) => JsonValue::Number(match (n.as_u64(), n.as_i64()) {
            (Some(u), _) => JsonNumber::PosInt(u),
            (None, Some(i)) => JsonNumber::NegInt(i),
            _ => JsonNumber::Float,
        }),
        serde_json::Value::String(text) => JsonValue::String(text.clone()),
        serde_json::Value::Array(items) => JsonValue::Array(items.iter().map(from_serde).collect()),
        serde_json::Value::Object(map) => {
            JsonValue::Object(map.iter().map(|(key, value)| (key.clone(), from_serde(value))).collect())
        }
    }
}

fn parsed(bytes: &[u8]) -> Result<JsonValue, String> {
    serde_json::from_slice::<serde_json::Value>(bytes)
        .map(|value| from_serde(&value))
        .map_err(|error| error.to_string())
}

#[test]
fn tsc_configuration_requires_literal_strict_json() {
    validate_tsc_configuration(&parsed(br#"{"compilerOptions":{"strict":true}}"#)).unwrap();
    for invalid in [
        br#"{"compilerOptions":{"strict":false}}"#.as_slice(),
        br#"{"compilerOptions":{"strict":true},"extends":"./base.json"}"#.as_slice(),
        br#"{"compilerOptions":{"strict":true},}"#.as_slice(),
    ] {
        assert!(matches!(validate_tsc_configuration(&parsed(invalid)), Err(NodeError::Unsupported(_))));
    }
}

#[test]
fn tsc_configuration_failures_are_named() {
    assert_eq!(
        validate_tsc_configuration(&parsed(b"[]")),
        Err(NodeError::Unsupported("tsconfig must contain a JSON object".to_owned()))
    );
    assert_eq!(
        validate_tsc_configuration(&parsed(br#"{"extends":"x"}"#)),
        Err(NodeError::Unsupported("tsconfig extends chains are unsupported; flatten the configuration".to_owned()))
    );
    assert_eq!(
        validate_tsc_configuration(&parsed(br#"{"compilerOptions":{"strict":1}}"#)),
        Err(NodeError::Unsupported("tsconfig compilerOptions.strict must be true".to_owned()))
    );
    assert_eq!(
        validate_tsc_configuration(&Err("EOF".to_owned())),
        Err(NodeError::Unsupported(
            "tsconfig must be plain JSON without comments or trailing commas: EOF".to_owned()
        ))
    );
}

fn pack_output() -> ProcessOutput {
    ProcessOutput { status: Some(0), stdout: Vec::new(), stderr: Vec::new(), truncated: false, duration_ms: 1 }
}

const PACK: &str = r#"[{
    "filename": "fixture-1.0.0.tgz",
    "integrity": "sha512-0123456789abcdef",
    "shasum": "0123456789abcdef0123456789ABCDEF01234567",
    "files": [{"path": "package.json"}, {"path": "dist/index.js"}]
}]"#;

#[test]
fn npm_pack_reports_name_one_bounded_tarball() {
    let (integrity, members) = pack_report(&pack_output(), &parsed(PACK.as_bytes()), "fixture-1.0.0.tgz", 0).unwrap();
    assert_eq!(integrity, "sha512-0123456789abcdef");
    assert_eq!(members, ["dist/index.js", "package.json"]);

    let failure = |text: &str, name: &str, epoch: u64| pack_report(&pack_output(), &parsed(text.as_bytes()), name, epoch).unwrap_err();
    assert_eq!(failure(PACK, "fixture-1.0.0.tgz", 1), NodeError::Unit("npm source_date_epoch must be zero".to_owned()));
    assert_eq!(
        failure(PACK, "other.tgz", 0),
        NodeError::Inventory("npm pack filename does not match artifact_name".to_owned())
    );
    assert_eq!(failure("{}", "x", 0), NodeError::Inventory("npm pack report must be a JSON array".to_owned()));
    assert_eq!(failure("[]", "x", 0), NodeError::Inventory("npm pack reported 0 tarballs, expected one".to_owned()));
    assert_eq!(failure("[1]", "x", 0), NodeError::Inventory("npm pack report is not an object".to_owned()));
    let short = PACK.replace("sha512-0123456789abcdef", "sha512-0123");
    assert_eq!(failure(&short, "fixture-1.0.0.tgz", 0), NodeError::Inventory("npm pack omitted integrity".to_owned()));
    let bad_sum = PACK.replace("ABCDEF01234567", "ABCDEF0123456g");
    assert_eq!(failure(&bad_sum, "fixture-1.0.0.tgz", 0), NodeError::Inventory("npm pack omitted shasum".to_owned()));
    let escape = PACK.replace("dist/index.js", "../index.js");
    assert_eq!(failure(&escape, "fixture-1.0.0.tgz", 0), NodeError::UnsafePath("../index.js".to_owned()));
    let twice = PACK.replace("dist/index.js", "package.json");
    assert_eq!(
        failure(&twice, "fixture-1.0.0.tgz", 0),
        NodeError::Inventory("npm pack files must be a nonempty bounded set".to_owned())
    );
    let unnamed = PACK.replace(r#"{"path": "package.json"}"#, "{}");
    assert_eq!(failure(&unnamed, "fixture-1.0.0.tgz", 0), NodeError::Inventory("npm pack file omitted path".to_owned()));
    let noisy = ProcessOutput { stderr: b"warn".to_vec(), ..pack_output() };
    assert_eq!(
        pack_report(&noisy, &parsed(PACK.as_bytes()), "fixture-1.0.0.tgz", 0).unwrap_err(),
        NodeError::Inventory("npm pack report was truncated or wrote to stderr".to_owned())
    );
}

#[test]
fn tarball_members_must_equal_the_report() {
    let reported = vec!["a.js".to_owned(), "package.json".to_owned()];
    assert!(compare_pack_members(&reported.clone(), &reported).is_ok());
    assert_eq!(
        compare_pack_members(&vec!["a.js".to_owned()], &reported),
        Err(NodeError::Inventory(
            "tar members [\"a.js\"] do not equal npm report [\"a.js\", \"package.json\"]".to_owned()
        ))
    );
}
