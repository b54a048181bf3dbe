use proofbound_adapter::process::ProcessOutput;
use proofbound_adapter::node::{
    first_diagnostic, parse_vitest_version, single_line_identity, SemanticVersion, excluded_path, forbidden_dependency, is_secret_name, parse_node_id, regex_escape,
    require_strict_set, safe_filename, valid_npm_subject, validate_node, validate_relative_path,
    NodeError, VitestNode, verify_single_tree_change,
};

#[test]
fn node_ids_are_literal_bounded_values() {
    assert_eq!(
        parse_node_id("src/a.test.ts::suite > handles [brackets]").unwrap().name,
        "suite > handles [brackets]"
    );
    assert!(parse_node_id("src/a.test.ts::-reporter=evil").is_err());
    assert!(parse_node_id("../a.test.ts::test").is_err());
    assert_eq!(regex_escape("a.*[b]?"), "a\\.\\*\\[b\\]\\?");
}

#[test]
fn node_ids_round_trip() {
    let node = parse_node_id("src/a.test.ts::adds").unwrap();
    assert_eq!(node.file, "src/a.test.ts");
    assert_eq!(node.id(), "src/a.test.ts::adds");
    assert!(validate_node(&node).is_ok());
    assert!(parse_node_id("no-separator").is_err());
    let bad = VitestNode { file: "/abs.test.ts".to_owned(), name: "x".to_owned() };
    assert!(validate_node(&bad).is_err());
}

#[test]
fn regex_escape_leaves_plain_text() {
    assert_eq!(regex_escape("plain name"), "plain name");
    assert_eq!(regex_escape("(a|b)^$"), "\\(a\\|b\\)\\^\\$");
}

#[test]
fn paths_and_sets_are_strict() {
    assert!(validate_relative_path("src/a.ts").is_ok());
    assert!(matches!(validate_relative_path("../a.ts"), Err(NodeError::UnsafePath(_))));
    assert!(validate_relative_path("src/*.ts").is_err());
    let sorted = vec!["a".to_owned(), "b".to_owned()];
    assert!(require_strict_set(&sorted).is_ok());
    let repeated = vec!["a".to_owned(), "a".to_owned()];
    assert!(require_strict_set(&repeated).is_err());
    assert!(excluded_path("node_modules/x/index.js"));
    assert!(!excluded_path("src/index.ts"));
}

#[test]
fn dependency_and_package_rules() {
    assert!(forbidden_dependency("file:../local"));
    assert!(!forbidden_dependency("^1.2.3"));
    assert!(safe_filename("vitest-3.2.4.tgz"));
    assert!(!safe_filename("../evil.tgz"));
    assert!(valid_npm_subject("npm:left-pad"));
    assert!(!valid_npm_subject("left-pad"));
    assert!(!valid_npm_subject("npm:Bad Name"));
    assert!(is_secret_name("NPM_TOKEN"));
    assert!(!is_secret_name("PATH"));
}

#[test]
fn node_error_codes_are_stable() {
    assert!(NodeError::Internal("x".to_owned()).code().starts_with("PB-NODE-"));
}

fn output(stdout: &[u8], stderr: &[u8]) -> ProcessOutput {
    ProcessOutput {
        status: Some(0),
        stdout: stdout.to_vec(),
        stderr: stderr.to_vec(),
        truncated: false,
        duration_ms: 1,
    }
}

#[test]
fn current_vitest_identity_is_parsed_without_weakening_the_floor() {
    assert_eq!(
        parse_vitest_version("vitest/3.2.4 darwin-arm64 node-v22.22.2").unwrap(),
        SemanticVersion { major: 3, minor: 2, patch: 4, pre: String::new(), build: String::new() }
    );
    assert!(parse_vitest_version("vitest unknown").is_err());
}

#[test]
fn vitest_versions_may_carry_a_v_and_prerelease() {
    let v = parse_vitest_version("v2.1.0-beta.1").unwrap();
    assert_eq!((v.major, v.minor, v.patch), (2, 1, 0));
    assert_eq!(v.pre, "beta.1");
    assert!(matches!(
        parse_vitest_version("no version"),
        Err(NodeError::Unsupported(m)) if m == "vitest reported unparseable version `no version`"
    ));
}

#[test]
fn identities_are_single_unpadded_lines() {
    assert_eq!(single_line_identity(&output(b"v22.22.2\n", b"")).unwrap(), "v22.22.2");
    assert_eq!(single_line_identity(&output(b"", b"10.9.0\r\n")).unwrap(), "10.9.0");
    assert!(single_line_identity(&output(b" padded\n", b"")).is_err());
    assert!(single_line_identity(&output(b"two\nlines\n", b"")).is_err());
    assert!(single_line_identity(&output(b"", b"")).is_err());
    assert!(single_line_identity(&output(b"tab\there", b"")).is_err());
    assert!(matches!(
        single_line_identity(&output(&[0xff], b"")),
        Err(NodeError::Inventory(m)) if m.starts_with("identity is not UTF-8: ")
    ));
}

#[test]
fn first_diagnostic_prefers_stderr_and_has_a_default() {
    assert_eq!(first_diagnostic(&output(b"out\n", b"err one\nerr two\n")), "err one");
    assert_eq!(first_diagnostic(&output(b"out line\nmore", b"")), "out line");
    assert_eq!(first_diagnostic(&output(b"", b"")), "no diagnostic");
    let long = vec![b'x'; 3000];
    assert_eq!(first_diagnostic(&output(&long, b"")).len(), 2048);
}

fn tree(pairs: &[(&str, &str)]) -> Vec<(String, String)> {
    pairs.iter().map(|(path, digest)| (path.to_string(), digest.to_string())).collect()
}

fn tool_failure(result: Result<(), NodeError>) -> String {
    match result {
        Err(NodeError::ToolFailed(message)) => message,
        other => panic!("expected a tool failure, got {other:?}"),
    }
}

#[test]
fn a_mutation_changes_only_its_target_to_the_postimage() {
    let before = tree(&[("src/a.ts", "d1"), ("src/b.ts", "d2")]);
    let after = tree(&[("src/b.ts", "d2"), ("src/a.ts", "d3")]);
    assert!(verify_single_tree_change(&before, &after, "src/a.ts", "d3").is_ok());
    assert_eq!(
        tool_failure(verify_single_tree_change(&before, &after, "src/a.ts", "d4")),
        "mutation target does not have the registered postimage"
    );
    assert_eq!(
        tool_failure(verify_single_tree_change(&before, &before, "src/a.ts", "d1")),
        "mutation target does not have the registered postimage"
    );
}

#[test]
fn a_mutation_may_not_touch_other_paths() {
    let before = tree(&[("src/c.ts", "d1"), ("src/b.ts", "d2"), ("src/a.ts", "d3")]);
    let after = tree(&[("src/c.ts", "x1"), ("src/b.ts", "x2"), ("src/a.ts", "d9")]);
    assert_eq!(
        tool_failure(verify_single_tree_change(&before, &after, "src/a.ts", "d9")),
        "mutation changed unregistered path `src/b.ts`"
    );
    let grown = tree(&[("src/c.ts", "d1"), ("src/b.ts", "d2"), ("src/a.ts", "d9"), ("src/d.ts", "d0")]);
    assert_eq!(
        tool_failure(verify_single_tree_change(&before, &grown, "src/a.ts", "d9")),
        "mutation changed the source path inventory"
    );
}

#[test]
fn a_repeated_path_keeps_its_last_digest() {
    let before = tree(&[("src/a.ts", "d0"), ("src/a.ts", "d1")]);
    let after = tree(&[("src/a.ts", "d2")]);
    assert!(verify_single_tree_change(&before, &after, "src/a.ts", "d2").is_ok());
    let unchanged = tree(&[("src/a.ts", "d2"), ("src/a.ts", "d1")]);
    assert_eq!(
        tool_failure(verify_single_tree_change(&before, &unchanged, "src/a.ts", "d1")),
        "mutation target does not have the registered postimage"
    );
}
