//! What a Vitest JSON report must say when exactly one registered assertion
//! is run: one selected outcome, consistent name fields, every other
//! assertion skipped, and a total that counts them all.
use vstd::prelude::*;
use crate::aeneas::{framed, prefixed};
use crate::json::JsonValue;
use crate::node::{NodeError, VitestNode};
use crate::npm::{member, members};
use crate::text::{
    debug_list, debug_str, debug_string, debug_strings, decimal, join, push_decimal, str_equal,
    string_views,
};

verus! {

/// The value of member `key` of an object; nothing for any other value.
pub open spec fn json_get(v: JsonValue, key: Seq<char>) -> Option<JsonValue> {
    match members(v) {
        Some(ms) => member(ms, key),
        None => None,
    }
}

/// The text of member `key`, where it is a string.
pub open spec fn get_str(v: JsonValue, key: Seq<char>) -> Option<Seq<char>> {
    match json_get(v, key) {
        Some(x) => x.spec_as_str(),
        None => None,
    }
}

/// The elements of member `key`, where it is an array.
pub open spec fn get_array(v: JsonValue, key: Seq<char>) -> Option<Seq<JsonValue>> {
    match json_get(v, key) {
        Some(x) => x.spec_as_array(),
        None => None,
    }
}

/// The number in member `key`, where it is an unsigned integer.
pub open spec fn get_u64(v: JsonValue, key: Seq<char>) -> Option<u64> {
    match json_get(v, key) {
        Some(x) => x.spec_as_u64(),
        None => None,
    }
}

/// The texts of `vs[..n]`, where all are strings.
pub open spec fn all_strings(vs: Seq<JsonValue>, n: nat) -> Option<Seq<Seq<char>>>
    decreases n,
{
    if n == 0 || n > vs.len() {
        Some(Seq::empty())
    } else {
        match all_strings(vs, (n - 1) as nat) {
            None => None,
            Some(s) => match vs[n - 1].spec_as_str() {
                None => None,
                Some(t) => Some(s.push(t)),
            },
        }
    }
}

/// How `{:?}` renders an optional count.
pub open spec fn debug_count(v: Option<u64>) -> Seq<char> {
    match v {
        Some(n) => "Some("@ + decimal(n as nat) + ")"@,
        None => "None"@,
    }
}

/// How `{:?}` renders an optional status text.
pub open spec fn debug_text(v: Option<Seq<char>>) -> Seq<char> {
    match v {
        Some(s) => "Some("@ + debug_string(s) + ")"@,
        None => "None"@,
    }
}

/// The status the selected assertion must report.
pub open spec fn wanted_status(expect_pass: bool) -> Seq<char> {
    if expect_pass {
        "passed"@
    } else {
        "failed"@
    }
}

/// An assertion as seen: file, full name and status.
pub type Seen = (Seq<char>, Seq<char>, Option<Seq<char>>);

/// What one assertion of a test file says, or why it cannot be accepted.
pub open spec fn assertion_seen(file: Seq<char>, a: JsonValue, expected: VitestNode, expect_pass: bool) -> Result<
    Seen,
    Seq<char>,
> {
    match get_str(a, "fullName"@) {
        None => Err("vitest assertion omits fullName"@),
        Some(full) => match get_array(a, "ancestorTitles"@) {
            None => Err("vitest assertion omits ancestorTitles"@),
            Some(titles) => match all_strings(titles, titles.len()) {
                None => Err("vitest assertion has a non-string ancestor"@),
                Some(ancestors) => match get_str(a, "title"@) {
                    None => Err("vitest assertion omits title"@),
                    Some(title) => {
                        let parts = ancestors.push(title);
                        let name = join(parts, " > "@);
                        let status = get_str(a, "status"@);
                        let selected = file == expected.file@ && name == expected.name@;
                        if full != join(parts, " "@) {
                            Err("vitest assertion name fields disagree"@)
                        } else if selected && status != Some(wanted_status(expect_pass)) {
                            Err("vitest assertion did not report `"@ + wanted_status(expect_pass) + "`"@)
                        } else if !selected && status != Some("skipped"@) {
                            Err(
                                "vitest executed unselected assertion `"@ + file + "::"@ + name + "` with status "@
                                    + debug_text(status),
                            )
                        } else {
                            Ok((file, name, status))
                        }
                    },
                },
            },
        },
    }
}

/// What the first `n` assertions of a test file say.
pub open spec fn assertions_seen(
    file: Seq<char>,
    assertions: Seq<JsonValue>,
    expected: VitestNode,
    expect_pass: bool,
    n: nat,
) -> Result<Seq<Seen>, Seq<char>>
    decreases n,
{
    if n == 0 || n > assertions.len() {
        Ok(Seq::empty())
    } else {
        match assertions_seen(file, assertions, expected, expect_pass, (n - 1) as nat) {
            Err(m) => Err(m),
            Ok(s) => match assertion_seen(file, assertions[n - 1], expected, expect_pass) {
                Err(m) => Err(m),
                Ok(x) => Ok(s.push(x)),
            },
        }
    }
}

/// A failure of a report: a message, or the failure met resolving a test
/// file's path.
pub enum ReportFault {
    Inventory(Seq<char>),
    Resolve(NodeError),
}

/// What the first `n` test files of a report say; `resolved[i]` is the
/// repository path of test file `i`, or the failure met resolving it.
pub open spec fn tests_seen(
    tests: Seq<JsonValue>,
    resolved: Seq<Result<String, NodeError>>,
    expected: VitestNode,
    expect_pass: bool,
    n: nat,
) -> Result<Seq<Seen>, ReportFault>
    decreases n,
{
    if n == 0 || n > tests.len() {
        Ok(Seq::empty())
    } else {
        match tests_seen(tests, resolved, expected, expect_pass, (n - 1) as nat) {
            Err(f) => Err(f),
            Ok(s) => {
                let t = tests[n - 1];
                match get_str(t, "name"@) {
                    None => Err(ReportFault::Inventory("vitest test result omits file name"@)),
                    Some(_) => match resolved[n - 1] {
                        Err(e) => Err(ReportFault::Resolve(e)),
                        Ok(file) => match get_array(t, "assertionResults"@) {
                            None => Err(ReportFault::Inventory("vitest result omits assertionResults"@)),
                            Some(assertions) => match assertions_seen(
                                file@,
                                assertions,
                                expected,
                                expect_pass,
                                assertions.len(),
                            ) {
                                Err(m) => Err(ReportFault::Inventory(m)),
                                Ok(x) => Ok(s + x),
                            },
                        },
                    },
                }
            },
        }
    }
}

/// The identities of the assertions among `seen[..n]` that were not
/// skipped, in order.
pub open spec fn run_ids(seen: Seq<Seen>, n: nat) -> Seq<Seq<char>>
    decreases n,
{
    if n == 0 || n > seen.len() {
        Seq::empty()
    } else if seen[n - 1].2 == Some("skipped"@) {
        run_ids(seen, (n - 1) as nat)
    } else {
        run_ids(seen, (n - 1) as nat).push(seen[n - 1].0 + "::"@ + seen[n - 1].1)
    }
}

/// The test files a report lists.
pub open spec fn report_tests(report: JsonValue) -> Seq<JsonValue> {
    match get_array(report, "testResults"@) {
        Some(tests) => tests,
        None => Seq::empty(),
    }
}

/// Why a Vitest report does not show exactly the registered assertion run
/// with the expected outcome.
pub open spec fn report_fault(
    truncated: bool,
    parsed: Result<JsonValue, String>,
    resolved: Seq<Result<String, NodeError>>,
    expected: VitestNode,
    expect_pass: bool,
) -> Option<ReportFault> {
    if truncated {
        Some(ReportFault::Inventory("vitest execution report was truncated"@))
    } else {
        match parsed {
            Err(e) => Some(ReportFault::Inventory("invalid vitest report JSON: "@ + e@)),
            Ok(v) => {
                let total = get_u64(v, "numTotalTests"@);
                let selected = get_u64(
                    v,
                    if expect_pass {
                        "numPassedTests"@
                    } else {
                        "numFailedTests"@
                    },
                );
                if selected != Some(1u64) {
                    Some(
                        ReportFault::Inventory(
                            "vitest executed total="@ + debug_count(total) + ", selected-outcome="@ + debug_count(
                                selected,
                            ) + "; expected one selected assertion"@,
                        ),
                    )
                } else {
                    match get_array(v, "testResults"@) {
                        None => Some(ReportFault::Inventory("vitest report omits testResults"@)),
                        Some(tests) => match tests_seen(tests, resolved, expected, expect_pass, tests.len()) {
                            Err(f) => Some(f),
                            Ok(seen) => {
                                let ids = run_ids(seen, seen.len());
                                let expected_id = expected.file@ + "::"@ + expected.name@;
                                if !(total matches Some(t) && t == seen.len()) || ids != seq![expected_id] {
                                    Some(
                                        ReportFault::Inventory(
                                            "vitest report selected "@ + debug_strings(ids) + ", expected `"@
                                                + expected_id + "`"@,
                                        ),
                                    )
                                } else {
                                    None
                                }
                            },
                        }
                    }
                }
            },
        }
    }
}

/// The error `e` is the fault `f`.
pub open spec fn is_report_fault(e: NodeError, f: ReportFault) -> bool {
    match f {
        ReportFault::Inventory(m) => e matches NodeError::Inventory(x) && x@ == m,
        ReportFault::Resolve(x) => e == x,
    }
}

/// An optional text by its view.
pub open spec fn opt_view(o: Option<String>) -> Option<Seq<char>> {
    match o {
        Some(t) => Some(t@),
        None => None,
    }
}

/// An assertion as seen, in executable form.
pub type SeenAssertion = (String, String, Option<String>);

pub open spec fn seen_view(x: SeenAssertion) -> Seen {
    (x.0@, x.1@, opt_view(x.2))
}

pub open spec fn seen_views(xs: Seq<SeenAssertion>) -> Seq<Seen> {
    xs.map_values(|x: SeenAssertion| seen_view(x))
}

pub(crate) fn value_get<'a>(v: &'a JsonValue, key: &str) -> (r: Option<&'a JsonValue>)
    ensures
        match r {
            Some(x) => json_get(*v, key@) == Some(*x),
            None => json_get(*v, key@) is None,
        },
{
    match v {
        JsonValue::Object(ms) => crate::npm::get(ms, key),
        _ => None,
    }
}

pub(crate) fn value_str<'a>(v: &'a JsonValue, key: &str) -> (r: Option<&'a str>)
    ensures
        match r {
            Some(t) => get_str(*v, key@) == Some(t@),
            None => get_str(*v, key@) is None,
        },
{
    match value_get(v, key) {
        Some(x) => x.as_str(),
        None => None,
    }
}

fn value_array<'a>(v: &'a JsonValue, key: &str) -> (r: Option<&'a Vec<JsonValue>>)
    ensures
        match r {
            Some(a) => get_array(*v, key@) == Some(a@),
            None => get_array(*v, key@) is None,
        },
{
    match value_get(v, key) {
        Some(x) => x.as_array(),
        None => None,
    }
}

fn value_u64(v: &JsonValue, key: &str) -> (r: Option<u64>)
    ensures
        r == get_u64(*v, key@),
{
    match value_get(v, key) {
        Some(x) => x.as_u64(),
        None => None,
    }
}

fn push_count(out: &mut String, v: Option<u64>)
    ensures
        final(out)@ == old(out)@ + debug_count(v),
{
    match v {
        Some(n) => {
            out.append("Some(");
            push_decimal(out, n);
            out.append(")");
            proof {
                assert(final(out)@ =~= old(out)@ + ("Some("@ + decimal(n as nat) + ")"@));
            }
        },
        None => {
            out.append("None");
        },
    }
}

fn push_text(out: &mut String, v: Option<&str>)
    ensures
        final(out)@ == old(out)@ + debug_text(
            match v {
                Some(t) => Some(t@),
                None => None,
            },
        ),
{
    match v {
        Some(t) => {
            out.append("Some(");
            out.append(debug_str(t).as_str());
            out.append(")");
            proof {
                assert(final(out)@ =~= old(out)@ + ("Some("@ + debug_string(t@) + ")"@));
            }
        },
        None => {
            out.append("None");
        },
    }
}

/// The texts of `vs`, where all are strings.
fn string_texts(vs: &Vec<JsonValue>) -> (r: Option<Vec<String>>)
    ensures
        match all_strings(vs@, vs@.len()) {
            None => r is None,
            Some(t) => r matches Some(out) && string_views(out@) == t,
        },
{
    let mut out: Vec<String> = Vec::new();
    let mut i: usize = 0;
    while i < vs.len()
        invariant
            i <= vs@.len(),
            all_strings(vs@, i as nat) == Some(string_views(out@)),
        decreases vs@.len() - i,
    {
        match vs[i].as_str() {
            None => {
                proof {
                    lemma_all_strings_stops(vs@, (i + 1) as nat, vs@.len());
                }
                return None;
            },
            Some(t) => {
                let ghost before = string_views(out@);
                out.push(t.to_owned());
                proof {
                    assert(string_views(out@) =~= before.push(t@));
                }
            },
        }
        i = i + 1;
    }
    Some(out)
}

proof fn lemma_all_strings_stops(vs: Seq<JsonValue>, m: nat, n: nat)
    requires
        m <= n <= vs.len(),
        all_strings(vs, m) is None,
    ensures
        all_strings(vs, n) is None,
    decreases n - m,
{
    if m < n {
        lemma_all_strings_stops(vs, m, (n - 1) as nat);
    }
}

/// Reads one assertion of test file `file`.
fn check_assertion(file: &str, a: &JsonValue, expected: &VitestNode, expect_pass: bool) -> (r: Result<
    (String, Option<String>),
    String,
>)
    ensures
        match assertion_seen(file@, *a, *expected, expect_pass) {
            Err(m) => r matches Err(x) && x@ == m,
            Ok(s) => r matches Ok((name, status)) && s == (file@, name@, opt_view(status)),
        },
{
    let full = match value_str(a, "fullName") {
        Some(t) => t,
        None => {
            return Err("vitest assertion omits fullName".to_owned());
        },
    };
    let titles = match value_array(a, "ancestorTitles") {
        Some(t) => t,
        None => {
            return Err("vitest assertion omits ancestorTitles".to_owned());
        },
    };
    let mut parts = match string_texts(titles) {
        Some(t) => t,
        None => {
            return Err("vitest assertion has a non-string ancestor".to_owned());
        },
    };
    let title = match value_str(a, "title") {
        Some(t) => t,
        None => {
            return Err("vitest assertion omits title".to_owned());
        },
    };
    let ghost before = string_views(parts@);
    parts.push(title.to_owned());
    proof {
        assert(string_views(parts@) =~= before.push(title@));
    }
    let spaced = crate::text::join_strings(&parts, " ");
    if !str_equal(full, spaced.as_str()) {
        return Err("vitest assertion name fields disagree".to_owned());
    }
    let name = crate::text::join_strings(&parts, " > ");
    let status = value_str(a, "status");
    let selected = str_equal(file, expected.file.as_str()) && str_equal(name.as_str(), expected.name.as_str());
    let wanted = if expect_pass {
        "passed"
    } else {
        "failed"
    };
    let status_is = |want: &str| -> (b: bool)
        ensures
            b == (match status {
                Some(t) => t@ == want@,
                None => false,
            }),
        {
            match status {
                Some(t) => str_equal(t, want),
                None => false,
            }
        };
    if selected && !status_is(wanted) {
        return Err(framed("vitest assertion did not report `", wanted, "`"));
    }
    if !selected && !status_is("skipped") {
        let mut m = framed("vitest executed unselected assertion `", file, "::");
        m.append(name.as_str());
        m.append("` with status ");
        push_text(&mut m, status);
        return Err(m);
    }
    let kept = match status {
        Some(t) => Some(t.to_owned()),
        None => None,
    };
    Ok((name, kept))
}

/// Reads the assertions of test file `file`, adding what they say.
fn check_assertions(
    file: &str,
    assertions: &Vec<JsonValue>,
    expected: &VitestNode,
    expect_pass: bool,
    seen: &mut Vec<SeenAssertion>,
) -> (r: Result<(), String>)
    ensures
        match assertions_seen(file@, assertions@, *expected, expect_pass, assertions@.len()) {
            Err(m) => r matches Err(x) && x@ == m,
            Ok(s) => r is Ok && seen_views(final(seen)@) == seen_views(old(seen)@) + s,
        },
{
    let ghost start = seen_views(seen@);
    let mut i: usize = 0;
    while i < assertions.len()
        invariant
            i <= assertions@.len(),
            assertions_seen(file@, assertions@, *expected, expect_pass, i as nat) matches Ok(s) && seen_views(
                seen@,
            ) == start + s,
        decreases assertions@.len() - i,
    {
        match check_assertion(file, &assertions[i], expected, expect_pass) {
            Err(m) => {
                proof {
                    lemma_assertions_stop(file@, assertions@, *expected, expect_pass, (i + 1) as nat, assertions@.len());
                }
                return Err(m);
            },
            Ok((name, status)) => {
                let ghost before = seen_views(seen@);
                let x: SeenAssertion = (file.to_owned(), name, status);
                seen.push(x);
                proof {
                    assert(seen_views(seen@) =~= before.push(seen_view(x)));
                }
            },
        }
        i = i + 1;
    }
    Ok(())
}

proof fn lemma_assertions_stop(
    file: Seq<char>,
    assertions: Seq<JsonValue>,
    expected: VitestNode,
    expect_pass: bool,
    m: nat,
    n: nat,
)
    requires
        m <= n <= assertions.len(),
        assertions_seen(file, assertions, expected, expect_pass, m) is Err,
    ensures
        assertions_seen(file, assertions, expected, expect_pass, n) == assertions_seen(
            file,
            assertions,
            expected,
            expect_pass,
            m,
        ),
    decreases n - m,
{
    if m < n {
        lemma_assertions_stop(file, assertions, expected, expect_pass, m, (n - 1) as nat);
    }
}

proof fn lemma_tests_stop(
    tests: Seq<JsonValue>,
    resolved: Seq<Result<String, NodeError>>,
    expected: VitestNode,
    expect_pass: bool,
    m: nat,
    n: nat,
)
    requires
        m <= n <= tests.len(),
        tests_seen(tests, resolved, expected, expect_pass, m) is Err,
    ensures
        tests_seen(tests, resolved, expected, expect_pass, n) == tests_seen(tests, resolved, expected, expect_pass, m),
    decreases n - m,
{
    if m < n {
        lemma_tests_stop(tests, resolved, expected, expect_pass, m, (n - 1) as nat);
    }
}

/// Reads the test files of a report; `resolved` holds, for each in order,
/// its repository path or the failure met resolving it.
#[verifier::loop_isolation(false)]
fn check_tests(
    tests: &Vec<JsonValue>,
    resolved: Vec<Result<String, NodeError>>,
    expected: &VitestNode,
    expect_pass: bool,
) -> (r: Result<Vec<SeenAssertion>, NodeError>)
    requires
        resolved@.len() == tests@.len(),
    ensures
        match tests_seen(tests@, resolved@, *expected, expect_pass, tests@.len()) {
            Err(f) => r matches Err(e) && is_report_fault(e, f),
            Ok(s) => r matches Ok(v) && seen_views(v@) == s,
        },
{
    let ghost all = resolved@;
    let mut resolved = resolved;
    let mut seen: Vec<SeenAssertion> = Vec::new();
    proof {
        assert(seen_views(seen@) =~= Seq::<Seen>::empty());
    }
    let mut i: usize = 0;
    while i < tests.len()
        invariant
            i <= tests@.len(),
            all.len() == tests@.len(),
            resolved@ == all.skip(i as int),
            tests_seen(tests@, all, *expected, expect_pass, i as nat) == Ok::<Seq<Seen>, ReportFault>(
                seen_views(seen@),
            ),
        decreases tests@.len() - i,
    {
        let t = &tests[i];
        let file = resolved.remove(0);
        proof {
            assert(file == all[i as int]);
            assert(resolved@ =~= all.skip(i + 1));
        }
        if value_str(t, "name").is_none() {
            proof {
                assert(tests_seen(tests@, all, *expected, expect_pass, (i + 1) as nat) == Err::<Seq<Seen>, ReportFault>(
                    ReportFault::Inventory("vitest test result omits file name"@),
                ));
                lemma_tests_stop(tests@, all, *expected, expect_pass, (i + 1) as nat, tests@.len());
            }
            return Err(NodeError::Inventory("vitest test result omits file name".to_owned()));
        }
        let file = match file {
            Err(e) => {
                proof {
                    assert(tests_seen(tests@, all, *expected, expect_pass, (i + 1) as nat) == Err::<Seq<Seen>, ReportFault>(
                        ReportFault::Resolve(e),
                    ));
                    lemma_tests_stop(tests@, all, *expected, expect_pass, (i + 1) as nat, tests@.len());
                }
                return Err(e);
            },
            Ok(f) => f,
        };
        let assertions = match value_array(t, "assertionResults") {
            Some(a) => a,
            None => {
                proof {
                    lemma_tests_stop(tests@, all, *expected, expect_pass, (i + 1) as nat, tests@.len());
                }
                return Err(NodeError::Inventory("vitest result omits assertionResults".to_owned()));
            },
        };
        match check_assertions(file.as_str(), assertions, expected, expect_pass, &mut seen) {
            Err(m) => {
                proof {
                    lemma_tests_stop(tests@, all, *expected, expect_pass, (i + 1) as nat, tests@.len());
                }
                return Err(NodeError::Inventory(m));
            },
            Ok(()) => {},
        }
        i = i + 1;
    }
    Ok(seen)
}

/// The identities of the assertions that were not skipped, in order.
fn run_identities(seen: &Vec<SeenAssertion>) -> (ids: Vec<String>)
    ensures
        string_views(ids@) == run_ids(seen_views(seen@), seen@.len()),
{
    let mut ids: Vec<String> = Vec::new();
    let mut i: usize = 0;
    while i < seen.len()
        invariant
            i <= seen@.len(),
            string_views(ids@) == run_ids(seen_views(seen@), i as nat),
        decreases seen@.len() - i,
    {
        let x = &seen[i];
        proof {
            assert(seen_views(seen@)[i as int] == seen_view(*x));
        }
        let skipped = match &x.2 {
            Some(t) => str_equal(t.as_str(), "skipped"),
            None => false,
        };
        if !skipped {
            let ghost before = string_views(ids@);
            ids.push(framed(x.0.as_str(), "::", x.1.as_str()));
            proof {
                assert(string_views(ids@) =~= before.push(x.0@ + "::"@ + x.1@));
            }
        }
        i = i + 1;
    }
    ids
}

/// The name of each test file a report lists, where it is a string; the
/// paths to resolve before the report is checked.
pub fn report_test_names(report: &JsonValue) -> (names: Vec<Option<String>>)
    ensures
        names@.len() == report_tests(*report).len(),
        forall|i: int| 0 <= i < names@.len() ==> opt_view(#[trigger] names@[i]) == get_str(report_tests(*report)[i], "name"@),
{
    let mut names: Vec<Option<String>> = Vec::new();
    let tests = match value_array(report, "testResults") {
        Some(t) => t,
        None => {
            return names;
        },
    };
    let mut i: usize = 0;
    while i < tests.len()
        invariant
            get_array(*report, "testResults"@) == Some(tests@),
            i <= tests@.len(),
            names@.len() == i,
            forall|j: int| 0 <= j < i ==> opt_view(#[trigger] names@[j]) == get_str(tests@[j], "name"@),
        decreases tests@.len() - i,
    {
        let name = match value_str(&tests[i], "name") {
            Some(t) => Some(t.to_owned()),
            None => None,
        };
        names.push(name);
        i = i + 1;
    }
    names
}

/// Checks the report of a run of the registered assertion `expected`:
/// `parsed` is the report as parsed from the run's output (or the parser's
/// error text), and `resolved` holds, for each test file it lists, its
/// repository path or the failure met resolving it.
pub fn validate_vitest_report(
    output: &crate::process::ProcessOutput,
    parsed: &Result<JsonValue, String>,
    resolved: Vec<Result<String, NodeError>>,
    expected: &VitestNode,
    expect_pass: bool,
) -> (r: Result<(), NodeError>)
    requires
        *parsed matches Ok(v) ==> resolved@.len() == report_tests(v).len(),
    ensures
        match report_fault(output.truncated, *parsed, resolved@, *expected, expect_pass) {
            None => r is Ok,
            Some(f) => r matches Err(e) && is_report_fault(e, f),
        },
{
    if output.truncated {
        return Err(NodeError::Inventory("vitest execution report was truncated".to_owned()));
    }
    let report = match parsed {
        Err(e) => {
            return Err(NodeError::Inventory(prefixed("invalid vitest report JSON: ", e.as_str())));
        },
        Ok(v) => v,
    };
    let total = value_u64(report, "numTotalTests");
    let selected = if expect_pass {
        value_u64(report, "numPassedTests")
    } else {
        value_u64(report, "numFailedTests")
    };
    if selected != Some(1u64) {
        let mut m = "vitest executed total=".to_owned();
        push_count(&mut m, total);
        m.append(", selected-outcome=");
        push_count(&mut m, selected);
        m.append("; expected one selected assertion");
        return Err(NodeError::Inventory(m));
    }
    let tests = match value_array(report, "testResults") {
        Some(t) => t,
        None => {
            return Err(NodeError::Inventory("vitest report omits testResults".to_owned()));
        },
    };
    let ghost all = resolved@;
    let seen = check_tests(tests, resolved, expected, expect_pass)?;
    let ids = run_identities(&seen);
    let expected_id = expected.id();
    let total_matches = match total {
        Some(t) => t <= usize::MAX as u64 && t as usize == seen.len(),
        None => false,
    };
    let only_expected = ids.len() == 1 && str_equal(ids[0].as_str(), expected_id.as_str());
    proof {
        let v = string_views(ids@);
        assert(seq![expected_id@][0] == expected_id@);
        if ids@.len() == 1 {
            assert(v =~= seq![ids@[0]@]);
            if ids@[0]@ == expected_id@ {
                assert(v =~= seq![expected_id@]);
            }
        } else {
            assert(v.len() != seq![expected_id@].len());
        }
    }
    if !total_matches || !only_expected {
        let mut m = "vitest report selected ".to_owned();
        m.append(debug_list(&ids).as_str());
        m.append(", expected `");
        m.append(expected_id.as_str());
        m.append("`");
        return Err(NodeError::Inventory(m));
    }
    Ok(())
}

/// A report is accepted only where it was complete and parsed, the one
/// assertion that was not skipped is the registered one, and the total
/// counts every assertion listed.
pub proof fn lemma_accepted_report_ran_only_the_registered_assertion(
    truncated: bool,
    parsed: Result<JsonValue, String>,
    resolved: Seq<Result<String, NodeError>>,
    expected: VitestNode,
    expect_pass: bool,
)
    requires
        report_fault(truncated, parsed, resolved, expected, expect_pass) is None,
    ensures
        !truncated,
        parsed is Ok,
        get_array(parsed->Ok_0, "testResults"@) matches Some(tests) && tests_seen(
            tests,
            resolved,
            expected,
            expect_pass,
            tests.len(),
        ) matches Ok(seen) && run_ids(seen, seen.len()) == seq![expected.file@ + "::"@ + expected.name@]
            && get_u64(parsed->Ok_0, "numTotalTests"@) == Some(seen.len() as u64),
{
}

} // verus!
